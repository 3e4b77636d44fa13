//! What holds of every step of a node, and of every run of steps.

use crate::effect::EffectView;
use crate::model::{
    accepts, campaigns, concedes, election_timer, grants_vote, heartbeat_timer, initial,
    is_lowest, on_election_timeout, receive_heartbeat, step, stop, unchanged, EventView,
    NodeView,
};
use crate::peer::{Peer, Role};
use crate::rpc::{EnvelopeView, MessageView, Recipient};
use vstd::prelude::*;
use vstd::set_lib::{lemma_len_subset, lemma_set_intersect_union_lens};

verus! {

/// Whether the sets that an event carries are finite, as every set is that
/// a machine can hold.
pub open spec fn event_is_finite<T>(event: EventView<T>) -> bool {
    event matches EventView::Delivery(envelope) ==> (envelope.msg matches MessageView::PeerSet(
        peers,
    ) ==> peers.finite())
}

/// Whether the node counts itself among its peers.
pub open spec fn knows_itself(s: NodeView) -> bool {
    s.peers.contains(s.id)
}

/// Whether the peer set and the tally of votes are finite.
pub open spec fn has_finite_sets(s: NodeView) -> bool {
    s.peers.finite() && s.votes.finite()
}

/// Whether the timers of a node that listens are those of its role: the
/// election timer is armed exactly while the node is not the leader, the
/// heartbeat timer exactly while it is.
pub open spec fn timers_follow_role(s: NodeView) -> bool {
    s.listening ==> {
        &&& s.election_task is Some <==> s.role != Role::Leader
        &&& s.heartbeat_task is Some <==> s.role == Role::Leader
    }
}

/// Whether every vote in the tally is the vote of a known peer.
pub open spec fn votes_within_peers(s: NodeView) -> bool {
    s.votes.subset_of(s.peers)
}

/// Whether a node neither listens nor has a timer armed.
pub open spec fn is_stopped(s: NodeView) -> bool {
    !s.listening && s.election_task is None && s.heartbeat_task is None
}

/// The term of a node never falls.
pub proof fn lemma_term_never_falls<T>(s: NodeView, event: EventView<T>)
    ensures
        step(s, event).state.term >= s.term,
{
}

/// No step changes who the node is, how it is configured, or which bus it
/// is on.
pub proof fn lemma_configuration_stays<T>(s: NodeView, event: EventView<T>)
    ensures
        step(s, event).state.id == s.id,
        step(s, event).state.election_timeout_ms == s.election_timeout_ms,
        step(s, event).state.heartbeat_timeout_ms == s.heartbeat_timeout_ms,
        step(s, event).state.channel == s.channel,
{
}

/// A freshly built node counts itself among its peers, and a node that does
/// so still does after every step.
pub proof fn lemma_node_knows_itself<T>(s: NodeView, event: EventView<T>)
    requires
        knows_itself(s),
    ensures
        knows_itself(step(s, event).state),
{
}

/// The sets of a node stay finite.
pub proof fn lemma_sets_stay_finite<T>(s: NodeView, event: EventView<T>)
    requires
        has_finite_sets(s),
        event_is_finite(event),
    ensures
        has_finite_sets(step(s, event).state),
{
}

/// The one event after which the timers of a node are no longer those of
/// its role: a leader takes up a vote request of another node, of a term
/// not below its own, and with it an election timer.
pub open spec fn leader_hears_vote_request<T>(s: NodeView, event: EventView<T>) -> bool {
    &&& s.role == Role::Leader
    &&& event matches EventView::Delivery(envelope)
    &&& accepts(s, envelope)
    &&& envelope.msg matches MessageView::VoteRequest { term, candidate }
    &&& candidate != Peer(s.id)
    &&& term >= s.term
}

/// If the timers of a node are those of its role, they still are after a
/// step, unless the step is that of a leader taking up a vote request: then
/// they are not.
pub proof fn lemma_timers_follow_role<T>(s: NodeView, event: EventView<T>)
    requires
        timers_follow_role(s),
    ensures
        timers_follow_role(step(s, event).state) <==> !leader_hears_vote_request(s, event),
{
}

/// The events after which the tally holds the vote of someone who is not a
/// known peer: a voter leaves; the leader sends a peer set that lacks a
/// voter; a stranger's vote is counted and does not decide the election.
pub open spec fn strays_from_peers<T>(s: NodeView, event: EventView<T>) -> bool {
    &&& event matches EventView::Delivery(envelope)
    &&& accepts(s, envelope)
    &&& match envelope.msg {
        MessageView::PeerRemoved => s.votes.contains(envelope.from.0),
        MessageView::PeerSet(peers) => !s.votes.subset_of(peers.insert(s.id)),
        MessageView::VoteResponse { term, candidate, follower } => {
            &&& candidate == Peer(s.id)
            &&& s.role == Role::Candidate
            &&& term >= s.term
            &&& !s.peers.contains(follower.0)
            &&& s.votes.insert(follower.0).len() <= s.peers.len() / 2
        },
        _ => false,
    }
}

/// If every vote in the tally is that of a known peer, this still holds
/// after a step, unless the step is one of those named by
/// [`strays_from_peers`]: then it does not.
pub proof fn lemma_votes_within_peers<T>(s: NodeView, event: EventView<T>)
    requires
        knows_itself(s),
        votes_within_peers(s),
    ensures
        votes_within_peers(step(s, event).state) <==> !strays_from_peers(s, event),
{
    let next = step(s, event).state;
    if strays_from_peers(s, event) {
        let envelope = event->Delivery_0;
        match envelope.msg {
            MessageView::PeerRemoved => {
                assert(next.votes.contains(envelope.from.0));
                assert(!next.peers.contains(envelope.from.0));
            },
            MessageView::PeerSet(peers) => {
                assert(next.peers == peers.insert(s.id));
            },
            MessageView::VoteResponse { term, candidate, follower } => {
                assert(next.votes.contains(follower.0));
                assert(!next.peers.contains(follower.0));
            },
            _ => {},
        }
    }
}

/// A tally within a finite peer set holds no more votes than there are
/// peers.
pub proof fn lemma_no_more_votes_than_peers(s: NodeView)
    requires
        s.peers.finite(),
        votes_within_peers(s),
    ensures
        s.votes.len() <= s.peers.len(),
{
    lemma_len_subset(s.votes, s.peers);
}

/// Stopping a node that has been stopped changes nothing and asks for
/// nothing.
pub proof fn lemma_stop_twice<T>(s: NodeView)
    ensures
        is_stopped(stop::<T>(s).state),
        stop::<T>(stop::<T>(s).state) == unchanged::<T>(stop::<T>(s).state),
{
    assert(stop::<T>(stop::<T>(s).state).effects =~= Seq::empty());
}

/// A stopped node stays as it is whatever arrives, and asks for nothing
/// but, where it is the leader, the broadcast of a value that the
/// application issues.
pub proof fn lemma_stopped_node_is_inert<T>(s: NodeView, event: EventView<T>)
    requires
        is_stopped(s),
    ensures
        step(s, event).state == s,
        !(event is Issue) ==> step(s, event) == unchanged::<T>(s),
{
    if event is Stop {
        assert(stop::<T>(s).effects =~= Seq::empty());
    }
}

/// The user hears of a change of role once, as the last thing that the
/// step asks for, and hears of no role when the role stays.
pub proof fn lemma_role_change_is_told_once<T>(s: NodeView, event: EventView<T>, index: int)
    requires
        0 <= index < step(s, event).effects.len(),
    ensures
        step(s, event).state.role != s.role ==> step(s, event).effects.last()
            == EffectView::<T>::RoleChange(step(s, event).state.role),
        step(s, event).effects[index] is RoleChange ==> {
            &&& step(s, event).state.role != s.role
            &&& index == step(s, event).effects.len() - 1
        },
{
}

/// A step that changes the role asks for something: for telling the user.
pub proof fn lemma_role_change_is_told<T>(s: NodeView, event: EventView<T>)
    requires
        step(s, event).state.role != s.role,
    ensures
        step(s, event).effects.len() > 0,
        step(s, event).effects.last() == EffectView::<T>::RoleChange(step(s, event).state.role),
{
}

/// A node that knows only itself becomes leader when its election timer
/// runs out, and its user hears of it once.
pub proof fn lemma_sole_node_leads<T>(s: NodeView)
    requires
        s.peers == Set::<u32>::empty().insert(s.id),
        s.role != Role::Leader,
        s.election_task is Some,
    ensures
        on_election_timeout::<T>(s).state.role == Role::Leader,
        on_election_timeout::<T>(s).effects.filter(|effect: EffectView<T>| effect is RoleChange)
            == seq![EffectView::<T>::RoleChange(Role::Leader)],
{
    assert(s.peers.len() == 1);
    let effects = on_election_timeout::<T>(s).effects;
    let expected = seq![
        EffectView::<T>::ElectionTimer(None),
        EffectView::Send(
            EnvelopeView {
                from: Peer(s.id),
                to: Recipient::Everyone,
                msg: MessageView::Heartbeat { term: s.term },
            },
        ),
        EffectView::HeartbeatTimer(Some(heartbeat_timer(s))),
        EffectView::RoleChange(Role::Leader),
    ];
    assert(effects =~= expected);
    lemma_filter_role_changes(expected);
}

/// The role changes among four effects of which only the last is one.
proof fn lemma_filter_role_changes<T>(effects: Seq<EffectView<T>>)
    requires
        effects.len() == 4,
        !(effects[0] is RoleChange),
        !(effects[1] is RoleChange),
        !(effects[2] is RoleChange),
        effects[3] is RoleChange,
    ensures
        effects.filter(|effect: EffectView<T>| effect is RoleChange) == seq![effects[3]],
{
    let keep = |effect: EffectView<T>| effect is RoleChange;
    reveal_with_fuel(Seq::filter, 5);
    assert(effects.drop_last().drop_last().drop_last().drop_last() =~= Seq::empty());
    assert(effects.filter(keep) =~= seq![effects[3]]);
}

/// A fresh node is one that knows only itself, so it leads after its first
/// election timeout.
pub proof fn lemma_fresh_node_leads<T>(
    id: u32,
    election_timeout_ms: u32,
    heartbeat_timeout_ms: u32,
    channel: Seq<char>,
)
    ensures
        on_election_timeout::<T>(
            initial(id, election_timeout_ms, heartbeat_timeout_ms, channel),
        ).state.role == Role::Leader,
{
    lemma_sole_node_leads::<T>(initial(id, election_timeout_ms, heartbeat_timeout_ms, channel));
}

/// Of two nodes that know each other, the one with the lower identifier
/// becomes leader when its election timer runs out.
pub proof fn lemma_lower_of_two_leads<T>(s: NodeView, other: u32)
    requires
        s.peers == Set::<u32>::empty().insert(s.id).insert(other),
        s.id < other,
        s.election_task is Some,
    ensures
        on_election_timeout::<T>(s).state.role == Role::Leader,
{
    lemma_two_peers(s.id, other);
    assert(is_lowest(s));
}

/// Of two nodes that know each other, the one with the higher identifier
/// keeps its role when its election timer runs out, and waits on with a new
/// timer; the heartbeat of the other then makes or keeps it a follower.
pub proof fn lemma_higher_of_two_waits<T>(s: NodeView, other: u32, term: nat)
    requires
        s.peers == Set::<u32>::empty().insert(s.id).insert(other),
        other < s.id,
        s.role == Role::Follower,
        s.election_task is Some,
    ensures
        on_election_timeout::<T>(s).state == (NodeView {
            election_task: Some(election_timer(s)),
            ..s
        }),
        on_election_timeout::<T>(s).effects == seq![
            EffectView::<T>::ElectionTimer(Some(election_timer(s))),
        ],
        receive_heartbeat::<T>(s, term).state.role == Role::Follower,
{
    lemma_two_peers(s.id, other);
    assert(s.peers.contains(other));
    assert(!is_lowest(s));
}

/// A set of two different numbers has two members.
proof fn lemma_two_peers(a: u32, b: u32)
    requires
        a != b,
    ensures
        Set::<u32>::empty().insert(a).insert(b).len() == 2,
{
    assert(Set::<u32>::empty().insert(a).len() == 1);
}

/// Two majorities of one finite peer set share a peer.
pub proof fn lemma_majorities_share_a_peer(peers: Set<u32>, first: Set<u32>, second: Set<u32>)
    requires
        peers.finite(),
        first.subset_of(peers),
        second.subset_of(peers),
        first.len() > peers.len() / 2,
        second.len() > peers.len() / 2,
    ensures
        exists|peer: u32| first.contains(peer) && second.contains(peer),
{
    lemma_len_subset(first, peers);
    lemma_len_subset(second, peers);
    lemma_len_subset(first + second, peers);
    lemma_set_intersect_union_lens(first, second);
    let shared = first.intersect(second);
    assert(shared.len() > 0);
    assert(shared.finite());
    let peer = shared.choose();
    assert(shared.contains(peer));
    assert(first.contains(peer) && second.contains(peer));
}

/// Where every peer casts at most one vote in a term, as `ballot` records
/// it, two candidates cannot both hold a majority of one finite peer set:
/// if each vote in either tally was cast for the candidate that counts it,
/// the two candidates are one.
pub proof fn lemma_one_majority_per_term(
    peers: Set<u32>,
    ballot: Map<u32, Peer>,
    first: Peer,
    first_tally: Set<u32>,
    second: Peer,
    second_tally: Set<u32>,
)
    requires
        peers.finite(),
        first_tally.subset_of(peers),
        second_tally.subset_of(peers),
        first_tally.len() > peers.len() / 2,
        second_tally.len() > peers.len() / 2,
        forall|voter: u32|
            first_tally.contains(voter) ==> ballot.dom().contains(voter) && ballot[voter] == first,
        forall|voter: u32|
            second_tally.contains(voter) ==> ballot.dom().contains(voter) && ballot[voter]
                == second,
    ensures
        first == second,
{
    lemma_majorities_share_a_peer(peers, first_tally, second_tally);
    let voter = choose|voter: u32| first_tally.contains(voter) && second_tally.contains(voter);
    assert(ballot[voter] == first);
    assert(ballot[voter] == second);
}

/// The vote that a node casts in a step, with its term: its own, when it
/// stands for election, or the one it grants to the candidate that asked.
pub open spec fn vote_cast<T>(s: NodeView, event: EventView<T>) -> Option<(nat, Peer)> {
    match event {
        EventView::ElectionTimeout => if s.election_task is Some && campaigns(s) {
            Some(((s.term + 1) as nat, Peer(s.id)))
        } else {
            None
        },
        EventView::Delivery(envelope) => match envelope.msg {
            MessageView::VoteRequest { term, candidate } => if accepts(s, envelope) && candidate
                != Peer(s.id) && term >= s.term && grants_vote(s, term) {
                Some((term, candidate))
            } else {
                None
            },
            _ => None,
        },
        _ => None,
    }
}

/// Whether the step is that of a candidate giving up its candidacy to a
/// heartbeat.
pub open spec fn gives_up_candidacy<T>(s: NodeView, event: EventView<T>) -> bool {
    &&& event matches EventView::Delivery(envelope)
    &&& accepts(s, envelope)
    &&& envelope.msg matches MessageView::Heartbeat { term }
    &&& concedes(s, term)
}

/// The state of a node after the events of a run, taken in their order.
pub open spec fn run<T>(s: NodeView, events: Seq<EventView<T>>) -> NodeView
    decreases events.len(),
{
    if events.len() == 0 {
        s
    } else {
        step(run(s, events.drop_last()), events.last()).state
    }
}

/// The state of a node before the event at `index` of a run.
pub open spec fn state_before<T>(s: NodeView, events: Seq<EventView<T>>, index: int) -> NodeView {
    run(s, events.take(index))
}

/// The message with which a node tells `candidate` that it has its vote in
/// `term`.
pub open spec fn vote_sent<T>(s: NodeView, term: nat, candidate: Peer) -> EffectView<T> {
    EffectView::Send(
        EnvelopeView {
            from: Peer(s.id),
            to: Recipient::Peer(candidate),
            msg: MessageView::VoteResponse { term, candidate, follower: Peer(s.id) },
        },
    )
}

/// A vote that is granted to another node is sent to that node, and nothing
/// else sends a vote.
pub proof fn lemma_granted_vote_is_sent<T>(s: NodeView, event: EventView<T>, vote: EffectView<T>)
    requires
        vote matches EffectView::Send(envelope) && envelope.msg is VoteResponse,
    ensures
        step(s, event).effects.contains(vote) <==> {
            &&& vote_cast(s, event) is Some
            &&& vote_cast(s, event)->Some_0.1 != Peer(s.id)
            &&& vote == vote_sent::<T>(
                s,
                vote_cast(s, event)->Some_0.0,
                vote_cast(s, event)->Some_0.1,
            )
        },
{
    let effects = step(s, event).effects;
    if effects.contains(vote) {
        let i = choose|i: int| 0 <= i < effects.len() && effects[i] == vote;
        assert(effects[i] == vote);
    }
    if vote_cast(s, event) is Some && vote_cast(s, event)->Some_0.1 != Peer(s.id) {
        let cast = vote_cast(s, event)->Some_0;
        assert(effects[0] == vote_sent::<T>(s, cast.0, cast.1));
    }
}

/// Whether the node can cast no further vote in `term` or in an earlier
/// term: it is past the term, or it is in the term and has voted or leads.
pub open spec fn vote_is_spent(s: NodeView, term: nat) -> bool {
    s.term > term || (s.term == term && (s.voted_for is Some || s.role == Role::Leader))
}

/// Casting a vote in a term spends the vote of that term.
pub proof fn lemma_vote_spends<T>(s: NodeView, event: EventView<T>)
    requires
        vote_cast(s, event) is Some,
    ensures
        vote_is_spent(step(s, event).state, vote_cast(s, event)->Some_0.0),
{
}

/// A spent vote stays spent, unless a candidate gives up its candidacy, and
/// a node whose vote of a term is spent votes only in a later term.
pub proof fn lemma_spent_vote_stays_spent<T>(s: NodeView, event: EventView<T>, term: nat)
    requires
        vote_is_spent(s, term),
    ensures
        !gives_up_candidacy(s, event) ==> vote_is_spent(step(s, event).state, term),
        vote_cast(s, event) matches Some((later, _)) ==> later > term,
{
}

/// The run up to and including the event at `index` is the run before it,
/// followed by the step of that event.
proof fn lemma_run_unfolds<T>(s: NodeView, events: Seq<EventView<T>>, index: int)
    requires
        0 <= index < events.len(),
    ensures
        state_before(s, events, index + 1) == step(
            state_before(s, events, index),
            events[index],
        ).state,
{
    let upto = events.take(index + 1);
    assert(upto.drop_last() =~= events.take(index));
    assert(upto.last() == events[index]);
}

/// After a vote was cast at `cast`, the vote of its term is still spent
/// before the event at `index`, if no candidacy was given up in between.
proof fn lemma_vote_stays_spent_until<T>(
    s: NodeView,
    events: Seq<EventView<T>>,
    cast: int,
    index: int,
)
    requires
        0 <= cast < index <= events.len(),
        vote_cast(state_before(s, events, cast), events[cast]) is Some,
        forall|k: int|
            cast < k < index ==> !gives_up_candidacy(
                #[trigger] state_before(s, events, k),
                events[k],
            ),
    ensures
        vote_is_spent(
            state_before(s, events, index),
            vote_cast(state_before(s, events, cast), events[cast])->Some_0.0,
        ),
    decreases index - cast,
{
    let term = vote_cast(state_before(s, events, cast), events[cast])->Some_0.0;
    if index == cast + 1 {
        lemma_run_unfolds(s, events, cast);
        lemma_vote_spends(state_before(s, events, cast), events[cast]);
    } else {
        lemma_vote_stays_spent_until(s, events, cast, index - 1);
        lemma_run_unfolds(s, events, index - 1);
        assert(!gives_up_candidacy(state_before(s, events, index - 1), events[index - 1]));
        lemma_spent_vote_stays_spent(
            state_before(s, events, index - 1),
            events[index - 1],
            term,
        );
    }
}

/// In no term does a node cast two votes, as long as it does not give up a
/// candidacy in between: of two votes that it casts in a run, the later
/// one is of a later term.
pub proof fn lemma_one_vote_per_term<T>(
    s: NodeView,
    events: Seq<EventView<T>>,
    earlier: int,
    later: int,
)
    requires
        0 <= earlier < later < events.len(),
        vote_cast(state_before(s, events, earlier), events[earlier]) is Some,
        vote_cast(state_before(s, events, later), events[later]) is Some,
        forall|k: int|
            earlier < k < later ==> !gives_up_candidacy(
                #[trigger] state_before(s, events, k),
                events[k],
            ),
    ensures
        vote_cast(state_before(s, events, earlier), events[earlier])->Some_0.0 < vote_cast(
            state_before(s, events, later),
            events[later],
        )->Some_0.0,
{
    let term = vote_cast(state_before(s, events, earlier), events[earlier])->Some_0.0;
    lemma_vote_stays_spent_until(s, events, earlier, later);
    lemma_spent_vote_stays_spent(state_before(s, events, later), events[later], term);
}

/// The term of a node never falls over a run.
pub proof fn lemma_term_never_falls_over_a_run<T>(s: NodeView, events: Seq<EventView<T>>)
    ensures
        run(s, events).term >= s.term,
    decreases events.len(),
{
    if events.len() > 0 {
        lemma_term_never_falls_over_a_run(s, events.drop_last());
        lemma_term_never_falls(run(s, events.drop_last()), events.last());
    }
}

/// A node that counts itself among its peers still does after a run.
pub proof fn lemma_node_knows_itself_over_a_run<T>(s: NodeView, events: Seq<EventView<T>>)
    requires
        knows_itself(s),
    ensures
        knows_itself(run(s, events)),
    decreases events.len(),
{
    if events.len() > 0 {
        lemma_node_knows_itself_over_a_run(s, events.drop_last());
        lemma_node_knows_itself(run(s, events.drop_last()), events.last());
    }
}

/// A freshly built node counts itself among its peers, its timers are
/// those of its role, its tally is empty and its sets are finite.
pub proof fn lemma_fresh_node_is_in_order(
    id: u32,
    election_timeout_ms: u32,
    heartbeat_timeout_ms: u32,
    channel: Seq<char>,
)
    ensures
        knows_itself(initial(id, election_timeout_ms, heartbeat_timeout_ms, channel)),
        timers_follow_role(initial(id, election_timeout_ms, heartbeat_timeout_ms, channel)),
        votes_within_peers(initial(id, election_timeout_ms, heartbeat_timeout_ms, channel)),
        has_finite_sets(initial(id, election_timeout_ms, heartbeat_timeout_ms, channel)),
{
}

/// The timers of a node are those of its role after a run in which no
/// leader takes up a vote request, if they were so before the run.
pub proof fn lemma_timers_follow_role_over_a_run<T>(s: NodeView, events: Seq<EventView<T>>)
    requires
        timers_follow_role(s),
        forall|k: int|
            0 <= k < events.len() ==> !leader_hears_vote_request(
                #[trigger] state_before(s, events, k),
                events[k],
            ),
    ensures
        timers_follow_role(run(s, events)),
    decreases events.len(),
{
    if events.len() > 0 {
        let earlier = events.drop_last();
        let last = events.len() - 1;
        assert forall|k: int| 0 <= k < earlier.len() implies !leader_hears_vote_request(
            #[trigger] state_before(s, earlier, k),
            earlier[k],
        ) by {
            assert(earlier.take(k) =~= events.take(k));
            assert(!leader_hears_vote_request(state_before(s, events, k), events[k]));
        }
        lemma_timers_follow_role_over_a_run(s, earlier);
        assert(events.take(last) =~= earlier);
        assert(!leader_hears_vote_request(state_before(s, events, last), events[last]));
        lemma_timers_follow_role(run(s, earlier), events.last());
    }
}

/// Every vote in the tally is that of a known peer after a run in which no
/// step is one of those named by [`strays_from_peers`], if it was so before
/// the run and the node counted itself among its peers.
pub proof fn lemma_votes_within_peers_over_a_run<T>(s: NodeView, events: Seq<EventView<T>>)
    requires
        knows_itself(s),
        votes_within_peers(s),
        forall|k: int|
            0 <= k < events.len() ==> !strays_from_peers(
                #[trigger] state_before(s, events, k),
                events[k],
            ),
    ensures
        votes_within_peers(run(s, events)),
    decreases events.len(),
{
    if events.len() > 0 {
        let earlier = events.drop_last();
        let last = events.len() - 1;
        assert forall|k: int| 0 <= k < earlier.len() implies !strays_from_peers(
            #[trigger] state_before(s, earlier, k),
            earlier[k],
        ) by {
            assert(earlier.take(k) =~= events.take(k));
            assert(!strays_from_peers(state_before(s, events, k), events[k]));
        }
        lemma_votes_within_peers_over_a_run(s, earlier);
        lemma_node_knows_itself_over_a_run(s, earlier);
        assert(events.take(last) =~= earlier);
        assert(!strays_from_peers(state_before(s, events, last), events[last]));
        lemma_votes_within_peers(run(s, earlier), events.last());
    }
}

} // verus!
