//! Several nodes on one bus, and what their elections have in common.
//!
//! A cluster is a set of nodes together with a record of what has happened
//! so far: every envelope that was posted, every vote that was cast and every
//! election that was won by votes. The record serves the proofs; no node
//! keeps it.

use crate::effect::EffectView;
use crate::laws::{
    gives_up_candidacy, lemma_majorities_share_a_peer, lemma_spent_vote_stays_spent,
    lemma_term_never_falls, lemma_vote_spends, vote_cast, vote_is_spent,
};
use crate::model::{accepts, initial, step, EventView, NodeView, Outcome};
use crate::peer::{Peer, Role};
use crate::rpc::{EnvelopeView, MessageView, Recipient};
use vstd::prelude::*;

verus! {

/// A vote that `voter` cast for `candidate` in `term`.
pub struct Vote {
    pub voter: u32,
    pub term: nat,
    pub candidate: Peer,
}

/// An election that `winner` won in `term` with the votes of `tally`.
pub struct Win {
    pub term: nat,
    pub winner: u32,
    pub tally: Set<u32>,
}

/// The nodes of a bus, by identifier, and the record of what has happened.
#[verifier::reject_recursive_types(T)]
pub struct ClusterView<T> {
    /// The identifiers of the nodes.
    pub members: Set<u32>,
    /// The state of each node.
    pub nodes: Map<u32, NodeView>,
    /// Every envelope that was posted.
    pub posted: Set<EnvelopeView<T>>,
    /// Every vote that was cast.
    pub cast: Set<Vote>,
    /// Every election that was won by votes.
    pub won: Set<Win>,
}

/// One step of a cluster: the node `id` takes `event`.
pub struct Move<T> {
    pub id: u32,
    pub event: EventView<T>,
}

/// The envelopes that a step posts.
pub open spec fn posts<T>(outcome: Outcome<T>) -> Set<EnvelopeView<T>> {
    Set::new(|envelope: EnvelopeView<T>| outcome.effects.contains(EffectView::Send(envelope)))
}

/// Whether the step is that of a candidate counting the vote that gives it
/// the votes of more than half of its peers.
pub open spec fn wins_by_votes<T>(s: NodeView, event: EventView<T>) -> bool {
    &&& event matches EventView::Delivery(envelope)
    &&& accepts(s, envelope)
    &&& envelope.msg matches MessageView::VoteResponse { term, candidate, follower }
    &&& candidate == Peer(s.id)
    &&& s.role == Role::Candidate
    &&& term >= s.term
    &&& s.votes.insert(follower.0).len() > s.peers.len() / 2
}

/// Whether the step is that of a candidate counting a vote.
pub open spec fn counts_a_vote<T>(s: NodeView, event: EventView<T>) -> bool {
    &&& event matches EventView::Delivery(envelope)
    &&& accepts(s, envelope)
    &&& envelope.msg matches MessageView::VoteResponse { term, candidate, follower }
    &&& candidate == Peer(s.id)
    &&& s.role == Role::Candidate
    &&& term >= s.term
}

/// The votes with which the node wins, where it [`wins_by_votes`].
pub open spec fn winning_tally<T>(s: NodeView, event: EventView<T>) -> Set<u32> {
    s.votes.insert(event->Delivery_0.msg->VoteResponse_follower.0)
}

/// Whether the cluster can make the move: the node is a member, and what is
/// delivered to it was posted before.
pub open spec fn can_move<T>(c: ClusterView<T>, m: Move<T>) -> bool {
    &&& c.members.contains(m.id)
    &&& m.event matches EventView::Delivery(envelope) ==> c.posted.contains(envelope)
}

/// The cluster after a move: the node has taken its step, what it posted is
/// on record, and so are the vote it cast and the election it won.
pub open spec fn advance<T>(c: ClusterView<T>, m: Move<T>) -> ClusterView<T> {
    let s = c.nodes[m.id];
    let outcome = step(s, m.event);
    ClusterView {
        members: c.members,
        nodes: c.nodes.insert(m.id, outcome.state),
        posted: c.posted.union(posts(outcome)),
        cast: match vote_cast(s, m.event) {
            Some((term, candidate)) => c.cast.insert(Vote { voter: m.id, term, candidate }),
            None => c.cast,
        },
        won: if wins_by_votes(s, m.event) {
            c.won.insert(Win { term: s.term, winner: m.id, tally: winning_tally(s, m.event) })
        } else {
            c.won
        },
    }
}

/// The cluster after a run of moves, taken in their order.
pub open spec fn advance_all<T>(c: ClusterView<T>, moves: Seq<Move<T>>) -> ClusterView<T>
    decreases moves.len(),
{
    if moves.len() == 0 {
        c
    } else {
        advance(advance_all(c, moves.drop_last()), moves.last())
    }
}

/// Whether a move is orderly: the cluster can make it, the node does not
/// give up a candidacy with it, and the node knows the same peers after it
/// as before.
pub open spec fn is_orderly<T>(c: ClusterView<T>, m: Move<T>) -> bool {
    &&& can_move(c, m)
    &&& !gives_up_candidacy(c.nodes[m.id], m.event)
    &&& step(c.nodes[m.id], m.event).state.peers == c.nodes[m.id].peers
}

/// Whether every move of a run is orderly where it is made.
pub open spec fn is_orderly_run<T>(c: ClusterView<T>, moves: Seq<Move<T>>) -> bool
    decreases moves.len(),
{
    moves.len() > 0 ==> is_orderly_run(c, moves.drop_last()) && is_orderly(
        advance_all(c, moves.drop_last()),
        moves.last(),
    )
}

/// Whether the members are finitely many, each with a state of its own in
/// which it knows exactly the members as its peers.
pub open spec fn members_know_each_other<T>(c: ClusterView<T>) -> bool {
    &&& c.members.finite()
    &&& c.nodes.dom() == c.members
    &&& forall|id: u32| #[trigger]
        c.members.contains(id) ==> c.nodes[id].id == id && c.nodes[id].peers == c.members
}

/// Whether the votes on record are votes of members that can no longer
/// vote in the term of the vote, and no member has two votes in one term on
/// record.
pub open spec fn votes_are_single<T>(c: ClusterView<T>) -> bool {
    &&& forall|vote: Vote| #[trigger]
        c.cast.contains(vote) ==> c.members.contains(vote.voter) && vote_is_spent(
            c.nodes[vote.voter],
            vote.term,
        )
    &&& forall|first: Vote, second: Vote|
        #![trigger c.cast.contains(first), c.cast.contains(second)]
        c.cast.contains(first) && c.cast.contains(second) && first.voter == second.voter
            && first.term == second.term ==> first.candidate == second.candidate
}

/// Whether every vote request and every granted vote that was posted names
/// a member as its candidate, in a term that the candidate has reached, and
/// every granted vote is on record as cast.
pub open spec fn vote_messages_are_backed<T>(c: ClusterView<T>) -> bool {
    forall|envelope: EnvelopeView<T>| #[trigger]
        c.posted.contains(envelope) ==> match envelope.msg {
            MessageView::VoteRequest { term, candidate } => {
                &&& c.members.contains(candidate.0)
                &&& term <= c.nodes[candidate.0].term
            },
            MessageView::VoteResponse { term, candidate, follower } => {
                &&& c.members.contains(candidate.0)
                &&& term <= c.nodes[candidate.0].term
                &&& c.cast.contains(Vote { voter: follower.0, term, candidate })
            },
            _ => true,
        }
}

/// Whether every vote in the tally of a candidate is on record as cast for
/// that candidate in its term.
pub open spec fn tallies_are_backed<T>(c: ClusterView<T>) -> bool {
    forall|id: u32, voter: u32|
        #![trigger c.nodes[id].votes.contains(voter)]
        c.members.contains(id) && c.nodes[id].role == Role::Candidate
            && c.nodes[id].votes.contains(voter) ==> c.cast.contains(
            Vote { voter, term: c.nodes[id].term, candidate: Peer(id) },
        )
}

/// Whether every election on record was won with the votes of more than
/// half of the members, each of them on record as cast for the winner in
/// the term of the election.
pub open spec fn wins_are_backed<T>(c: ClusterView<T>) -> bool {
    forall|win: Win| #[trigger]
        c.won.contains(win) ==> {
            &&& win.tally.subset_of(c.members)
            &&& win.tally.len() > c.members.len() / 2
            &&& forall|voter: u32| #[trigger]
                win.tally.contains(voter) ==> c.cast.contains(
                    Vote { voter, term: win.term, candidate: Peer(win.winner) },
                )
        }
}

/// Whether the record of a cluster fits its nodes.
pub open spec fn is_consistent<T>(c: ClusterView<T>) -> bool {
    &&& members_know_each_other(c)
    &&& votes_are_single(c)
    &&& vote_messages_are_backed(c)
    &&& tallies_are_backed(c)
    &&& wins_are_backed(c)
}

/// Whether no two members have won an election in one term.
pub open spec fn has_one_winner_per_term<T>(c: ClusterView<T>) -> bool {
    forall|first: Win, second: Win|
        #![trigger c.won.contains(first), c.won.contains(second)]
        c.won.contains(first) && c.won.contains(second) && first.term == second.term
            ==> first.winner == second.winner
}

/// A node posts a vote request only for itself, when it casts its own vote
/// in the next term, and it grants a vote only as the vote it casts in the
/// step, in answer to the request that was delivered to it.
pub proof fn lemma_vote_messages_of_a_step<T>(
    s: NodeView,
    event: EventView<T>,
    envelope: EnvelopeView<T>,
)
    requires
        step(s, event).effects.contains(EffectView::Send(envelope)),
    ensures
        envelope.msg matches MessageView::VoteRequest { term, candidate } ==> {
            &&& vote_cast(s, event) == Some((term, candidate))
            &&& candidate == Peer(s.id)
            &&& term == step(s, event).state.term
        },
        envelope.msg matches MessageView::VoteResponse { term, candidate, follower } ==> {
            &&& vote_cast(s, event) == Some((term, candidate))
            &&& follower == Peer(s.id)
            &&& event matches EventView::Delivery(request)
            &&& request.msg == MessageView::<T>::VoteRequest { term, candidate }
        },
{
    let effects = step(s, event).effects;
    let i = choose|i: int| 0 <= i < effects.len() && effects[i] == EffectView::Send(envelope);
    assert(effects[i] == EffectView::Send(envelope));
}

/// A node becomes leader in a step only by winning with votes, or, at an
/// election timeout, as the only node it knows or as the lower of two.
pub proof fn lemma_how_a_node_comes_to_lead<T>(s: NodeView, event: EventView<T>)
    requires
        s.role != Role::Leader,
        step(s, event).state.role == Role::Leader,
    ensures
        wins_by_votes(s, event) || (event is ElectionTimeout && (s.peers.len() == 1
            || s.peers.len() == 2)),
{
}

/// An orderly move keeps the record of a cluster fitting its nodes.
pub proof fn lemma_orderly_move_keeps_consistency<T>(c: ClusterView<T>, m: Move<T>)
    requires
        is_consistent(c),
        is_orderly(c, m),
    ensures
        is_consistent(advance(c, m)),
{
    let s = c.nodes[m.id];
    let outcome = step(s, m.event);
    let next = advance(c, m);
    lemma_term_never_falls(s, m.event);
    assert(c.members.contains(m.id));
    assert(next.nodes.dom() =~= c.members);

    assert(members_know_each_other(next)) by {
        assert forall|id: u32| #[trigger] next.members.contains(id) implies next.nodes[id].id
            == id && next.nodes[id].peers == next.members by {
            assert(c.members.contains(id));
        }
    }

    assert(votes_are_single(next)) by {
        assert forall|vote: Vote| #[trigger] next.cast.contains(vote) implies next.members.contains(
            vote.voter,
        ) && vote_is_spent(next.nodes[vote.voter], vote.term) by {
            if c.cast.contains(vote) {
                if vote.voter == m.id {
                    lemma_spent_vote_stays_spent(s, m.event, vote.term);
                }
            } else {
                lemma_vote_spends(s, m.event);
            }
        }
        assert forall|first: Vote, second: Vote|
            #![trigger next.cast.contains(first), next.cast.contains(second)]
            next.cast.contains(first) && next.cast.contains(second) && first.voter
                == second.voter && first.term == second.term implies first.candidate
            == second.candidate by {
            if c.cast.contains(first) && c.cast.contains(second) {
            } else if c.cast.contains(first) {
                lemma_spent_vote_stays_spent(s, m.event, first.term);
            } else if c.cast.contains(second) {
                lemma_spent_vote_stays_spent(s, m.event, second.term);
            }
        }
    }

    assert(vote_messages_are_backed(next)) by {
        assert forall|envelope: EnvelopeView<T>| #[trigger]
            next.posted.contains(envelope) implies match envelope.msg {
            MessageView::VoteRequest { term, candidate } => {
                &&& next.members.contains(candidate.0)
                &&& term <= next.nodes[candidate.0].term
            },
            MessageView::VoteResponse { term, candidate, follower } => {
                &&& next.members.contains(candidate.0)
                &&& term <= next.nodes[candidate.0].term
                &&& next.cast.contains(Vote { voter: follower.0, term, candidate })
            },
            _ => true,
        } by {
            if c.posted.contains(envelope) {
            } else {
                assert(outcome.effects.contains(EffectView::Send(envelope)));
                lemma_vote_messages_of_a_step(s, m.event, envelope);
                if envelope.msg is VoteResponse {
                    let request = m.event->Delivery_0;
                    assert(c.posted.contains(request));
                }
            }
        }
    }

    assert(tallies_are_backed(next)) by {
        assert forall|id: u32, voter: u32|
            #![trigger next.nodes[id].votes.contains(voter)]
            next.members.contains(id) && next.nodes[id].role == Role::Candidate
                && next.nodes[id].votes.contains(voter) implies next.cast.contains(
            Vote { voter, term: next.nodes[id].term, candidate: Peer(id) },
        ) by {
            if id == m.id {
                lemma_tally_of_a_step(c, m, voter);
            } else {
                assert(c.nodes[id].votes.contains(voter));
            }
        }
    }

    assert(wins_are_backed(next)) by {
        assert forall|win: Win| #[trigger] next.won.contains(win) implies {
            &&& win.tally.subset_of(next.members)
            &&& win.tally.len() > next.members.len() / 2
            &&& forall|voter: u32| #[trigger]
                win.tally.contains(voter) ==> next.cast.contains(
                    Vote { voter, term: win.term, candidate: Peer(win.winner) },
                )
        } by {
            if c.won.contains(win) {
            } else {
                assert forall|voter: u32| #[trigger] win.tally.contains(voter) implies c.cast.contains(
                    Vote { voter, term: win.term, candidate: Peer(win.winner) },
                ) by {
                    lemma_counted_vote_is_cast(c, m, voter);
                }
                assert forall|voter: u32| win.tally.contains(voter) implies c.members.contains(
                    voter,
                ) by {
                    lemma_counted_vote_is_cast(c, m, voter);
                }
            }
        }
    }
}

/// Where a candidate counts a vote, every vote of the tally that results is
/// on record as cast for the candidate in its term.
proof fn lemma_counted_vote_is_cast<T>(c: ClusterView<T>, m: Move<T>, voter: u32)
    requires
        is_consistent(c),
        can_move(c, m),
        counts_a_vote(c.nodes[m.id], m.event),
        winning_tally(c.nodes[m.id], m.event).contains(voter),
    ensures
        c.cast.contains(Vote { voter, term: c.nodes[m.id].term, candidate: Peer(m.id) }),
        c.members.contains(voter),
{
    let s = c.nodes[m.id];
    let envelope = m.event->Delivery_0;
    assert(c.posted.contains(envelope));
    if s.votes.contains(voter) {
        assert(c.nodes[m.id].votes.contains(voter));
    }
    let vote = Vote { voter, term: s.term, candidate: Peer(m.id) };
    assert(c.cast.contains(vote));
}

/// After an orderly move, every vote in the tally of the node that moved,
/// if it is a candidate, is on record as cast for it in its term.
proof fn lemma_tally_of_a_step<T>(c: ClusterView<T>, m: Move<T>, voter: u32)
    requires
        is_consistent(c),
        is_orderly(c, m),
        step(c.nodes[m.id], m.event).state.role == Role::Candidate,
        step(c.nodes[m.id], m.event).state.votes.contains(voter),
    ensures
        advance(c, m).cast.contains(
            Vote {
                voter,
                term: step(c.nodes[m.id], m.event).state.term,
                candidate: Peer(m.id),
            },
        ),
{
    let s = c.nodes[m.id];
    let next = step(s, m.event).state;
    if s.role == Role::Candidate && s.votes.contains(voter) && next.term == s.term {
        assert(c.nodes[m.id].votes.contains(voter));
    } else if m.event is Delivery {
        let envelope = m.event->Delivery_0;
        if envelope.msg is VoteResponse && accepts(s, envelope) {
            lemma_counted_vote_is_cast(c, m, voter);
        }
    }
}

/// An orderly run keeps the record of a cluster fitting its nodes.
pub proof fn lemma_orderly_run_keeps_consistency<T>(c: ClusterView<T>, moves: Seq<Move<T>>)
    requires
        is_consistent(c),
        is_orderly_run(c, moves),
    ensures
        is_consistent(advance_all(c, moves)),
    decreases moves.len(),
{
    if moves.len() > 0 {
        lemma_orderly_run_keeps_consistency(c, moves.drop_last());
        lemma_orderly_move_keeps_consistency(advance_all(c, moves.drop_last()), moves.last());
    }
}

/// Where the record fits the nodes, no two members have won an election in
/// one term: two winners would share a voter, who has one vote in the term.
pub proof fn lemma_consistent_cluster_has_one_winner_per_term<T>(c: ClusterView<T>)
    requires
        is_consistent(c),
    ensures
        has_one_winner_per_term(c),
{
    assert forall|first: Win, second: Win|
        #![trigger c.won.contains(first), c.won.contains(second)]
        c.won.contains(first) && c.won.contains(second) && first.term
            == second.term implies first.winner == second.winner by {
        lemma_majorities_share_a_peer(c.members, first.tally, second.tally);
        let voter = choose|voter: u32| first.tally.contains(voter) && second.tally.contains(voter);
        let one = Vote { voter, term: first.term, candidate: Peer(first.winner) };
        let other = Vote { voter, term: second.term, candidate: Peer(second.winner) };
        assert(c.cast.contains(one) && c.cast.contains(other));
    }
}

/// Election safety. Take a cluster whose members all know one another, and
/// whose record fits its nodes, and let it make any run of moves in which no
/// node changes the peers it knows and no candidate gives up its candidacy.
/// Then no two members win an election by votes in one term.
pub proof fn lemma_one_winner_per_term<T>(c: ClusterView<T>, moves: Seq<Move<T>>)
    requires
        is_consistent(c),
        is_orderly_run(c, moves),
    ensures
        has_one_winner_per_term(advance_all(c, moves)),
{
    lemma_orderly_run_keeps_consistency(c, moves);
    lemma_consistent_cluster_has_one_winner_per_term(advance_all(c, moves));
}

/// A cluster in which nothing was posted, no vote was cast and no election
/// was won, and in which nobody is a candidate, has a record that fits its
/// nodes, provided that its members know one another.
pub proof fn lemma_quiet_cluster_is_consistent<T>(c: ClusterView<T>)
    requires
        members_know_each_other(c),
        c.posted == Set::<EnvelopeView<T>>::empty(),
        c.cast == Set::<Vote>::empty(),
        c.won == Set::<Win>::empty(),
        forall|id: u32| #[trigger] c.members.contains(id) ==> c.nodes[id].role != Role::Candidate,
    ensures
        is_consistent(c),
{
}

/// A member of a quiet cluster of three, before anything has happened: a
/// follower in term 0 that listens, has its election timer armed and knows
/// the three members.
pub open spec fn quiet_member(id: u32, members: Set<u32>) -> NodeView {
    NodeView { peers: members, ..initial(id, 200, 50, Seq::empty()) }
}

/// The election that the theorem speaks of does happen: in a quiet cluster
/// of three, the node whose election timer runs out first asks for votes,
/// and with the vote of one other node it wins the election of term 1, in a
/// run of three orderly moves.
pub proof fn lemma_three_nodes_elect_a_leader<T>(c: ClusterView<T>, a: u32, b: u32, other: u32)
    requires
        a != b && a != other && b != other,
        c.members == Set::<u32>::empty().insert(a).insert(b).insert(other),
        c.nodes.dom() == c.members,
        c.nodes[a] == quiet_member(a, c.members),
        c.nodes[b] == quiet_member(b, c.members),
        c.nodes[other] == quiet_member(other, c.members),
        c.posted == Set::<EnvelopeView<T>>::empty(),
        c.cast == Set::<Vote>::empty(),
        c.won == Set::<Win>::empty(),
    ensures
        is_consistent(c),
        is_orderly_run(c, election_of_three::<T>(a, b)),
        advance_all(c, election_of_three::<T>(a, b)).nodes[a].role == Role::Leader,
        advance_all(c, election_of_three::<T>(a, b)).won.contains(
            Win { term: 1, winner: a, tally: Set::<u32>::empty().insert(a).insert(b) },
        ),
{
    let moves = election_of_three::<T>(a, b);
    let first = moves.take(1);
    let second = moves.take(2);
    assert(c.members.len() == 3) by {
        assert(Set::<u32>::empty().insert(a).len() == 1);
        assert(Set::<u32>::empty().insert(a).insert(b).len() == 2);
    }
    assert(members_know_each_other(c));
    lemma_quiet_cluster_is_consistent(c);

    assert(first.drop_last() =~= Seq::<Move<T>>::empty());
    assert(second.drop_last() =~= first);
    assert(moves.drop_last() =~= second);
    assert(first.last() == moves[0] && second.last() == moves[1]);
    let c0 = advance_all(c, first.drop_last());
    assert(c0 == c);
    let c1 = advance_all(c, first);
    assert(c1 == advance(c, moves[0]));
    assert(is_orderly(c, moves[0]));
    assert(is_orderly_run(c, first.drop_last()));
    assert(is_orderly_run(c, first));

    let request = moves[1].event->Delivery_0;
    assert(step(c.nodes[a], moves[0].event).effects[1] == EffectView::Send(request));
    assert(c1.posted.contains(request));
    assert(c1.nodes[b] == c.nodes[b]);
    let c2 = advance_all(c, second);
    assert(c2 == advance(c1, moves[1]));
    assert(is_orderly(c1, moves[1]));
    assert(is_orderly_run(c, second));

    let response = moves[2].event->Delivery_0;
    assert(step(c1.nodes[b], moves[1].event).effects[0] == EffectView::Send(response));
    assert(c2.posted.contains(response));
    assert(c2.nodes[a] == c1.nodes[a]);
    assert(c2.nodes[a].votes == Set::<u32>::empty().insert(a));
    let tally = Set::<u32>::empty().insert(a).insert(b);
    assert(tally.len() == 2) by {
        assert(Set::<u32>::empty().insert(a).len() == 1);
    }
    assert(wins_by_votes(c2.nodes[a], moves[2].event));
    assert(is_orderly(c2, moves[2]));
    let c3 = advance_all(c, moves);
    assert(c3 == advance(c2, moves[2]));
}

/// The three moves of the election of [`lemma_three_nodes_elect_a_leader`]:
/// the election timer of `a` runs out, `b` gets the vote request of `a`, and
/// `a` gets the vote of `b`.
pub open spec fn election_of_three<T>(a: u32, b: u32) -> Seq<Move<T>> {
    seq![
        Move { id: a, event: EventView::ElectionTimeout },
        Move {
            id: b,
            event: EventView::Delivery(
                EnvelopeView {
                    from: Peer(a),
                    to: Recipient::Everyone,
                    msg: MessageView::VoteRequest { term: 1, candidate: Peer(a) },
                },
            ),
        },
        Move {
            id: a,
            event: EventView::Delivery(
                EnvelopeView {
                    from: Peer(b),
                    to: Recipient::Peer(Peer(a)),
                    msg: MessageView::VoteResponse {
                        term: 1,
                        candidate: Peer(a),
                        follower: Peer(b),
                    },
                },
            ),
        },
    ]
}

} // verus!
