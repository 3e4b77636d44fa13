//! The election protocol as mathematics: the state of a node as a plain
//! value, and each transition as a function from a state and its input to
//! the next state and the effects asked of the host.

use crate::effect::{EffectView, Timer};
use crate::peer::{Peer, Role};
use crate::rpc::{EnvelopeView, MessageView, Recipient};
use crate::sets::is_lower_bound;
use vstd::prelude::*;

verus! {

/// The state of a node. `term` is unbounded here; sets are sets of peer
/// identifiers; a timer slot holds the timer that is armed, if any.
pub struct NodeView {
    pub id: u32,
    pub election_timeout_ms: u32,
    pub heartbeat_timeout_ms: u32,
    pub channel: Seq<char>,
    pub role: Role,
    pub term: nat,
    pub voted_for: Option<Peer>,
    pub votes: Set<u32>,
    pub peers: Set<u32>,
    pub election_task: Option<Timer>,
    pub heartbeat_task: Option<Timer>,
    pub listening: bool,
}

/// The result of a transition.
pub struct Outcome<T> {
    pub state: NodeView,
    pub effects: Seq<EffectView<T>>,
}

/// What arrives at a node.
pub enum EventView<T> {
    /// The bus delivered an envelope.
    Delivery(EnvelopeView<T>),
    /// The election timer ran out.
    ElectionTimeout,
    /// The heartbeat timer ran out.
    HeartbeatTimeout,
    /// The application asked to broadcast a value.
    Issue(T),
    /// The application asked the node to stop.
    Stop,
}

/// The transition that changes nothing and asks for nothing.
pub open spec fn unchanged<T>(s: NodeView) -> Outcome<T> {
    Outcome { state: s, effects: Seq::empty() }
}

/// The request to post `msg`, from this node, to `to`.
pub open spec fn post<T>(s: NodeView, msg: MessageView<T>, to: Recipient) -> EffectView<T> {
    EffectView::Send(EnvelopeView { from: Peer(s.id), to, msg })
}

/// The election timer of this node.
pub open spec fn election_timer(s: NodeView) -> Timer {
    Timer { delay_ms: s.election_timeout_ms }
}

/// The heartbeat timer of this node.
pub open spec fn heartbeat_timer(s: NodeView) -> Timer {
    Timer { delay_ms: s.heartbeat_timeout_ms }
}

/// The state of a freshly built node: a follower in term 0 that knows only
/// itself, listens on the bus and has its election timer armed.
pub open spec fn initial(
    id: u32,
    election_timeout_ms: u32,
    heartbeat_timeout_ms: u32,
    channel: Seq<char>,
) -> NodeView {
    NodeView {
        id,
        election_timeout_ms,
        heartbeat_timeout_ms,
        channel,
        role: Role::Follower,
        term: 0,
        voted_for: None,
        votes: Set::empty(),
        peers: Set::empty().insert(id),
        election_task: Some(Timer { delay_ms: election_timeout_ms }),
        heartbeat_task: None,
        listening: true,
    }
}

/// What a freshly built node asks of its host: subscribe, arm the election
/// timer, announce the node to everyone.
pub open spec fn start_effects<T>(s: NodeView) -> Seq<EffectView<T>> {
    seq![
        EffectView::Listen,
        EffectView::ElectionTimer(Some(election_timer(s))),
        post(s, MessageView::PeerAdded, Recipient::Everyone),
    ]
}

/// Putting `new` into the election slot. The host hears of it unless an
/// empty slot is emptied.
pub open spec fn replace_election_task<T>(s: NodeView, new: Option<Timer>) -> Outcome<T> {
    Outcome {
        state: NodeView { election_task: new, ..s },
        effects: if new is Some || s.election_task is Some {
            seq![EffectView::ElectionTimer(new)]
        } else {
            Seq::empty()
        },
    }
}

/// Putting `new` into the heartbeat slot. The host hears of it unless an
/// empty slot is emptied.
pub open spec fn replace_heartbeat_task<T>(s: NodeView, new: Option<Timer>) -> Outcome<T> {
    Outcome {
        state: NodeView { heartbeat_task: new, ..s },
        effects: if new is Some || s.heartbeat_task is Some {
            seq![EffectView::HeartbeatTimer(new)]
        } else {
            Seq::empty()
        },
    }
}

/// The notice that the role is now `s.role`, if that differs from `before`.
pub open spec fn role_notice<T>(before: Role, s: NodeView) -> Seq<EffectView<T>> {
    if s.role != before {
        seq![EffectView::RoleChange(s.role)]
    } else {
        Seq::empty()
    }
}

/// A peer announced itself: it joins the peer set, and a leader answers
/// with the whole set.
pub open spec fn add_peer<T>(s: NodeView, peer: Peer) -> Outcome<T> {
    let peers = s.peers.insert(peer.0);
    Outcome {
        state: NodeView { peers, ..s },
        effects: if s.role == Role::Leader {
            seq![post(s, MessageView::PeerSet(peers), Recipient::Everyone)]
        } else {
            Seq::empty()
        },
    }
}

/// A peer left: it leaves the peer set.
pub open spec fn remove_peer<T>(s: NodeView, peer: Peer) -> Outcome<T> {
    Outcome { state: NodeView { peers: s.peers.remove(peer.0), ..s }, effects: Seq::empty() }
}

/// The leader sent its peer set: it replaces the one of this node, which
/// stays a member of its own set.
pub open spec fn reconcile_peers<T>(s: NodeView, peers: Set<u32>) -> Outcome<T> {
    Outcome { state: NodeView { peers: peers.insert(s.id), ..s }, effects: Seq::empty() }
}

/// The leader tells everyone that it is alive and arms its next heartbeat.
pub open spec fn send_heartbeat<T>(s: NodeView) -> Outcome<T> {
    let armed = replace_heartbeat_task::<T>(s, Some(heartbeat_timer(s)));
    Outcome {
        state: armed.state,
        effects: seq![post(s, MessageView::Heartbeat { term: s.term }, Recipient::Everyone)]
            + armed.effects,
    }
}

/// The node wins the election: it becomes leader, forgets the votes of
/// the election, gives up its election timer and sends its first heartbeat.
pub open spec fn win_election<T>(s: NodeView) -> Outcome<T> {
    let released = replace_election_task::<T>(s, None);
    let leader = NodeView {
        role: Role::Leader,
        voted_for: None,
        votes: Set::empty(),
        ..released.state
    };
    let beat = send_heartbeat::<T>(leader);
    Outcome {
        state: beat.state,
        effects: released.effects + beat.effects + role_notice(s.role, beat.state),
    }
}

/// Whether this node has the lowest identifier among the peers it knows.
pub open spec fn is_lowest(s: NodeView) -> bool {
    s.peers.contains(s.id) && is_lower_bound(s.peers, s.id)
}

/// The node stands for election in the next term: it votes for itself,
/// arms a new election timer and asks everyone for their vote.
pub open spec fn campaign<T>(s: NodeView) -> Outcome<T> {
    let term = s.term + 1;
    let candidate = NodeView {
        role: Role::Candidate,
        term,
        voted_for: Some(Peer(s.id)),
        votes: Set::empty().insert(s.id),
        ..s
    };
    let armed = replace_election_task::<T>(candidate, Some(election_timer(s)));
    Outcome {
        state: armed.state,
        effects: armed.effects + seq![
            post(
                s,
                MessageView::VoteRequest { term, candidate: Peer(s.id) },
                Recipient::Everyone,
            ),
        ] + role_notice(s.role, armed.state),
    }
}

/// Whether a node in this state stands for election when no heartbeat came
/// in time.
pub open spec fn campaigns(s: NodeView) -> bool {
    s.peers.len() != 1 && s.peers.len() != 2
}

/// No heartbeat came in time. A node that knows only itself wins at once.
/// Of two nodes the one with the lower identifier wins and the other waits
/// on. Among three or more the node stands for election.
pub open spec fn start_election<T>(s: NodeView) -> Outcome<T> {
    if s.peers.len() == 1 {
        win_election(s)
    } else if s.peers.len() == 2 {
        if is_lowest(s) {
            win_election(s)
        } else {
            replace_election_task(s, Some(election_timer(s)))
        }
    } else {
        campaign(s)
    }
}

/// A vote arrived. Only a candidate counts it, and only if it is not of an
/// earlier term; with the votes of more than half of the peers it wins.
pub open spec fn receive_vote<T>(s: NodeView, term: nat, follower: Peer) -> Outcome<T> {
    if s.role != Role::Candidate || term < s.term {
        unchanged(s)
    } else {
        let counted = NodeView { votes: s.votes.insert(follower.0), ..s };
        if counted.votes.len() > counted.peers.len() / 2 {
            win_election(counted)
        } else {
            Outcome { state: counted, effects: Seq::empty() }
        }
    }
}

/// The state after the node has seen a vote request of a term not below its
/// own: a later term is adopted, and with it the vote is free again.
pub open spec fn adopt_term(s: NodeView, term: nat) -> NodeView {
    if term > s.term {
        NodeView { term, voted_for: None, votes: Set::empty(), ..s }
    } else {
        s
    }
}

/// Whether the node answers a vote request of `term` (not below its own,
/// from another node) with its vote.
pub open spec fn grants_vote(s: NodeView, term: nat) -> bool {
    adopt_term(s, term).role == Role::Follower && adopt_term(s, term).voted_for is None
}

/// A candidate asked for a vote. A request of an earlier term, or of this
/// node itself, is ignored. Otherwise a follower that has not voted in the
/// term grants its vote, and in any case the election timer starts anew.
pub open spec fn receive_vote_request<T>(s: NodeView, term: nat, candidate: Peer) -> Outcome<T> {
    if candidate == Peer(s.id) || term < s.term {
        unchanged(s)
    } else {
        let adopted = adopt_term(s, term);
        let voted = if grants_vote(s, term) {
            NodeView { voted_for: Some(candidate), ..adopted }
        } else {
            adopted
        };
        let armed = replace_election_task::<T>(voted, Some(election_timer(s)));
        Outcome {
            state: armed.state,
            effects: (if grants_vote(s, term) {
                seq![
                    post(
                        s,
                        MessageView::VoteResponse { term, candidate, follower: Peer(s.id) },
                        Recipient::Peer(candidate),
                    ),
                ]
            } else {
                Seq::empty()
            }) + armed.effects,
        }
    }
}

/// Whether a heartbeat of `term` makes the node give up its candidacy.
pub open spec fn concedes(s: NodeView, term: nat) -> bool {
    s.role == Role::Candidate && term >= s.term
}

/// A heartbeat arrived. A leader ignores it. A candidate concedes to a
/// heartbeat of a term not below its own; a follower adopts a later term.
/// Both start their election timer anew.
pub open spec fn receive_heartbeat<T>(s: NodeView, term: nat) -> Outcome<T> {
    match s.role {
        Role::Leader => unchanged(s),
        Role::Candidate => {
            let heard = if term >= s.term {
                NodeView { role: Role::Follower, voted_for: None, votes: Set::empty(), ..s }
            } else {
                s
            };
            let armed = replace_election_task::<T>(heard, Some(election_timer(s)));
            Outcome {
                state: armed.state,
                effects: armed.effects + role_notice(s.role, armed.state),
            }
        },
        Role::Follower => {
            let heard = if term > s.term {
                NodeView { term, voted_for: None, ..s }
            } else {
                s
            };
            replace_election_task(heard, Some(election_timer(s)))
        },
    }
}

/// Whether the node takes an envelope up: it listens, the envelope is not
/// its own, and it is addressed to everyone or to this node.
pub open spec fn accepts<T>(s: NodeView, envelope: EnvelopeView<T>) -> bool {
    &&& s.listening
    &&& envelope.from != Peer(s.id)
    &&& envelope.to matches Recipient::Peer(to) ==> to == Peer(s.id)
}

/// The bus delivered an envelope: unless it is dropped, its message goes
/// to the transition that is meant for it.
pub open spec fn on_message<T>(s: NodeView, envelope: EnvelopeView<T>) -> Outcome<T> {
    if !accepts(s, envelope) {
        unchanged(s)
    } else {
        match envelope.msg {
            MessageView::PeerAdded => add_peer(s, envelope.from),
            MessageView::PeerRemoved => remove_peer(s, envelope.from),
            MessageView::PeerSet(peers) => reconcile_peers(s, peers),
            MessageView::Heartbeat { term } => receive_heartbeat(s, term),
            MessageView::VoteRequest { term, candidate } => receive_vote_request(
                s,
                term,
                candidate,
            ),
            MessageView::VoteResponse { term, candidate, follower } => {
                if candidate == Peer(s.id) {
                    receive_vote(s, term, follower)
                } else {
                    unchanged(s)
                }
            },
            MessageView::Payload(payload) => Outcome {
                state: s,
                effects: seq![EffectView::Received(payload)],
            },
        }
    }
}

/// The election timer ran out. A timer that is no longer in its slot has
/// been cancelled and changes nothing.
pub open spec fn on_election_timeout<T>(s: NodeView) -> Outcome<T> {
    if s.election_task is None {
        unchanged(s)
    } else {
        start_election(s)
    }
}

/// The heartbeat timer ran out. A timer that is no longer in its slot has
/// been cancelled and changes nothing.
pub open spec fn on_heartbeat_timeout<T>(s: NodeView) -> Outcome<T> {
    if s.heartbeat_task is None {
        unchanged(s)
    } else {
        send_heartbeat(s)
    }
}

/// The application asks to broadcast a value: only a leader does.
pub open spec fn issue<T>(s: NodeView, payload: T) -> Outcome<T> {
    if s.role == Role::Leader {
        Outcome {
            state: s,
            effects: seq![post(s, MessageView::Payload(payload), Recipient::Everyone)],
        }
    } else {
        unchanged(s)
    }
}

/// The node stops: both timers are cancelled and the bus subscription is
/// removed. The host hears only of what was there.
pub open spec fn stop<T>(s: NodeView) -> Outcome<T> {
    let election = replace_election_task::<T>(s, None);
    let heartbeat = replace_heartbeat_task::<T>(election.state, None);
    Outcome {
        state: NodeView { listening: false, ..heartbeat.state },
        effects: election.effects + heartbeat.effects + (if s.listening {
            seq![EffectView::Unlisten]
        } else {
            Seq::empty()
        }),
    }
}

/// The node leaves for good: it stops and tells everyone that it is gone.
pub open spec fn shutdown<T>(s: NodeView) -> Outcome<T> {
    let stopped = stop::<T>(s);
    Outcome {
        state: stopped.state,
        effects: stopped.effects + seq![post(s, MessageView::PeerRemoved, Recipient::Everyone)],
    }
}

/// One step of a node: the transition that belongs to the event.
pub open spec fn step<T>(s: NodeView, event: EventView<T>) -> Outcome<T> {
    match event {
        EventView::Delivery(envelope) => on_message(s, envelope),
        EventView::ElectionTimeout => on_election_timeout(s),
        EventView::HeartbeatTimeout => on_heartbeat_timeout(s),
        EventView::Issue(payload) => issue(s, payload),
        EventView::Stop => stop(s),
    }
}

} // verus!
