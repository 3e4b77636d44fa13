//! The mutable state of a node.

use crate::effect::Timer;
use crate::peer::{Peer, Role};
use std::collections::HashSet;
use vstd::prelude::*;

verus! {

/// What a node remembers between two steps.
pub struct NodeState {
    /// The role the node plays.
    pub role: Role,
    /// The current term.
    pub term: u32,
    /// The candidate this node gave its vote to in the current term.
    pub voted_for: Option<Peer>,
    /// The peers that gave this node their vote in the current election.
    pub votes: HashSet<u32>,
    /// The peers known to exist, this node among them.
    pub peers: HashSet<u32>,
    /// The armed election timer.
    pub election_task: Option<Timer>,
    /// The armed heartbeat timer.
    pub heartbeat_task: Option<Timer>,
    /// Whether the node is subscribed to the bus.
    pub listening: bool,
}

impl Default for NodeState {
    /// A follower in term 0 that knows nobody, has no timer armed and does
    /// not listen yet.
    fn default() -> (state: NodeState)
        ensures
            state.role == Role::Follower,
            state.term == 0,
            state.voted_for is None,
            state.votes@ == Set::<u32>::empty(),
            state.peers@ == Set::<u32>::empty(),
            state.election_task is None,
            state.heartbeat_task is None,
            !state.listening,
    {
        NodeState {
            role: Role::Follower,
            term: 0,
            voted_for: None,
            votes: HashSet::new(),
            peers: HashSet::new(),
            election_task: None,
            heartbeat_task: None,
            listening: false,
        }
    }
}

impl NodeState {
    /// Puts `new_task` into the election slot, or empties the slot, and
    /// hands back the timer that was in it: the one to cancel.
    pub fn replace_election_task(&mut self, new_task: Option<Timer>) -> (cancelled: Option<Timer>)
        ensures
            cancelled == old(self).election_task,
            *final(self) == (NodeState { election_task: new_task, ..*old(self) }),
    {
        let old_task = self.election_task;
        self.election_task = new_task;
        old_task
    }

    /// Puts `new_task` into the heartbeat slot, or empties the slot, and
    /// hands back the timer that was in it: the one to cancel.
    pub fn replace_heartbeat_task(&mut self, new_task: Option<Timer>) -> (cancelled: Option<Timer>)
        ensures
            cancelled == old(self).heartbeat_task,
            *final(self) == (NodeState { heartbeat_task: new_task, ..*old(self) }),
    {
        let old_task = self.heartbeat_task;
        self.heartbeat_task = new_task;
        old_task
    }
}

} // verus!
