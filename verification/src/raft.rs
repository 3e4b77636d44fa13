//! The election: membership, timeouts, votes and heartbeats.

use crate::effect::{effects_view, Effect, Timer};
use crate::model;
use crate::node::{no_effects, push_effect, Node};
use crate::peer::{Peer, Role};
use crate::rpc::{Message, Recipient};
use crate::sets::{copy_set, none_below};
use std::collections::HashSet;
use vstd::prelude::*;

verus! {

impl<T> Node<T> {
    /// This node as a peer.
    pub fn peer(&self) -> (peer: Peer)
        ensures
            peer == Peer(self.id),
    {
        Peer(self.id)
    }

    /// Whether `peer` is this node.
    pub fn is(&self, peer: &Peer) -> (same: bool)
        ensures
            same == (*peer == Peer(self.id)),
    {
        peer.id() == self.id
    }

    /// A peer announced itself: it joins the peer set, and a leader answers
    /// with the whole set, so that a late joiner learns of everyone.
    pub fn add_peer(&mut self, peer: Peer) -> (effects: Vec<Effect<T>>)
        ensures
            old(self).becomes(final(self), model::add_peer::<T>(old(self)@, peer).state),
            effects_view(effects@) == model::add_peer::<T>(old(self)@, peer).effects,
    {
        let mut effects = no_effects();
        self.state.peers.insert(peer.id());
        if self.state.role == Role::Leader {
            let peers = copy_set(&self.state.peers);
            let envelope = self.send(Message::PeerSet(peers), Recipient::Everyone);
            push_effect(&mut effects, Effect::Send(envelope));
        }
        proof {
            assert(effects_view(effects@) =~= model::add_peer::<T>(old(self)@, peer).effects);
        }
        effects
    }

    /// A peer left: it leaves the peer set. Nothing is sent.
    pub fn remove_peer(&mut self, peer: Peer)
        ensures
            old(self).becomes(final(self), model::remove_peer::<T>(old(self)@, peer).state),
    {
        broadcast use vstd::std_specs::hash::group_hash_axioms;

        let id = peer.id();
        self.state.peers.remove(&id);
    }

    /// The leader sent its peer set: it replaces the one of this node. This
    /// node stays in its own set, whether the leader listed it or not.
    pub fn reconcile_peers(&mut self, peers: HashSet<u32>)
        ensures
            old(self).becomes(final(self), model::reconcile_peers::<T>(old(self)@, peers@).state),
    {
        self.state.peers = peers;
        self.state.peers.insert(self.id);
    }

    /// The timer that runs out when no heartbeat came for the election
    /// timeout of this node.
    pub fn new_election_task(&self) -> (timer: Timer)
        ensures
            timer == model::election_timer(self@),
    {
        Timer { delay_ms: self.election_timeout_ms }
    }

    /// The timer that runs out when the next heartbeat is due.
    pub fn new_heartbeat_task(&self) -> (timer: Timer)
        ensures
            timer == model::heartbeat_timer(self@),
    {
        Timer { delay_ms: self.heartbeat_timeout_ms }
    }

    /// Sends a heartbeat and arms the next one, adding to `effects`.
    fn beat(&mut self, effects: &mut Vec<Effect<T>>)
        ensures
            old(self).becomes(final(self), model::send_heartbeat::<T>(old(self)@).state),
            effects_view(final(effects)@) == effects_view(old(effects)@) + model::send_heartbeat::<
                T,
            >(old(self)@).effects,
    {
        let envelope = self.send(
            Message::Heartbeat { term: self.state.term },
            Recipient::Everyone,
        );
        push_effect(effects, Effect::Send(envelope));
        let timer = self.new_heartbeat_task();
        self.arm_heartbeat(Some(timer), effects);
        proof {
            assert(effects_view(effects@) =~= effects_view(old(effects)@) + model::send_heartbeat::<
                T,
            >(old(self)@).effects);
        }
    }

    /// The leader tells everyone that it is alive, and arms the timer for
    /// its next heartbeat.
    pub fn send_heartbeat(&mut self) -> (effects: Vec<Effect<T>>)
        ensures
            old(self).becomes(final(self), model::send_heartbeat::<T>(old(self)@).state),
            effects_view(effects@) == model::send_heartbeat::<T>(old(self)@).effects,
    {
        let mut effects = no_effects();
        self.beat(&mut effects);
        proof {
            assert(effects_view(effects@) =~= model::send_heartbeat::<T>(old(self)@).effects);
        }
        effects
    }

    /// The node wins the election: it becomes leader, forgets the votes of
    /// the election, gives up its election timer and sends its first
    /// heartbeat. The user hears of the new role unless the node was leader
    /// already.
    pub fn win_election(&mut self) -> (effects: Vec<Effect<T>>)
        ensures
            old(self).becomes(final(self), model::win_election::<T>(old(self)@).state),
            effects_view(effects@) == model::win_election::<T>(old(self)@).effects,
    {
        let before = self.state.role;
        let mut effects = no_effects();
        self.arm_election(None, &mut effects);
        self.state.role = Role::Leader;
        self.state.voted_for = None;
        self.state.votes.clear();
        self.beat(&mut effects);
        self.notice_role(before, &mut effects);
        proof {
            assert(effects_view(effects@) =~= model::win_election::<T>(old(self)@).effects);
        }
        effects
    }

    /// The node stands for election in the next term.
    fn campaign(&mut self) -> (effects: Vec<Effect<T>>)
        requires
            old(self)@.term < u32::MAX,
        ensures
            old(self).becomes(final(self), model::campaign::<T>(old(self)@).state),
            effects_view(effects@) == model::campaign::<T>(old(self)@).effects,
    {
        let before = self.state.role;
        let candidate = self.peer();
        let mut effects = no_effects();
        self.state.role = Role::Candidate;
        self.state.term = self.state.term + 1;
        self.state.votes.clear();
        self.state.votes.insert(self.id);
        self.state.voted_for = Some(candidate);
        let timer = self.new_election_task();
        self.arm_election(Some(timer), &mut effects);
        let envelope = self.send(
            Message::VoteRequest { term: self.state.term, candidate },
            Recipient::Everyone,
        );
        push_effect(&mut effects, Effect::Send(envelope));
        self.notice_role(before, &mut effects);
        proof {
            assert(effects_view(effects@) =~= model::campaign::<T>(old(self)@).effects);
        }
        effects
    }

    /// Whether this node has the lowest identifier among the peers it
    /// knows.
    pub fn is_lowest(&self) -> (lowest: bool)
        ensures
            lowest == model::is_lowest(self@),
    {
        broadcast use vstd::std_specs::hash::group_hash_axioms;

        self.state.peers.contains(&self.id) && none_below(&self.state.peers, self.id)
    }

    /// No heartbeat came in time. A node that knows only itself wins at
    /// once. Of two nodes the one with the lower identifier wins, and the
    /// other arms its election timer again. Among three or more the node
    /// becomes a candidate of the next term, votes for itself, arms a new
    /// election timer and asks everyone for their vote.
    pub fn start_election(&mut self) -> (effects: Vec<Effect<T>>)
        requires
            model::campaigns(old(self)@) ==> old(self)@.term < u32::MAX,
        ensures
            old(self).becomes(final(self), model::start_election::<T>(old(self)@).state),
            effects_view(effects@) == model::start_election::<T>(old(self)@).effects,
    {
        broadcast use vstd::std_specs::hash::group_hash_axioms;

        let known = self.state.peers.len();
        if known == 1 {
            self.win_election()
        } else if known == 2 {
            if self.is_lowest() {
                self.win_election()
            } else {
                let mut effects = no_effects();
                let timer = self.new_election_task();
                self.arm_election(Some(timer), &mut effects);
                proof {
                    assert(effects_view(effects@) =~= model::start_election::<T>(
                        old(self)@,
                    ).effects);
                }
                effects
            }
        } else {
            self.campaign()
        }
    }

    /// A vote arrived from `follower`. Only a candidate counts it, and only
    /// if it is not of an earlier term. With the votes of more than half of
    /// the peers it knows, the candidate wins the election.
    pub fn receive_vote(&mut self, term: u32, follower: Peer) -> (effects: Vec<Effect<T>>)
        ensures
            old(self).becomes(
                final(self),
                model::receive_vote::<T>(old(self)@, term as nat, follower).state,
            ),
            effects_view(effects@) == model::receive_vote::<T>(
                old(self)@,
                term as nat,
                follower,
            ).effects,
    {
        broadcast use vstd::std_specs::hash::group_hash_axioms;

        if self.state.role != Role::Candidate || term < self.state.term {
            return no_effects();
        }
        self.state.votes.insert(follower.id());
        if self.state.votes.len() > self.state.peers.len() / 2 {
            self.win_election()
        } else {
            no_effects()
        }
    }

    /// A candidate asked for a vote in `term`. A request of an earlier
    /// term, or of this node itself, is ignored. A later term is adopted,
    /// which frees the vote. A follower that has not voted in the term
    /// grants its vote and says so to the candidate alone. Granted or not,
    /// the election timer starts anew.
    pub fn receive_vote_request(&mut self, term: u32, candidate: Peer) -> (effects: Vec<Effect<T>>)
        ensures
            old(self).becomes(
                final(self),
                model::receive_vote_request::<T>(old(self)@, term as nat, candidate).state,
            ),
            effects_view(effects@) == model::receive_vote_request::<T>(
                old(self)@,
                term as nat,
                candidate,
            ).effects,
    {
        let mut effects = no_effects();
        if self.is(&candidate) || term < self.state.term {
            return effects;
        }
        if term > self.state.term {
            self.state.term = term;
            self.state.voted_for = None;
            self.state.votes.clear();
        }
        if self.state.role == Role::Follower && self.state.voted_for.is_none() {
            self.state.voted_for = Some(candidate);
            let envelope = self.send(
                Message::VoteResponse { term, candidate, follower: self.peer() },
                Recipient::Peer(candidate),
            );
            push_effect(&mut effects, Effect::Send(envelope));
        }
        let timer = self.new_election_task();
        self.arm_election(Some(timer), &mut effects);
        proof {
            assert(effects_view(effects@) =~= model::receive_vote_request::<T>(
                old(self)@,
                term as nat,
                candidate,
            ).effects);
        }
        effects
    }

    /// A heartbeat of `term` arrived. A leader ignores it. A candidate
    /// gives up its candidacy if the term is not below its own, and the
    /// user hears that it is a follower again. A follower adopts a later
    /// term, which frees its vote. Candidate and follower start their
    /// election timer anew.
    pub fn receive_heartbeat(&mut self, term: u32, leader: &Peer) -> (effects: Vec<Effect<T>>)
        ensures
            old(self).becomes(
                final(self),
                model::receive_heartbeat::<T>(old(self)@, term as nat).state,
            ),
            effects_view(effects@) == model::receive_heartbeat::<T>(
                old(self)@,
                term as nat,
            ).effects,
    {
        let before = self.state.role;
        let mut effects = no_effects();
        match self.state.role {
            Role::Leader => {
                return effects;
            },
            Role::Candidate => {
                if term >= self.state.term {
                    self.state.role = Role::Follower;
                    self.state.voted_for = None;
                    self.state.votes.clear();
                }
            },
            Role::Follower => {
                if term > self.state.term {
                    self.state.term = term;
                    self.state.voted_for = None;
                }
            },
        }
        let timer = self.new_election_task();
        self.arm_election(Some(timer), &mut effects);
        self.notice_role(before, &mut effects);
        proof {
            assert(effects_view(effects@) =~= model::receive_heartbeat::<T>(
                old(self)@,
                term as nat,
            ).effects);
        }
        effects
    }

    /// The election timer ran out. If the slot holds no timer, the one
    /// that ran out had been cancelled, and nothing happens. Otherwise the
    /// node starts an election.
    pub fn on_election_timeout(&mut self) -> (effects: Vec<Effect<T>>)
        requires
            old(self)@.election_task is Some && model::campaigns(old(self)@) ==> old(self)@.term
                < u32::MAX,
        ensures
            old(self).becomes(final(self), model::on_election_timeout::<T>(old(self)@).state),
            effects_view(effects@) == model::on_election_timeout::<T>(old(self)@).effects,
    {
        if self.state.election_task.is_none() {
            no_effects()
        } else {
            self.start_election()
        }
    }

    /// The heartbeat timer ran out. If the slot holds no timer, the one
    /// that ran out had been cancelled, and nothing happens. Otherwise the
    /// node sends its heartbeat.
    pub fn on_heartbeat_timeout(&mut self) -> (effects: Vec<Effect<T>>)
        ensures
            old(self).becomes(final(self), model::on_heartbeat_timeout::<T>(old(self)@).state),
            effects_view(effects@) == model::on_heartbeat_timeout::<T>(old(self)@).effects,
    {
        if self.state.heartbeat_task.is_none() {
            no_effects()
        } else {
            self.send_heartbeat()
        }
    }
}

} // verus!
