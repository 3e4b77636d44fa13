//! A node of the election protocol: its configuration, its state, the
//! callbacks of its user, and what the application may ask of it.

use crate::callback::Callbacks;
use crate::effect::{effects_view, Effect, Timer};
use crate::laws::{lemma_node_knows_itself, lemma_term_never_falls};
use crate::model;
use crate::model::NodeView;
use crate::peer::Role;
use crate::rpc::{Message, MessageWrapper, Recipient};
use crate::sets::copy_set;
use crate::state::NodeState;
use std::collections::HashSet;
use vstd::prelude::*;

verus! {

/// A node. Every step takes the node from one state to the next and hands
/// back what the host has to do: the node itself posts nothing and arms no
/// timer.
#[verifier::reject_recursive_types(T)]
pub struct Node<T> {
    /// The identifier of this node.
    pub id: u32,
    /// After how many milliseconds without a heartbeat the node acts.
    pub election_timeout_ms: u32,
    /// How many milliseconds lie between two heartbeats of a leader.
    pub heartbeat_timeout_ms: u32,
    /// The name of the bus.
    pub channel: String,
    /// The state of the protocol.
    pub state: NodeState,
    /// The callbacks of the user.
    pub callbacks: Callbacks<T>,
}

/// What arrives at a node.
#[derive(Debug, PartialEq)]
pub enum Event<T> {
    /// The bus delivered an envelope.
    Delivery(MessageWrapper<T>),
    /// The election timer ran out.
    ElectionTimeout,
    /// The heartbeat timer ran out.
    HeartbeatTimeout,
    /// The application asks to broadcast a value.
    Issue(T),
    /// The application asks the node to stop.
    Stop,
}

impl<T> View for Event<T> {
    type V = model::EventView<T>;

    open spec fn view(&self) -> model::EventView<T> {
        match *self {
            Event::Delivery(envelope) => model::EventView::Delivery(envelope@),
            Event::ElectionTimeout => model::EventView::ElectionTimeout,
            Event::HeartbeatTimeout => model::EventView::HeartbeatTimeout,
            Event::Issue(payload) => model::EventView::Issue(payload),
            Event::Stop => model::EventView::Stop,
        }
    }
}

impl<T> View for Node<T> {
    type V = NodeView;

    open spec fn view(&self) -> NodeView {
        NodeView {
            id: self.id,
            election_timeout_ms: self.election_timeout_ms,
            heartbeat_timeout_ms: self.heartbeat_timeout_ms,
            channel: self.channel@,
            role: self.state.role,
            term: self.state.term as nat,
            voted_for: self.state.voted_for,
            votes: self.state.votes@,
            peers: self.state.peers@,
            election_task: self.state.election_task,
            heartbeat_task: self.state.heartbeat_task,
            listening: self.state.listening,
        }
    }
}

/// Appends `effect` to `effects`.
pub(crate) fn push_effect<T>(effects: &mut Vec<Effect<T>>, effect: Effect<T>)
    ensures
        effects_view(final(effects)@) == effects_view(old(effects)@).push(effect@),
{
    effects.push(effect);
    assert(effects_view(effects@) =~= effects_view(old(effects)@).push(effect@));
}

/// An empty list of effects.
pub(crate) fn no_effects<T>() -> (effects: Vec<Effect<T>>)
    ensures
        effects_view(effects@) == Seq::<crate::effect::EffectView<T>>::empty(),
{
    let effects = Vec::new();
    assert(effects_view::<T>(effects@) =~= Seq::empty());
    effects
}

impl<T> Node<T> {
    /// Whether `next` is this node in the state `state`: its callbacks are
    /// those of this node.
    pub open spec fn becomes(&self, next: &Self, state: NodeView) -> bool {
        next@ == state && next.callbacks == self.callbacks
    }

    /// A node that has just been built: a follower in term 0 that knows
    /// only itself, with the election timer armed. The effects subscribe
    /// it to the bus, arm the timer and announce the node.
    pub(crate) fn start(
        id: u32,
        election_timeout_ms: u32,
        heartbeat_timeout_ms: u32,
        channel: String,
        callbacks: Callbacks<T>,
    ) -> (started: (Node<T>, Vec<Effect<T>>))
        ensures
            started.0@ == model::initial(
                id,
                election_timeout_ms,
                heartbeat_timeout_ms,
                channel@,
            ),
            started.0.callbacks == callbacks,
            effects_view(started.1@) == model::start_effects::<T>(started.0@),
    {
        let mut state = NodeState::default();
        let timer = Timer { delay_ms: election_timeout_ms };
        state.election_task = Some(timer);
        state.listening = true;
        state.peers.insert(id);
        let node = Node {
            id,
            election_timeout_ms,
            heartbeat_timeout_ms,
            channel,
            state,
            callbacks,
        };
        let mut effects = no_effects();
        push_effect(&mut effects, Effect::Listen);
        push_effect(&mut effects, Effect::ElectionTimer(Some(timer)));
        let announcement = node.send(Message::PeerAdded, Recipient::Everyone);
        push_effect(&mut effects, Effect::Send(announcement));
        proof {
            assert(effects_view(effects@) =~= model::start_effects::<T>(node@));
        }
        (node, effects)
    }

    /// Puts `new_task` into the election slot and records what the host has
    /// to do about it.
    pub(crate) fn arm_election(&mut self, new_task: Option<Timer>, effects: &mut Vec<Effect<T>>)
        ensures
            old(self).becomes(
                final(self),
                model::replace_election_task::<T>(old(self)@, new_task).state,
            ),
            effects_view(final(effects)@) == effects_view(old(effects)@)
                + model::replace_election_task::<T>(old(self)@, new_task).effects,
    {
        let cancelled = self.state.replace_election_task(new_task);
        if new_task.is_some() || cancelled.is_some() {
            push_effect(effects, Effect::ElectionTimer(new_task));
        }
        proof {
            assert(effects_view(effects@) =~= effects_view(old(effects)@)
                + model::replace_election_task::<T>(old(self)@, new_task).effects);
        }
    }

    /// Puts `new_task` into the heartbeat slot and records what the host
    /// has to do about it.
    pub(crate) fn arm_heartbeat(&mut self, new_task: Option<Timer>, effects: &mut Vec<Effect<T>>)
        ensures
            old(self).becomes(
                final(self),
                model::replace_heartbeat_task::<T>(old(self)@, new_task).state,
            ),
            effects_view(final(effects)@) == effects_view(old(effects)@)
                + model::replace_heartbeat_task::<T>(old(self)@, new_task).effects,
    {
        let cancelled = self.state.replace_heartbeat_task(new_task);
        if new_task.is_some() || cancelled.is_some() {
            push_effect(effects, Effect::HeartbeatTimer(new_task));
        }
        proof {
            assert(effects_view(effects@) =~= effects_view(old(effects)@)
                + model::replace_heartbeat_task::<T>(old(self)@, new_task).effects);
        }
    }

    /// Records the notice of the new role, if the role is no longer
    /// `before`.
    pub(crate) fn notice_role(&self, before: Role, effects: &mut Vec<Effect<T>>)
        ensures
            effects_view(final(effects)@) == effects_view(old(effects)@) + model::role_notice::<T>(
                before,
                self@,
            ),
    {
        if self.state.role != before {
            push_effect(effects, Effect::RoleChange(self.state.role));
        }
        proof {
            assert(effects_view(effects@) =~= effects_view(old(effects)@) + model::role_notice::<T>(
                before,
                self@,
            ));
        }
    }

    /// The role the node plays now.
    pub fn role(&self) -> (role: Role)
        ensures
            role == self@.role,
    {
        self.state.role
    }

    /// The current term of the node.
    pub fn term(&self) -> (term: u32)
        ensures
            term == self@.term,
    {
        self.state.term
    }

    /// The identifiers of the peers that the node knows now, itself
    /// included.
    pub fn peers(&self) -> (peers: HashSet<u32>)
        ensures
            peers@ == self@.peers,
    {
        copy_set(&self.state.peers)
    }

    /// Broadcasts an application value, if this node is the leader; any
    /// other node drops the value.
    pub fn issue(&self, payload: T) -> (effects: Vec<Effect<T>>)
        ensures
            effects_view(effects@) == model::issue(self@, payload).effects,
    {
        let mut effects = no_effects();
        if self.state.role == Role::Leader {
            let envelope = self.send(Message::Payload(payload), Recipient::Everyone);
            push_effect(&mut effects, Effect::Send(envelope));
        }
        proof {
            assert(effects_view(effects@) =~= model::issue(self@, payload).effects);
        }
        effects
    }

    /// Stops the node: both timers are cancelled and the bus subscription
    /// is removed. A node that was stopped already is left as it is and
    /// asks for nothing.
    pub fn stop(&mut self) -> (effects: Vec<Effect<T>>)
        ensures
            old(self).becomes(final(self), model::stop::<T>(old(self)@).state),
            effects_view(effects@) == model::stop::<T>(old(self)@).effects,
    {
        let mut effects = no_effects();
        self.arm_election(None, &mut effects);
        self.arm_heartbeat(None, &mut effects);
        if self.state.listening {
            self.state.listening = false;
            push_effect(&mut effects, Effect::Unlisten);
        }
        proof {
            assert(effects_view(effects@) =~= model::stop::<T>(old(self)@).effects);
        }
        effects
    }

    /// Stops the node for good and tells everyone that it is gone.
    pub fn shutdown(&mut self) -> (effects: Vec<Effect<T>>)
        ensures
            old(self).becomes(final(self), model::shutdown::<T>(old(self)@).state),
            effects_view(effects@) == model::shutdown::<T>(old(self)@).effects,
    {
        let mut effects = self.stop();
        let farewell = self.send(Message::PeerRemoved, Recipient::Everyone);
        push_effect(&mut effects, Effect::Send(farewell));
        effects
    }

    /// One step of the node: the transition that belongs to `event`. The
    /// term of the node does not fall, and a node that counts itself among
    /// its peers still does so afterwards.
    pub fn handle(&mut self, event: Event<T>) -> (effects: Vec<Effect<T>>)
        requires
            event is ElectionTimeout && old(self)@.election_task is Some && model::campaigns(
                old(self)@,
            ) ==> old(self)@.term < u32::MAX,
        ensures
            old(self).becomes(final(self), model::step(old(self)@, event@).state),
            effects_view(effects@) == model::step(old(self)@, event@).effects,
            final(self)@.term >= old(self)@.term,
            old(self)@.peers.contains(old(self)@.id) ==> final(self)@.peers.contains(
                final(self)@.id,
            ),
    {
        proof {
            lemma_term_never_falls(self@, event@);
            if self@.peers.contains(self@.id) {
                lemma_node_knows_itself(self@, event@);
            }
        }
        match event {
            Event::Delivery(envelope) => self.on_message(envelope),
            Event::ElectionTimeout => self.on_election_timeout(),
            Event::HeartbeatTimeout => self.on_heartbeat_timeout(),
            Event::Issue(payload) => self.issue(payload),
            Event::Stop => self.stop(),
        }
    }

    /// Hands an application value to the callback of the user, if there is
    /// one.
    pub fn call_on_received(&self, data: T)
        ensures
            self.callbacks.received(data),
    {
        self.callbacks.call_on_received(data)
    }

    /// Tells the callback of the user the new role, if there is one.
    pub fn call_on_role_change(&self, role: Role)
        ensures
            self.callbacks.role_changed(role),
    {
        self.callbacks.call_on_role_change(role)
    }
}

} // verus!
