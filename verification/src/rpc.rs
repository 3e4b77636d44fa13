//! The wire protocol: the family of messages that nodes exchange and the
//! envelope that addresses them.

use crate::effect::{effects_view, Effect};
use crate::model;
use crate::node::{no_effects, push_effect, Node};
use crate::peer::Peer;
use crate::sets::copy_set;
use std::collections::HashSet;
use vstd::prelude::*;

verus! {

/// To whom an envelope is addressed. The bus hands every envelope to every
/// other subscriber; the receiver drops what is addressed to someone else.
#[derive(Debug, Clone, Copy, PartialEq, Eq, Structural)]
pub enum Recipient {
    Everyone,
    Peer(Peer),
}

/// A protocol message. Peer sets travel as sets of peer identifiers.
#[derive(Debug, PartialEq)]
pub enum Message<T> {
    /// The sender announces its presence.
    PeerAdded,
    /// The sender is shutting down.
    PeerRemoved,
    /// The peer set as the current leader knows it.
    PeerSet(HashSet<u32>),
    /// A candidate asks for a vote in `term`.
    VoteRequest { term: u32, candidate: Peer },
    /// A follower grants `candidate` its vote in `term`.
    VoteResponse { term: u32, candidate: Peer, follower: Peer },
    /// The leader of `term` is alive.
    Heartbeat { term: u32 },
    /// An application value broadcast by the leader.
    Payload(T),
}

/// The mathematical value of a [`Message`]: terms are natural numbers and a
/// peer set is a set of identifiers.
pub enum MessageView<T> {
    PeerAdded,
    PeerRemoved,
    PeerSet(Set<u32>),
    VoteRequest { term: nat, candidate: Peer },
    VoteResponse { term: nat, candidate: Peer, follower: Peer },
    Heartbeat { term: nat },
    Payload(T),
}

impl<T> View for Message<T> {
    type V = MessageView<T>;

    open spec fn view(&self) -> MessageView<T> {
        match *self {
            Message::PeerAdded => MessageView::PeerAdded,
            Message::PeerRemoved => MessageView::PeerRemoved,
            Message::PeerSet(peers) => MessageView::PeerSet(peers@),
            Message::VoteRequest { term, candidate } => MessageView::VoteRequest {
                term: term as nat,
                candidate,
            },
            Message::VoteResponse { term, candidate, follower } => MessageView::VoteResponse {
                term: term as nat,
                candidate,
                follower,
            },
            Message::Heartbeat { term } => MessageView::Heartbeat { term: term as nat },
            Message::Payload(payload) => MessageView::Payload(payload),
        }
    }
}

impl<T: Clone> Clone for Message<T> {
    /// A copy of the message. Of a copied payload only what `T::clone`
    /// promises is known; every other message has the same value as its copy.
    fn clone(&self) -> (copy: Message<T>)
        ensures
            !(*self is Payload) ==> copy@ == self@,
            *self is Payload ==> copy is Payload,
    {
        match self {
            Message::PeerAdded => Message::PeerAdded,
            Message::PeerRemoved => Message::PeerRemoved,
            Message::PeerSet(peers) => Message::PeerSet(copy_set(peers)),
            Message::VoteRequest { term, candidate } => Message::VoteRequest {
                term: *term,
                candidate: *candidate,
            },
            Message::VoteResponse { term, candidate, follower } => Message::VoteResponse {
                term: *term,
                candidate: *candidate,
                follower: *follower,
            },
            Message::Heartbeat { term } => Message::Heartbeat { term: *term },
            Message::Payload(payload) => Message::Payload(payload.clone()),
        }
    }
}

/// An addressed message as it travels over the bus.
#[derive(Debug, PartialEq)]
pub struct MessageWrapper<T> {
    pub from: Peer,
    pub to: Recipient,
    pub msg: Message<T>,
}

/// The mathematical value of a [`MessageWrapper`].
pub struct EnvelopeView<T> {
    pub from: Peer,
    pub to: Recipient,
    pub msg: MessageView<T>,
}

impl<T> View for MessageWrapper<T> {
    type V = EnvelopeView<T>;

    open spec fn view(&self) -> EnvelopeView<T> {
        EnvelopeView { from: self.from, to: self.to, msg: self.msg@ }
    }
}

impl<T: Clone> Clone for MessageWrapper<T> {
    /// A copy of the envelope, with the same sender and the same address.
    fn clone(&self) -> (copy: MessageWrapper<T>)
        ensures
            copy.from == self.from,
            copy.to == self.to,
            !(self.msg is Payload) ==> copy@ == self@,
            self.msg is Payload ==> copy.msg is Payload,
    {
        MessageWrapper { from: self.from, to: self.to, msg: self.msg.clone() }
    }
}

impl<T> Node<T> {
    /// The envelope that carries `message` from this node to `to`.
    pub fn send(&self, message: Message<T>, to: Recipient) -> (envelope: MessageWrapper<T>)
        ensures
            envelope.from == Peer(self.id),
            envelope.to == to,
            envelope.msg == message,
    {
        MessageWrapper { from: Peer(self.id), to, msg: message }
    }

    /// Whether the node takes an envelope with this sender and this
    /// address up: it listens, the envelope is not its own, and it is
    /// addressed to everyone or to this node.
    pub fn accepts(&self, from: &Peer, to: &Recipient) -> (taken: bool)
        ensures
            taken == (self@.listening && *from != Peer(self.id) && (*to matches Recipient::Peer(
                addressee,
            ) ==> addressee == Peer(self.id))),
    {
        if !self.state.listening || self.is(from) {
            return false;
        }
        match to {
            Recipient::Everyone => true,
            Recipient::Peer(addressee) => self.is(addressee),
        }
    }

    /// The bus delivered an envelope. It is dropped if the node no longer
    /// listens, if it is the node's own, or if it is addressed to another
    /// peer. Otherwise its message decides: a peer joins or leaves, the
    /// peer set is replaced, a heartbeat, a vote request (of another node)
    /// or a vote (for this node) is taken up, and an application value goes
    /// to the user.
    pub fn on_message(&mut self, wrapper: MessageWrapper<T>) -> (effects: Vec<Effect<T>>)
        ensures
            old(self).becomes(final(self), model::on_message(old(self)@, wrapper@).state),
            effects_view(effects@) == model::on_message(old(self)@, wrapper@).effects,
    {
        let MessageWrapper { from, to, msg } = wrapper;
        if !self.accepts(&from, &to) {
            return no_effects();
        }
        match msg {
            Message::PeerAdded => self.add_peer(from),
            Message::PeerRemoved => {
                self.remove_peer(from);
                no_effects()
            },
            Message::PeerSet(peers) => {
                self.reconcile_peers(peers);
                no_effects()
            },
            Message::Heartbeat { term } => self.receive_heartbeat(term, &from),
            Message::VoteRequest { term, candidate } => self.receive_vote_request(term, candidate),
            Message::VoteResponse { term, candidate, follower } => {
                if self.is(&candidate) {
                    self.receive_vote(term, follower)
                } else {
                    no_effects()
                }
            },
            Message::Payload(payload) => {
                let mut effects = no_effects();
                push_effect(&mut effects, Effect::Received(payload));
                proof {
                    assert(effects_view(effects@) =~= model::on_message(
                        old(self)@,
                        wrapper@,
                    ).effects);
                }
                effects
            },
        }
    }
}

} // verus!
