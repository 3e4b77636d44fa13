//! What a node asks of its host after a step: envelopes to post, timers to
//! arm or cancel, the bus listener to install or remove, and user callbacks
//! to invoke.

use crate::peer::Role;
use crate::rpc::{EnvelopeView, MessageWrapper};
use vstd::prelude::*;

verus! {

/// A single-shot timer that fires `delay_ms` milliseconds after it is armed.
#[derive(Debug, Clone, Copy, PartialEq, Eq, Structural)]
pub struct Timer {
    pub delay_ms: u32,
}

/// One request of a node to its host. The host carries the requests of a
/// step out in the order in which they are listed.
#[derive(Debug, Clone, PartialEq)]
pub enum Effect<T> {
    /// Subscribe to the bus.
    Listen,
    /// Remove the bus subscription.
    Unlisten,
    /// Post the envelope on the bus.
    Send(MessageWrapper<T>),
    /// Put the given timer into the election slot, or empty the slot; the
    /// timer that was in the slot is cancelled.
    ElectionTimer(Option<Timer>),
    /// Put the given timer into the heartbeat slot, or empty the slot; the
    /// timer that was in the slot is cancelled.
    HeartbeatTimer(Option<Timer>),
    /// Tell the user that the node now has this role.
    RoleChange(Role),
    /// Hand an application value to the user.
    Received(T),
}

/// The mathematical value of an [`Effect`].
pub enum EffectView<T> {
    Listen,
    Unlisten,
    Send(EnvelopeView<T>),
    ElectionTimer(Option<Timer>),
    HeartbeatTimer(Option<Timer>),
    RoleChange(Role),
    Received(T),
}

impl<T> View for Effect<T> {
    type V = EffectView<T>;

    open spec fn view(&self) -> EffectView<T> {
        match *self {
            Effect::Listen => EffectView::Listen,
            Effect::Unlisten => EffectView::Unlisten,
            Effect::Send(envelope) => EffectView::Send(envelope@),
            Effect::ElectionTimer(timer) => EffectView::ElectionTimer(timer),
            Effect::HeartbeatTimer(timer) => EffectView::HeartbeatTimer(timer),
            Effect::RoleChange(role) => EffectView::RoleChange(role),
            Effect::Received(payload) => EffectView::Received(payload),
        }
    }
}

/// The mathematical value of a list of effects, item by item.
pub open spec fn effects_view<T>(effects: Seq<Effect<T>>) -> Seq<EffectView<T>> {
    effects.map_values(|effect: Effect<T>| effect@)
}

} // verus!
