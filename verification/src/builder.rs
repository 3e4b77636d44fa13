//! Configuring and building a node.

use crate::callback::Callbacks;
use crate::effect::{effects_view, Effect};
use crate::entropy::{draw, draw_between, open_rng};
use crate::model;
use crate::node::Node;
use crate::peer::Role;
use rand::rngs::OsRng;
use vstd::prelude::*;

verus! {

/// The heartbeat period of a leader, in milliseconds, unless one is set.
pub const DEFAULT_HEARTBEAT_MS: u32 = 50;

/// The lowest election timeout, in milliseconds, unless a range is set.
pub const DEFAULT_ELECTION_LOW_MS: u32 = 150;

/// The bound below which the election timeout stays, in milliseconds,
/// unless a range is set.
pub const DEFAULT_ELECTION_HIGH_MS: u32 = 300;

/// The name of the bus unless one is set.
pub open spec fn default_channel() -> Seq<char> {
    "raft-nodes"@
}

/// Why a node could not be built.
#[derive(Debug, Clone, Copy, PartialEq, Eq, Structural)]
pub enum ConfigError {
    /// The operating system gave no random number generator.
    Rng,
}

impl ConfigError {
    /// The error in words.
    pub fn message(&self) -> (text: &'static str)
        ensures
            text@ == "failed to create RNG"@,
    {
        "failed to create RNG"
    }
}

/// The options of a node, each of them unset at first.
#[verifier::reject_recursive_types(T)]
pub struct NodeBuilder<T> {
    /// A fixed election timeout.
    pub election_timeout_ms: Option<u32>,
    /// The range from which the election timeout is drawn, the lower bound
    /// first.
    pub election_timeout_ms_range: Option<(u32, u32)>,
    /// The heartbeat period.
    pub heartbeat_timeout_ms: Option<u32>,
    /// A fixed identifier.
    pub id: Option<u32>,
    /// The name of the bus.
    pub channel_name: Option<String>,
    /// The callbacks of the user.
    pub callbacks: Callbacks<T>,
}

/// The options of a node as plain values.
#[verifier::reject_recursive_types(T)]
pub struct BuilderView<T> {
    pub election_timeout_ms: Option<u32>,
    pub election_timeout_ms_range: Option<(u32, u32)>,
    pub heartbeat_timeout_ms: Option<u32>,
    pub id: Option<u32>,
    pub channel_name: Option<Seq<char>>,
    pub callbacks: Callbacks<T>,
}

impl<T> View for NodeBuilder<T> {
    type V = BuilderView<T>;

    open spec fn view(&self) -> BuilderView<T> {
        BuilderView {
            election_timeout_ms: self.election_timeout_ms,
            election_timeout_ms_range: self.election_timeout_ms_range,
            heartbeat_timeout_ms: self.heartbeat_timeout_ms,
            id: self.id,
            channel_name: match self.channel_name {
                Some(name) => Some(name@),
                None => None,
            },
            callbacks: self.callbacks,
        }
    }
}

impl<T> BuilderView<T> {
    /// The range of the election timeout, the lower bound first: the one
    /// that was set, or 150 to 300.
    pub open spec fn range(self) -> (u32, u32) {
        match self.election_timeout_ms_range {
            Some((a, b)) => if a <= b {
                (a, b)
            } else {
                (b, a)
            },
            None => (DEFAULT_ELECTION_LOW_MS, DEFAULT_ELECTION_HIGH_MS),
        }
    }

    /// Whether the election timeout has to be drawn at random: none is
    /// fixed, and the range holds more than its lower bound.
    pub open spec fn draws_timeout(self) -> bool {
        self.election_timeout_ms is None && self.range().0 < self.range().1
    }

    /// Whether building needs a random number at all.
    pub open spec fn needs_rng(self) -> bool {
        self.id is None || self.draws_timeout()
    }

    /// The identifier of the node, given the number that was drawn for it:
    /// the fixed one wins.
    pub open spec fn resolved_id(self, drawn: u32) -> u32 {
        match self.id {
            Some(id) => id,
            None => drawn,
        }
    }

    /// The election timeout of the node, given the number that was drawn
    /// for it: the fixed one wins, and a range that holds only its lower
    /// bound gives that bound.
    pub open spec fn resolved_timeout(self, drawn: u32) -> u32 {
        match self.election_timeout_ms {
            Some(ms) => ms,
            None => if self.range().0 < self.range().1 {
                drawn
            } else {
                self.range().0
            },
        }
    }

    /// Whether `ms` is an election timeout that these options allow: the
    /// fixed one, or else one that is in the range, the upper bound left
    /// out unless the bounds are equal.
    pub open spec fn admits_timeout(self, ms: u32) -> bool {
        match self.election_timeout_ms {
            Some(fixed) => ms == fixed,
            None => if self.range().0 < self.range().1 {
                self.range().0 <= ms < self.range().1
            } else {
                ms == self.range().0
            },
        }
    }

    /// The heartbeat period: the one that was set, or 50.
    pub open spec fn heartbeat(self) -> u32 {
        match self.heartbeat_timeout_ms {
            Some(ms) => ms,
            None => DEFAULT_HEARTBEAT_MS,
        }
    }

    /// The name of the bus: the one that was set, or `raft-nodes`.
    pub open spec fn channel(self) -> Seq<char> {
        match self.channel_name {
            Some(name) => name,
            None => default_channel(),
        }
    }

    /// The state in which a node with these options starts, given the
    /// numbers that were drawn for its identifier and its election timeout.
    pub open spec fn initial(self, drawn_id: u32, drawn_timeout: u32) -> model::NodeView {
        model::initial(
            self.resolved_id(drawn_id),
            self.resolved_timeout(drawn_timeout),
            self.heartbeat(),
            self.channel(),
        )
    }
}

impl<T> Default for NodeBuilder<T> {
    /// The builder with no option set and no callback.
    fn default() -> (builder: Self)
        ensures
            builder@.election_timeout_ms is None,
            builder@.election_timeout_ms_range is None,
            builder@.heartbeat_timeout_ms is None,
            builder@.id is None,
            builder@.channel_name is None,
            !builder@.callbacks.has_on_received(),
            !builder@.callbacks.has_on_role_change(),
    {
        NodeBuilder {
            election_timeout_ms: None,
            election_timeout_ms_range: None,
            heartbeat_timeout_ms: None,
            id: None,
            channel_name: None,
            callbacks: Callbacks::none(),
        }
    }
}

impl<T> NodeBuilder<T> {
    /// Fixes the election timeout, in milliseconds. A fixed timeout wins
    /// over a range, whichever is set first.
    pub fn election_timeout(self, ms: u32) -> (builder: Self)
        ensures
            builder@ == (BuilderView { election_timeout_ms: Some(ms), ..self@ }),
    {
        let mut builder = self;
        builder.election_timeout_ms = Some(ms);
        builder
    }

    /// Sets the range from which the election timeout is drawn, in
    /// milliseconds. The smaller of the two numbers is the lower bound.
    pub fn election_timeout_range(self, low_ms: u32, high_ms: u32) -> (builder: Self)
        ensures
            builder@ == (BuilderView {
                election_timeout_ms_range: Some(
                    if low_ms < high_ms {
                        (low_ms, high_ms)
                    } else {
                        (high_ms, low_ms)
                    },
                ),
                ..self@
            }),
            builder@.range().0 <= builder@.range().1,
            builder@.range().0 == low_ms || builder@.range().0 == high_ms,
            builder@.range().1 == low_ms || builder@.range().1 == high_ms,
    {
        let mut builder = self;
        if low_ms < high_ms {
            builder.election_timeout_ms_range = Some((low_ms, high_ms));
        } else {
            builder.election_timeout_ms_range = Some((high_ms, low_ms));
        }
        builder
    }

    /// Sets the heartbeat period of a leader, in milliseconds.
    pub fn heartbeat_timeout(self, ms: u32) -> (builder: Self)
        ensures
            builder@ == (BuilderView { heartbeat_timeout_ms: Some(ms), ..self@ }),
    {
        let mut builder = self;
        builder.heartbeat_timeout_ms = Some(ms);
        builder
    }

    /// Fixes the identifier of the node.
    pub fn id(self, id: u32) -> (builder: Self)
        ensures
            builder@ == (BuilderView { id: Some(id), ..self@ }),
    {
        let mut builder = self;
        builder.id = Some(id);
        builder
    }

    /// Sets the name of the bus that the node joins.
    pub fn channel(self, name: &str) -> (builder: Self)
        ensures
            builder@ == (BuilderView { channel_name: Some(name@), ..self@ }),
    {
        let mut builder = self;
        builder.channel_name = Some(name.to_owned());
        builder
    }

    /// Registers the callback that gets the application values which the
    /// leader broadcasts. The callback must accept every value.
    pub fn on_received<F>(self, callback: F) -> (builder: Self) where
        F: Fn(T) + 'static,
        T: 'static,

        requires
            forall|payload: T| call_requires(callback, (payload,)),
        ensures
            builder@ == (BuilderView { callbacks: builder@.callbacks, ..self@ }),
            builder@.callbacks.has_on_received(),
            builder@.callbacks.has_on_role_change() == self@.callbacks.has_on_role_change(),
            forall|payload: T| #[trigger]
                builder@.callbacks.received(payload) == call_ensures(callback, (payload,), ()),
            forall|role: Role| #[trigger]
                builder@.callbacks.role_changed(role) == self@.callbacks.role_changed(role),
    {
        let NodeBuilder {
            election_timeout_ms,
            election_timeout_ms_range,
            heartbeat_timeout_ms,
            id,
            channel_name,
            callbacks,
        } = self;
        NodeBuilder {
            election_timeout_ms,
            election_timeout_ms_range,
            heartbeat_timeout_ms,
            id,
            channel_name,
            callbacks: callbacks.with_on_received(callback),
        }
    }

    /// Registers the callback that hears of every change of role. The
    /// callback must accept every role.
    pub fn on_role_change<F>(self, callback: F) -> (builder: Self) where F: Fn(Role) + 'static
        requires
            forall|role: Role| call_requires(callback, (role,)),
        ensures
            builder@ == (BuilderView { callbacks: builder@.callbacks, ..self@ }),
            builder@.callbacks.has_on_role_change(),
            builder@.callbacks.has_on_received() == self@.callbacks.has_on_received(),
            forall|role: Role| #[trigger]
                builder@.callbacks.role_changed(role) == call_ensures(callback, (role,), ()),
            forall|payload: T| #[trigger]
                builder@.callbacks.received(payload) == self@.callbacks.received(payload),
    {
        let NodeBuilder {
            election_timeout_ms,
            election_timeout_ms_range,
            heartbeat_timeout_ms,
            id,
            channel_name,
            callbacks,
        } = self;
        NodeBuilder {
            election_timeout_ms,
            election_timeout_ms_range,
            heartbeat_timeout_ms,
            id,
            channel_name,
            callbacks: callbacks.with_on_role_change(callback),
        }
    }

    /// The range of the election timeout, the lower bound first.
    pub fn timeout_range(&self) -> (range: (u32, u32))
        ensures
            range == self@.range(),
    {
        match self.election_timeout_ms_range {
            Some((a, b)) => if a <= b {
                (a, b)
            } else {
                (b, a)
            },
            None => (DEFAULT_ELECTION_LOW_MS, DEFAULT_ELECTION_HIGH_MS),
        }
    }

    /// Builds the node from these options and from the two numbers that
    /// were drawn at random, one for the identifier and one for the election
    /// timeout. A number is used only where the options fix nothing: a
    /// fixed identifier and a fixed timeout win, and a range that holds
    /// only its lower bound gives that bound. The node starts as a follower
    /// in term 0 that knows only itself; the effects subscribe it to the
    /// bus, arm its election timer and announce it to everyone.
    pub fn build_with(self, drawn_id: u32, drawn_timeout: u32) -> (built: (
        Node<T>,
        Vec<Effect<T>>,
    ))
        ensures
            built.0@ == self@.initial(drawn_id, drawn_timeout),
            built.0.callbacks == self.callbacks,
            effects_view(built.1@) == model::start_effects::<T>(built.0@),
    {
        let (low, high) = self.timeout_range();
        let NodeBuilder {
            election_timeout_ms,
            election_timeout_ms_range,
            heartbeat_timeout_ms,
            id,
            channel_name,
            callbacks,
        } = self;
        let id = match id {
            Some(id) => id,
            None => drawn_id,
        };
        let election_timeout_ms = match election_timeout_ms {
            Some(ms) => ms,
            None => if low < high {
                drawn_timeout
            } else {
                low
            },
        };
        let heartbeat_timeout_ms = match heartbeat_timeout_ms {
            Some(ms) => ms,
            None => DEFAULT_HEARTBEAT_MS,
        };
        let channel = match channel_name {
            Some(name) => name,
            None => "raft-nodes".to_owned(),
        };
        Node::start(id, election_timeout_ms, heartbeat_timeout_ms, channel, callbacks)
    }

    /// Builds the node. An identifier that is not fixed is drawn at random,
    /// and so is an election timeout that is not fixed, from the range. The
    /// only failure is that a random number is needed and the operating
    /// system gives no generator.
    pub fn build(self) -> (built: Result<(Node<T>, Vec<Effect<T>>), ConfigError>)
        ensures
            !self@.needs_rng() ==> built is Ok,
            built matches Ok((node, effects)) ==> {
                &&& node@ == self@.initial(node@.id, node@.election_timeout_ms)
                &&& self@.admits_timeout(node@.election_timeout_ms)
                &&& node.callbacks == self.callbacks
                &&& effects_view(effects@) == model::start_effects::<T>(node@)
            },
            built matches Err(error) ==> error == ConfigError::Rng && self@.needs_rng(),
    {
        let mut rng: Option<OsRng> = None;
        let drawn_id = match self.id {
            Some(id) => id,
            None => match open_rng() {
                Ok(opened) => {
                    let mut opened = opened;
                    let drawn = draw(&mut opened);
                    rng = Some(opened);
                    drawn
                },
                Err(_) => {
                    return Err(ConfigError::Rng);
                },
            },
        };
        let (low, high) = self.timeout_range();
        let drawn_timeout = if self.election_timeout_ms.is_none() && low < high {
            let opened = match rng {
                Some(opened) => Ok(opened),
                None => open_rng(),
            };
            match opened {
                Ok(opened) => {
                    let mut opened = opened;
                    draw_between(&mut opened, low, high)
                },
                Err(_) => {
                    return Err(ConfigError::Rng);
                },
            }
        } else {
            low
        };
        Ok(self.build_with(drawn_id, drawn_timeout))
    }
}

impl<T> Node<T> {
    /// A builder with no option set.
    pub fn builder() -> (builder: NodeBuilder<T>)
        ensures
            builder@.election_timeout_ms is None,
            builder@.election_timeout_ms_range is None,
            builder@.heartbeat_timeout_ms is None,
            builder@.id is None,
            builder@.channel_name is None,
            !builder@.callbacks.has_on_received(),
            !builder@.callbacks.has_on_role_change(),
    {
        NodeBuilder::default()
    }
}

} // verus!
