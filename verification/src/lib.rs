//! Leader election among agents that share a broadcast bus.
//!
//! A [`Node`] is one participant. It decides and never acts: every step
//! takes an event (an envelope from the bus, a timer that ran out, a
//! request of the application), moves the node to its next state and hands
//! back the [`Effect`]s that the host has to carry out. The module
//! [`model`] states the protocol as mathematics, [`laws`] proves what holds
//! of every step of a node, and [`cluster`] what holds of the elections of
//! several nodes on one bus.

pub mod builder;
pub mod callback;
pub mod cluster;
pub mod effect;
pub mod entropy;
pub mod laws;
pub mod model;
pub mod node;
pub mod peer;
pub mod raft;
pub mod rpc;
pub mod sets;
pub mod state;

pub use builder::{ConfigError, NodeBuilder};
pub use effect::{Effect, Timer};
pub use node::{Event, Node};
pub use peer::{Peer, Role};
pub use rpc::{Message, MessageWrapper, Recipient};
pub use state::NodeState;
