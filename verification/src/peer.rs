//! Peer identity and the three roles of the election protocol.

use vstd::prelude::*;

verus! {

/// The role a node currently plays in the election protocol.
#[derive(Clone, Copy, PartialEq, Eq, Debug, Hash, Structural)]
pub enum Role {
    Follower,
    Candidate,
    Leader,
}

/// The printed name of a role.
pub open spec fn role_name(role: Role) -> Seq<char> {
    match role {
        Role::Follower => "Follower"@,
        Role::Candidate => "Candidate"@,
        Role::Leader => "Leader"@,
    }
}

impl Role {
    /// The printed name of this role.
    pub fn as_str(&self) -> (name: &'static str)
        ensures
            name@ == role_name(*self),
    {
        match self {
            Role::Follower => "Follower",
            Role::Candidate => "Candidate",
            Role::Leader => "Leader",
        }
    }
}

impl Default for Role {
    /// Every node starts out as a follower.
    fn default() -> (role: Role)
        ensures
            role == Role::Follower,
    {
        Role::Follower
    }
}

/// A participant on the bus, identified by a number. Two peers are the same
/// participant exactly when their identifiers are equal, and peers are
/// ordered by identifier.
#[derive(Debug, Clone, Copy, PartialEq, Eq, Hash, PartialOrd, Ord, Structural)]
pub struct Peer(pub u32);

impl Peer {
    /// The peer with the given identifier.
    pub fn new(id: u32) -> (peer: Peer)
        ensures
            peer == Peer(id),
    {
        Peer(id)
    }

    /// The identifier of this peer.
    pub fn id(&self) -> (id: u32)
        ensures
            id == self.0,
    {
        self.0
    }
}

} // verus!
