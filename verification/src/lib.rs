//! A small federation of donation "peer" actors coordinated by one "manager"
//! actor. The manager keeps a membership registry (which peer belongs to
//! which owner), drives an asynchronous peer-provisioning protocol, and
//! redistributes its pooled balance to peers in proportion to their donation
//! counts. Each peer counts qualifying donations, forwards a fixed ratio of
//! every donation upstream to the manager, and lets its owner withdraw the
//! retained balance.
//!
//! All state and funds are modelled as plain values: actors and denominations
//! are `u64` identifiers, amounts are `u64`, and a ratio is an explicit
//! fraction. The host runtime (storage, message dispatch, balance ledger) is
//! outside this crate; it hands these functions their inputs and carries out
//! the transfer instructions they return.

use vstd::prelude::*;

pub mod ratio;
pub mod funds;
pub mod peer;
pub mod manager;
pub mod distribution;
pub mod callback;
pub mod laws;

verus! {

/// Identifier of an actor (manager, peer, owner or donator) or of a
/// denomination, as assigned by the host runtime.
pub type ActorId = u64;

/// An amount of one denomination.
#[derive(Clone, Copy, PartialEq, Eq, Structural, Debug)]
pub struct Coin {
    pub denom: u64,
    pub amount: u64,
}

/// An instruction to the host to move `amount` from the emitting actor's
/// balance to `to`, atomically with the state change it was emitted by.
#[derive(Clone, Debug, PartialEq)]
pub struct Transfer {
    pub to: ActorId,
    pub amount: Vec<Coin>,
}

/// Why an operation was rejected. Every failure leaves the rejecting actor's
/// state unchanged, except where a contract says otherwise (a failed
/// provisioning callback clears the pending slot so a later join can run).
#[derive(Clone, Copy, PartialEq, Eq, Structural, Debug)]
pub enum Error {
    /// The manager was never instantiated.
    ConfigNotFound,
    /// A join is already awaiting its provisioning callback.
    AlreadyPending,
    /// The caller already has a registered peer.
    AlreadyMember,
    /// A provisioning callback arrived with no join awaiting one.
    PendingNotFound,
    /// The creation result carried no usable peer identifier.
    MalformedCallback,
    /// No membership entry for the given owner.
    NoSuchMember,
    /// A peer's donation-count query failed during distribution.
    PeerQueryFailed,
    /// Distribution was attempted with zero total weight.
    NoWeight,
    /// The caller is not the peer's owner.
    Unauthorized,
    /// A callback arrived under an unknown correlation identifier.
    UnknownReplyId,
}

} // verus!
