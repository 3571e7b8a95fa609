//! How backends treat their peers.
use vstd::prelude::*;

verus! {

/// How a backend treats peers that come and go. The backend decides, whatever type its
/// socket has.
#[derive(Debug, Copy, Clone, PartialEq, Eq, Structural)]
pub enum Policy {
    /// Of a peer that goes, the sender is given up, the heartbeat, then the stream; the
    /// monitor and the reconnection task are told.
    Standard,
    /// As the standard, but the stream is given up before the heartbeat, and heartbeats go
    /// by the configuration of the options even where PINGs are not sent.
    Reply,
    /// As the standard, but nobody is told.
    Silent,
}

/// A policy as a type, so that a backend cannot change its policy.
pub trait PeerPolicy {
    /// The policy.
    spec fn policy() -> Policy;

    /// The policy.
    fn kind(&self) -> (k: Policy)
        ensures
            k == Self::policy(),
    ;
}

#[derive(Debug)]
pub struct Standard;

#[derive(Debug)]
pub struct Reply;

#[derive(Debug)]
pub struct Silent;

impl PeerPolicy for Standard {
    open spec fn policy() -> Policy {
        Policy::Standard
    }

    fn kind(&self) -> (k: Policy) {
        Policy::Standard
    }
}

impl PeerPolicy for Reply {
    open spec fn policy() -> Policy {
        Policy::Reply
    }

    fn kind(&self) -> (k: Policy) {
        Policy::Reply
    }
}

impl PeerPolicy for Silent {
    open spec fn policy() -> Policy {
        Policy::Silent
    }

    fn kind(&self) -> (k: Policy) {
        Policy::Silent
    }
}

} // verus!
