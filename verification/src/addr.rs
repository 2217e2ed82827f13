//! The record of the address that the last datagram came from.

use vstd::prelude::*;

verus! {

/// The address of a peer: an IP address, as one number, and a port. Two
/// addresses are the same if every part is.
#[derive(Clone, Copy, Debug, PartialEq, Eq, Structural)]
#[allow(inconsistent_fields)]
pub enum PeerAddr {
    V4 { ip: u32, port: u16 },
    V6 { ip: u128, port: u16, flowinfo: u32, scope_id: u32 },
}

/// Holds the address that datagrams came from last, for the traffic that
/// goes back. It is written only when the address changes.
#[derive(Clone, Copy, Debug)]
pub struct AddrTracker {
    last: Option<PeerAddr>,
}

/// One observation of `addr` on a record that holds `last`: the record
/// afterwards, and whether it was written. The record is written exactly
/// when it held no address or another one.
pub open spec fn observe(last: Option<PeerAddr>, addr: PeerAddr) -> (Option<PeerAddr>, bool) {
    (Some(addr), last != Some(addr))
}

impl View for AddrTracker {
    type V = Option<PeerAddr>;

    closed spec fn view(&self) -> Option<PeerAddr> {
        self.last
    }
}

impl AddrTracker {
    /// A record that holds no address yet.
    pub fn new() -> (tracker: Self)
        ensures
            tracker@ is None,
    {
        AddrTracker { last: None }
    }

    /// The address recorded last, if any.
    pub fn get(&self) -> (last: Option<PeerAddr>)
        ensures
            last == self@,
    {
        self.last
    }

    /// Whether observing `addr` would write the record: it holds no address
    /// or another one.
    pub fn is_outdated(&self, addr: PeerAddr) -> (outdated: bool)
        ensures
            outdated == observe(self@, addr).1,
    {
        match self.last {
            Some(last) => last != addr,
            None => true,
        }
    }

    /// Observes the source address of a datagram. Returns whether the record
    /// was written.
    pub fn update(&mut self, addr: PeerAddr) -> (written: bool)
        ensures
            (final(self)@, written) == observe(old(self)@, addr),
    {
        let outdated = self.is_outdated(addr);
        if outdated {
            self.last = Some(addr);
        }
        outdated
    }
}

/// An address seen twice in a row is written once: whatever the record held,
/// after `a` was observed a second observation of `a` writes nothing, and an
/// observation of a different address `b` that follows writes and leaves the
/// record holding `b`.
pub proof fn lemma_repeated_address(start: Option<PeerAddr>, a: PeerAddr, b: PeerAddr)
    requires
        a != b,
    ensures
        ({
            let first = observe(start, a);
            let second = observe(first.0, a);
            let third = observe(second.0, b);
            &&& first.0 == Some(a)
            &&& !second.1
            &&& second.0 == Some(a)
            &&& third.1
            &&& third.0 == Some(b)
        }),
{
}

} // verus!
