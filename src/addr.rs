//! Network addresses of peers, held as plain integers.
use vstd::prelude::*;

verus! {

/// The address of a peer daemon: an IPv4 address as its 32-bit number, or an
/// IPv6 address as its 128-bit number.
#[derive(Clone, Copy, Debug, PartialEq, Eq, Structural, Hash)]
pub enum PeerAddr {
    V4(u32),
    V6(u128),
}

impl View for PeerAddr {
    type V = PeerAddr;

    open spec fn view(&self) -> PeerAddr {
        *self
    }
}

impl PeerAddr {
    /// The IPv4 address `a.b.c.d`.
    pub fn v4(a: u8, b: u8, c: u8, d: u8) -> (r: PeerAddr)
        ensures
            r == PeerAddr::V4(
                ((a as int) * 16777216 + (b as int) * 65536 + (c as int) * 256 + (d as int)) as u32,
            ),
    {
        PeerAddr::V4((a as u32) * 16777216 + (b as u32) * 65536 + (c as u32) * 256 + (d as u32))
    }
}

} // verus!
