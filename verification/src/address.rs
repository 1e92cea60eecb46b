//! IPv6 addresses as plain values, and the link-local test.

use vstd::prelude::*;

verus! {

/// An IPv6 address, held as its eight 16-bit segments, most significant first.
#[derive(Clone, Copy, Debug, PartialEq, Eq)]
pub struct Ipv6Address {
    pub segments: [u16; 8],
}

/// The mask that keeps the ten leading bits of the first segment.
pub const LINK_LOCAL_MASK: u16 = 0xffc0;

/// The ten leading bits `1111 1110 10`, padded to a segment: the prefix `fe80::/10`.
pub const LINK_LOCAL_PREFIX: u16 = 0xfe80;

/// An address is link-local when the ten leading bits of its first segment are
/// `1111 1110 10`.
pub open spec fn spec_is_link_local(ip: Ipv6Address) -> bool {
    ip.segments[0] & LINK_LOCAL_MASK == LINK_LOCAL_PREFIX
}

impl Ipv6Address {
    /// The address with the given segments.
    pub fn new(segments: [u16; 8]) -> (ip: Ipv6Address)
        ensures
            ip.segments == segments,
    {
        Ipv6Address { segments }
    }

    /// The eight segments of the address, most significant first.
    pub fn segments(&self) -> (segments: [u16; 8])
        ensures
            segments == self.segments,
    {
        self.segments
    }
}

/// Tells whether `ip` is link-local, that is, lies in `fe80::/10`.
pub fn is_link_local(ip: &Ipv6Address) -> (res: bool)
    ensures
        res == spec_is_link_local(*ip),
{
    (ip.segments[0] & LINK_LOCAL_MASK) == LINK_LOCAL_PREFIX
}

/// The link-local addresses are exactly those whose first segment lies between
/// `fe80` and `febf`: the lower six bits of the segment are free, the upper ten
/// are fixed.
pub proof fn lemma_link_local_range(ip: Ipv6Address)
    ensures
        spec_is_link_local(ip) <==> 0xfe80 <= ip.segments[0] <= 0xfebf,
        spec_is_link_local(ip) <==> ip.segments[0] >> 6 == 0x3fa,
{
    let s: u16 = ip.segments[0];
    assert((s & 0xffc0 == 0xfe80) <==> (0xfe80 <= s && s <= 0xfebf)) by (bit_vector);
    assert((s & 0xffc0 == 0xfe80) <==> (s >> 6 == 0x3fa)) by (bit_vector);
}

} // verus!
