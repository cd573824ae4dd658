//! Network addresses as plain numbers.

use vstd::prelude::*;

verus! {

/// The big-endian 16-bit number at offset `i`.
pub open spec fn be16(b: Seq<u8>, i: int) -> int {
    b[i] * 256 + b[i + 1]
}

/// The big-endian 32-bit number at offset `i`.
pub open spec fn be32(b: Seq<u8>, i: int) -> int {
    be16(b, i) * 65536 + be16(b, i + 2)
}

/// The big-endian 48-bit number at offset `i`.
pub open spec fn be48(b: Seq<u8>, i: int) -> int {
    be32(b, i) * 65536 + be16(b, i + 4)
}

/// An IPv4 address, the first octet being the most significant.
#[derive(Clone, Copy, Debug, PartialEq, Eq, Structural, Hash)]
pub struct Ipv4Address {
    pub bits: u32,
}

/// The address `0.0.0.0`.
pub const UNSPECIFIED_BITS: u32 = 0;

/// The address `255.255.255.255`.
pub const BROADCAST_BITS: u32 = 0xffff_ffff;

/// The octet of an address at position `i`, counted from the left.
pub open spec fn octet(bits: u32, i: int) -> int {
    if i == 0 {
        bits as int / 16777216
    } else if i == 1 {
        bits as int / 65536 % 256
    } else if i == 2 {
        bits as int / 256 % 256
    } else {
        bits as int % 256
    }
}

#[verifier::spinoff_prover]
proof fn lemma_octets(a: int, b: int, c: int, d: int)
    requires
        0 <= a < 256,
        0 <= b < 256,
        0 <= c < 256,
        0 <= d < 256,
    ensures
        (a * 16777216 + b * 65536 + c * 256 + d) / 16777216 == a,
        (a * 16777216 + b * 65536 + c * 256 + d) / 65536 % 256 == b,
        (a * 16777216 + b * 65536 + c * 256 + d) / 256 % 256 == c,
        (a * 16777216 + b * 65536 + c * 256 + d) % 256 == d,
{
    let low = b * 65536 + c * 256 + d;
    assert(0 <= low < 16777216);
    assert((a * 16777216 + low) / 16777216 == a);
    let mid = a * 256 + b;
    assert((mid * 65536 + (c * 256 + d)) / 65536 == mid);
    assert(mid % 256 == b);
    let high = mid * 256 + c;
    assert((high * 256 + d) / 256 == high);
    assert(high % 256 == c);
}

impl Ipv4Address {
    pub fn new(a: u8, b: u8, c: u8, d: u8) -> (r: Ipv4Address)
        ensures
            r.bits == a * 16777216 + b * 65536 + c * 256 + d,
            octet(r.bits, 0) == a,
            octet(r.bits, 1) == b,
            octet(r.bits, 2) == c,
            octet(r.bits, 3) == d,
    {
        proof {
            lemma_octets(a as int, b as int, c as int, d as int);
        }
        Ipv4Address {
            bits: a as u32 * 16777216 + b as u32 * 65536 + c as u32 * 256 + d as u32,
        }
    }

    pub fn is_unspecified(&self) -> (r: bool)
        ensures
            r == (self.bits == 0),
    {
        self.bits == UNSPECIFIED_BITS
    }

    pub fn is_broadcast(&self) -> (r: bool)
        ensures
            r == (self.bits == 0xffff_ffff),
    {
        self.bits == BROADCAST_BITS
    }

    /// The four octets, from the left.
    pub fn octets(&self) -> (r: [u8; 4])
        ensures
            forall|i: int| 0 <= i < 4 ==> #[trigger] r@[i] == octet(self.bits, i),
    {
        [
            (self.bits / 16777216) as u8,
            (self.bits / 65536 % 256) as u8,
            (self.bits / 256 % 256) as u8,
            (self.bits % 256) as u8,
        ]
    }
}

/// An Ethernet hardware address, the first octet being the most significant.
#[derive(Clone, Copy, Debug, PartialEq, Eq, Structural, Hash)]
pub struct EthernetAddress {
    pub bits: u64,
}

/// The address `ff:ff:ff:ff:ff:ff`.
pub const ETHERNET_BROADCAST_BITS: u64 = 0xffff_ffff_ffff;

impl EthernetAddress {
    /// Hardware addresses have 48 bits.
    pub open spec fn wf(&self) -> bool {
        self.bits <= 0xffff_ffff_ffff
    }

    pub fn new(octets: [u8; 6]) -> (r: EthernetAddress)
        ensures
            r.wf(),
            r.bits == be48(octets@, 0),
    {
        let hi: u64 = octets[0] as u64 * 16777216 + octets[1] as u64 * 65536 + octets[2] as u64
            * 256 + octets[3] as u64;
        EthernetAddress { bits: hi * 65536 + octets[4] as u64 * 256 + octets[5] as u64 }
    }

    pub fn is_broadcast(&self) -> (r: bool)
        ensures
            r == (self.bits == 0xffff_ffff_ffff),
    {
        self.bits == ETHERNET_BROADCAST_BITS
    }
}

/// Two hardware addresses are the same where their octets are.
pub proof fn law_octets_tell_hardware_addresses_apart(a: Seq<u8>, b: Seq<u8>)
    requires
        a.len() == 6,
        b.len() == 6,
        be48(a, 0) == be48(b, 0),
    ensures
        a == b,
{
    assert(be32(a, 0) == be32(b, 0) && be16(a, 4) == be16(b, 4));
    assert(be16(a, 0) == be16(b, 0) && be16(a, 2) == be16(b, 2));
    assert(a[0] == b[0] && a[1] == b[1]);
    assert(a[2] == b[2] && a[3] == b[3]);
    assert(a[4] == b[4] && a[5] == b[5]);
    assert(a =~= b);
}

} // verus!
