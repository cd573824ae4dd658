//! IPv4 networks: an address and the length of the prefix that counts.

use crate::addr::{octet, Ipv4Address};
use crate::text::{decimal, ipv4_text};
use vstd::arithmetic::power2::pow2;
use vstd::prelude::*;

verus! {

/// An IPv4 network in prefix notation. The address may have bits set behind the prefix.
#[derive(Clone, Copy, Debug, PartialEq, Eq, Structural)]
pub struct Cidr {
    pub addr: Ipv4Address,
    pub prefix_len: u8,
}

/// The first `len` bits of an address, the rest being zero.
pub open spec fn network_bits(bits: u32, len: u8) -> u32 {
    (bits as int - bits as int % pow2((32 - len) as nat) as int) as u32
}

/// A network as text: its address, a slash and the prefix length.
pub open spec fn net_text(net: Cidr) -> Seq<char> {
    ipv4_text(net.addr.bits) + seq!['/'] + decimal(net.prefix_len as nat)
}

pub open spec fn is_digit(c: char) -> bool {
    '0' <= c <= '9'
}

/// The value of a sequence of decimal digits.
pub open spec fn numeral_value(s: Seq<char>) -> int
    decreases s.len(),
{
    if s.len() == 0 {
        0
    } else {
        numeral_value(s.drop_last()) * 10 + (s.last() as int - 48)
    }
}

/// One to `max_len` digits of a value below `limit`.
pub open spec fn is_numeral(s: Seq<char>, max_len: int, limit: int) -> bool {
    &&& 1 <= s.len() <= max_len
    &&& forall|i: int| 0 <= i < s.len() ==> is_digit(#[trigger] s[i])
    &&& numeral_value(s) < limit
}

/// Four numerals and a prefix length, with their separators.
pub open spec fn dotted(
    a: Seq<char>,
    b: Seq<char>,
    c: Seq<char>,
    d: Seq<char>,
    len: Seq<char>,
) -> Seq<char> {
    a.push('.') + (b.push('.') + (c.push('.') + (d.push('/') + len)))
}

/// The text denotes the network: four numbers below 256 of at most three digits each, separated
/// by dots, then a slash and a number up to 32 of at most two digits.
pub open spec fn is_net_text(text: Seq<char>, net: Cidr) -> bool {
    exists|a: Seq<char>, b: Seq<char>, c: Seq<char>, d: Seq<char>, len: Seq<char>|
        {
            &&& text == #[trigger] dotted(a, b, c, d, len)
            &&& is_numeral(a, 3, 256)
            &&& is_numeral(b, 3, 256)
            &&& is_numeral(c, 3, 256)
            &&& is_numeral(d, 3, 256)
            &&& is_numeral(len, 2, 33)
            &&& net.addr.bits == numeral_value(a) * 16777216 + numeral_value(b) * 65536
                + numeral_value(c) * 256 + numeral_value(d)
            &&& net.prefix_len == numeral_value(len)
        }
}

/// `<ipnet::Ipv4Net as FromStr>::from_str`: accepts exactly the texts that denote a network, and
/// reports every other one with the same words.
#[verifier::external_body]
fn parse_net(text: &str) -> (r: Result<Cidr, String>)
    ensures
        match r {
            Ok(net) => is_net_text(text@, net),
            Err(e) => e@ == "invalid IP address syntax"@ && forall|net: Cidr|
                !#[trigger] is_net_text(text@, net),
        },
{
    let net = text.parse::<ipnet::Ipv4Net>().map_err(|e| e.to_string())?;
    Ok(Cidr { addr: Ipv4Address { bits: net.addr().into() }, prefix_len: net.prefix_len() })
}

/// `<ipnet::Ipv4Net as Display>::fmt`: the address in dotted notation, a slash and the prefix
/// length.
#[verifier::external_body]
fn display_net(bits: u32, prefix_len: u8) -> (r: String)
    requires
        prefix_len <= 32,
    ensures
        r@ == net_text((Cidr { addr: Ipv4Address { bits: bits }, prefix_len: prefix_len })),
{
    ipnet::Ipv4Net::new_assert(bits.into(), prefix_len).to_string()
}

/// `ipnet::Ipv4Net::trunc`: the address with the bits behind the prefix cleared.
#[verifier::external_body]
fn trunc_net(bits: u32, prefix_len: u8) -> (r: u32)
    requires
        prefix_len <= 32,
    ensures
        r == network_bits(bits, prefix_len),
{
    ipnet::Ipv4Net::new_assert(bits.into(), prefix_len).trunc().addr().into()
}

impl Cidr {
    /// A prefix has at most 32 bits.
    pub open spec fn wf(&self) -> bool {
        self.prefix_len <= 32
    }

    /// The same network, with no bits set behind the prefix.
    pub open spec fn truncated(&self) -> Cidr {
        Cidr {
            addr: Ipv4Address { bits: network_bits(self.addr.bits, self.prefix_len) },
            prefix_len: self.prefix_len,
        }
    }

    /// The network of a single address.
    pub fn host(addr: Ipv4Address) -> (r: Cidr)
        ensures
            r == (Cidr { addr: addr, prefix_len: 32 }),
            r.wf(),
    {
        Cidr { addr, prefix_len: 32 }
    }

    /// Reads a network from text.
    pub fn parse(text: &str) -> (r: Result<Cidr, String>)
        ensures
            match r {
                Ok(net) => is_net_text(text@, net) && net.wf(),
                Err(e) => e@ == "invalid IP address syntax"@ && forall|net: Cidr|
                    !#[trigger] is_net_text(text@, net),
            },
    {
        let r = parse_net(text);
        proof {
            if r is Ok {
                lemma_net_text_wf(text@, r->Ok_0);
            }
        }
        r
    }

    /// The network as text.
    pub fn text(&self) -> (r: String)
        requires
            self.wf(),
        ensures
            r@ == net_text(*self),
    {
        display_net(self.addr.bits, self.prefix_len)
    }

    /// Clears the bits behind the prefix.
    pub fn trunc(&self) -> (r: Cidr)
        requires
            self.wf(),
        ensures
            r == self.truncated(),
            r.wf(),
    {
        Cidr {
            addr: Ipv4Address { bits: trunc_net(self.addr.bits, self.prefix_len) },
            prefix_len: self.prefix_len,
        }
    }
}

proof fn lemma_net_text_wf(text: Seq<char>, net: Cidr)
    requires
        is_net_text(text, net),
    ensures
        net.wf(),
{
}

pub proof fn lemma_numeral_nonneg(s: Seq<char>)
    requires
        forall|i: int| 0 <= i < s.len() ==> is_digit(#[trigger] s[i]),
    ensures
        numeral_value(s) >= 0,
    decreases s.len(),
{
    if s.len() > 0 {
        assert forall|i: int| 0 <= i < s.drop_last().len() implies is_digit(
            #[trigger] s.drop_last()[i],
        ) by {
            assert(is_digit(s[i]));
        }
        lemma_numeral_nonneg(s.drop_last());
        assert(is_digit(s[s.len() - 1]));
    }
}

/// A number in decimal notation is a numeral of that value.
pub proof fn lemma_decimal_numeral(n: nat)
    ensures
        numeral_value(decimal(n)) == n,
        decimal(n).len() >= 1,
        n < 10 ==> decimal(n).len() <= 1,
        n < 100 ==> decimal(n).len() <= 2,
        n < 1000 ==> decimal(n).len() <= 3,
        forall|i: int| 0 <= i < decimal(n).len() ==> is_digit(#[trigger] decimal(n)[i]),
    decreases n,
{
    if n >= 10 {
        lemma_decimal_numeral(n / 10);
        assert(decimal(n).drop_last() =~= decimal(n / 10));
        assert forall|i: int| 0 <= i < decimal(n).len() implies is_digit(#[trigger] decimal(n)[i]) by {
            if i < decimal(n / 10).len() {
                assert(decimal(n)[i] == decimal(n / 10)[i]);
                assert(is_digit(decimal(n / 10)[i]));
            }
        }
    } else {
        assert(decimal(n).drop_last() =~= Seq::<char>::empty());
        assert(numeral_value(decimal(n).drop_last()) == 0);
    }
}

/// A run of digits that ends at a separator can be split off in one way only.
proof fn lemma_split_unique(a1: Seq<char>, r1: Seq<char>, a2: Seq<char>, r2: Seq<char>, sep: char)
    requires
        a1.push(sep) + r1 == a2.push(sep) + r2,
        !is_digit(sep),
        forall|i: int| 0 <= i < a1.len() ==> is_digit(#[trigger] a1[i]),
        forall|i: int| 0 <= i < a2.len() ==> is_digit(#[trigger] a2[i]),
    ensures
        a1 == a2,
        r1 == r2,
{
    let t = a1.push(sep) + r1;
    let u = a2.push(sep) + r2;
    assert(t[a1.len() as int] == sep);
    assert(u[a2.len() as int] == sep);
    if a1.len() < a2.len() {
        assert(u[a1.len() as int] == a2[a1.len() as int]);
        assert(false);
    }
    if a2.len() < a1.len() {
        assert(t[a2.len() as int] == a1[a2.len() as int]);
        assert(false);
    }
    assert forall|i: int| 0 <= i < a1.len() implies a1[i] == a2[i] by {
        assert(t[i] == a1[i]);
        assert(u[i] == a2[i]);
    }
    assert(a1 =~= a2);
    assert(t.len() == a1.len() + 1 + r1.len());
    assert(u.len() == a2.len() + 1 + r2.len());
    assert forall|i: int| 0 <= i < r1.len() implies r1[i] == r2[i] by {
        assert(t[a1.len() + 1 + i] == r1[i]);
        assert(u[a2.len() + 1 + i] == r2[i]);
    }
    assert(r1 =~= r2);
}

/// A text denotes at most one network.
pub proof fn lemma_net_text_unique(text: Seq<char>, n1: Cidr, n2: Cidr)
    requires
        is_net_text(text, n1),
        is_net_text(text, n2),
    ensures
        n1 == n2,
{
    let (a1, b1, c1, d1, l1) = choose|
        a: Seq<char>,
        b: Seq<char>,
        c: Seq<char>,
        d: Seq<char>,
        len: Seq<char>,
    |
        {
            &&& text == #[trigger] dotted(a, b, c, d, len)
            &&& is_numeral(a, 3, 256)
            &&& is_numeral(b, 3, 256)
            &&& is_numeral(c, 3, 256)
            &&& is_numeral(d, 3, 256)
            &&& is_numeral(len, 2, 33)
            &&& n1.addr.bits == numeral_value(a) * 16777216 + numeral_value(b) * 65536
                + numeral_value(c) * 256 + numeral_value(d)
            &&& n1.prefix_len == numeral_value(len)
        };
    let (a2, b2, c2, d2, l2) = choose|
        a: Seq<char>,
        b: Seq<char>,
        c: Seq<char>,
        d: Seq<char>,
        len: Seq<char>,
    |
        {
            &&& text == #[trigger] dotted(a, b, c, d, len)
            &&& is_numeral(a, 3, 256)
            &&& is_numeral(b, 3, 256)
            &&& is_numeral(c, 3, 256)
            &&& is_numeral(d, 3, 256)
            &&& is_numeral(len, 2, 33)
            &&& n2.addr.bits == numeral_value(a) * 16777216 + numeral_value(b) * 65536
                + numeral_value(c) * 256 + numeral_value(d)
            &&& n2.prefix_len == numeral_value(len)
        };
    let t1 = d1.push('/') + l1;
    let t2 = d2.push('/') + l2;
    let s1 = c1.push('.') + t1;
    let s2 = c2.push('.') + t2;
    let q1 = b1.push('.') + s1;
    let q2 = b2.push('.') + s2;
    lemma_split_unique(a1, q1, a2, q2, '.');
    lemma_split_unique(b1, s1, b2, s2, '.');
    lemma_split_unique(c1, t1, c2, t2, '.');
    lemma_split_unique(d1, l1, d2, l2, '/');
}

proof fn lemma_dotted(a: Seq<char>, b: Seq<char>, c: Seq<char>, d: Seq<char>, len: Seq<char>)
    ensures
        a + seq!['.'] + b + seq!['.'] + c + seq!['.'] + d + seq!['/'] + len == dotted(
            a,
            b,
            c,
            d,
            len,
        ),
{
    assert(a + seq!['.'] + b + seq!['.'] + c + seq!['.'] + d + seq!['/'] + len =~= dotted(
        a,
        b,
        c,
        d,
        len,
    ));
}

proof fn lemma_octets_sum(bits: u32)
    ensures
        bits == octet(bits, 0) * 16777216 + octet(bits, 1) * 65536 + octet(bits, 2) * 256 + octet(
            bits,
            3,
        ),
        forall|i: int| 0 <= #[trigger] octet(bits, i) < 256,
{
}

/// The text of a network denotes it.
pub proof fn lemma_net_text_denotes(net: Cidr)
    requires
        net.wf(),
    ensures
        is_net_text(net_text(net), net),
{
    let bits = net.addr.bits;
    let a = decimal(octet(bits, 0) as nat);
    let b = decimal(octet(bits, 1) as nat);
    let c = decimal(octet(bits, 2) as nat);
    let d = decimal(octet(bits, 3) as nat);
    let len = decimal(net.prefix_len as nat);
    lemma_octets_sum(bits);
    lemma_decimal_numeral(octet(bits, 0) as nat);
    lemma_decimal_numeral(octet(bits, 1) as nat);
    lemma_decimal_numeral(octet(bits, 2) as nat);
    lemma_decimal_numeral(octet(bits, 3) as nat);
    lemma_decimal_numeral(net.prefix_len as nat);
    lemma_dotted(a, b, c, d, len);
    assert(net_text(net) == dotted(a, b, c, d, len));
    assert(is_numeral(a, 3, 256));
    assert(is_numeral(b, 3, 256));
    assert(is_numeral(c, 3, 256));
    assert(is_numeral(d, 3, 256));
    assert(is_numeral(len, 2, 33));
}

/// The first character of a network's text is a digit.
pub proof fn lemma_net_text_starts_with_digit(text: Seq<char>, net: Cidr)
    requires
        is_net_text(text, net),
    ensures
        text.len() > 0,
        is_digit(text[0]),
{
    let (a, b, c, d, len) = choose|
        a: Seq<char>,
        b: Seq<char>,
        c: Seq<char>,
        d: Seq<char>,
        len: Seq<char>,
    |
        text == #[trigger] dotted(a, b, c, d, len) && is_numeral(a, 3, 256);
    assert(text[0] == a[0]);
}

/// Clearing the bits behind a prefix a second time changes nothing.
pub proof fn lemma_network_bits_idempotent(bits: u32, len: u8)
    requires
        len <= 32,
    ensures
        network_bits(bits, len) <= bits,
        network_bits(network_bits(bits, len), len) == network_bits(bits, len),
{
    let m = pow2((32 - len) as nat) as int;
    vstd::arithmetic::power2::lemma_pow2_pos((32 - len) as nat);
    let b = bits as int;
    vstd::arithmetic::div_mod::lemma_fundamental_div_mod(b, m);
    assert(0 <= b % m <= b) by (nonlinear_arith)
        requires
            m > 0,
            b >= 0,
    ;
    let q = b / m;
    assert(b - b % m == m * q);
    vstd::arithmetic::div_mod::lemma_mod_multiples_basic(q, m);
    assert(m * q == q * m) by (nonlinear_arith);
}

/// A prefix of full length keeps the whole address.
pub proof fn lemma_network_bits_full(bits: u32)
    ensures
        network_bits(bits, 32) == bits,
{
    vstd::arithmetic::power2::lemma2_to64();
}

} // verus!
