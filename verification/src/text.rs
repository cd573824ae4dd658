//! Numbers and addresses as text.

use crate::addr::{octet, EthernetAddress, Ipv4Address};
use vstd::prelude::*;

verus! {

/// The character of a decimal digit.
pub open spec fn digit_char(d: int) -> char {
    (48 + d) as char
}

/// A number in decimal notation, without leading zeros.
pub open spec fn decimal(n: nat) -> Seq<char>
    decreases n,
{
    if n < 10 {
        seq![digit_char(n as int)]
    } else {
        decimal(n / 10).push(digit_char((n % 10) as int))
    }
}

/// A number in decimal notation, with a minus sign if it is negative.
pub open spec fn signed_decimal(n: int) -> Seq<char> {
    if n < 0 {
        seq!['-'] + decimal((-n) as nat)
    } else {
        decimal(n as nat)
    }
}

/// The character of a hexadecimal digit, in lower case.
pub open spec fn hex_char(d: int) -> char {
    if d < 10 {
        (48 + d) as char
    } else {
        (87 + d) as char
    }
}

/// An octet as two hexadecimal digits.
pub open spec fn hex_octet(n: int) -> Seq<char> {
    seq![hex_char(n / 16), hex_char(n % 16)]
}

/// A hardware address as its six octets in hexadecimal notation, separated by colons.
pub open spec fn mac_text(bits: u64) -> Seq<char> {
    let b = bits as int;
    hex_octet(b / 0x100_0000_0000) + seq![':'] + hex_octet(b / 0x1_0000_0000 % 256) + seq![':']
        + hex_octet(b / 0x100_0000 % 256) + seq![':'] + hex_octet(b / 0x1_0000 % 256) + seq![':']
        + hex_octet(b / 256 % 256) + seq![':'] + hex_octet(b % 256)
}

/// An address as its four octets in decimal notation, separated by dots.
pub open spec fn ipv4_text(bits: u32) -> Seq<char> {
    decimal(octet(bits, 0) as nat) + seq!['.'] + decimal(octet(bits, 1) as nat) + seq!['.']
        + decimal(octet(bits, 2) as nat) + seq!['.'] + decimal(octet(bits, 3) as nat)
}

/// `str::strip_prefix`: what follows the prefix, or nothing if the text does not start with it.
#[verifier::external_body]
pub(crate) fn strip_prefix<'a>(text: &'a str, prefix: &str) -> (r: Option<&'a str>)
    ensures
        match r {
            Some(rest) => text@ == prefix@ + rest@,
            None => !prefix@.is_prefix_of(text@),
        },
{
    text.strip_prefix(prefix)
}

/// The position of a character from `from` on, or the end.
pub open spec fn char_at(text: Seq<char>, c: char, from: int) -> int
    decreases text.len() - from,
{
    if from < 0 || from >= text.len() {
        text.len() as int
    } else if text[from] == c {
        from
    } else {
        char_at(text, c, from + 1)
    }
}

/// `str::split_once` at a character: what stands before its first occurrence and what stands
/// behind that, or nothing if it does not occur.
#[verifier::external_body]
pub(crate) fn split_once<'a>(text: &'a str, c: char) -> (r: Option<(&'a str, &'a str)>)
    ensures
        match r {
            Some((head, tail)) => {
                &&& char_at(text@, c, 0) < text@.len()
                &&& head@ == text@.take(char_at(text@, c, 0))
                &&& tail@ == text@.skip(char_at(text@, c, 0) + 1)
            },
            None => char_at(text@, c, 0) == text@.len(),
        },
{
    text.split_once(c)
}

/// A number of spaces.
pub open spec fn spaces(n: nat) -> Seq<char> {
    Seq::new(n, |i: int| ' ')
}

/// `str::trim_start_matches` with a space: the text without its leading spaces.
#[verifier::external_body]
pub(crate) fn trim_leading_spaces<'a>(text: &'a str) -> (r: &'a str)
    ensures
        r@.len() > 0 ==> r@[0] != ' ',
        exists|n: nat| text@ == #[trigger] spaces(n) + r@,
{
    text.trim_start_matches(' ')
}

/// Whether two texts are the same.
pub fn same_text(a: &str, b: &str) -> (r: bool)
    ensures
        r == (a@ == b@),
{
    a.to_owned() == b.to_owned()
}

fn push_digit(out: &mut String, d: u8)
    requires
        d < 10,
    ensures
        final(out)@ == old(out)@.push(digit_char(d as int)),
{
    proof {
        reveal_strlit("0");
        reveal_strlit("1");
        reveal_strlit("2");
        reveal_strlit("3");
        reveal_strlit("4");
        reveal_strlit("5");
        reveal_strlit("6");
        reveal_strlit("7");
        reveal_strlit("8");
        reveal_strlit("9");
    }
    let digit = if d == 0 {
        "0"
    } else if d == 1 {
        "1"
    } else if d == 2 {
        "2"
    } else if d == 3 {
        "3"
    } else if d == 4 {
        "4"
    } else if d == 5 {
        "5"
    } else if d == 6 {
        "6"
    } else if d == 7 {
        "7"
    } else if d == 8 {
        "8"
    } else {
        "9"
    };
    out.append(digit);
    assert(digit@ =~= seq![digit_char(d as int)]);
    assert(out@ =~= old(out)@.push(digit_char(d as int)));
}

fn push_hex_digit(out: &mut String, d: u8)
    requires
        d < 16,
    ensures
        final(out)@ == old(out)@.push(hex_char(d as int)),
{
    if d < 10 {
        push_digit(out, d);
        return ;
    }
    proof {
        reveal_strlit("a");
        reveal_strlit("b");
        reveal_strlit("c");
        reveal_strlit("d");
        reveal_strlit("e");
        reveal_strlit("f");
    }
    let digit = if d == 10 {
        "a"
    } else if d == 11 {
        "b"
    } else if d == 12 {
        "c"
    } else if d == 13 {
        "d"
    } else if d == 14 {
        "e"
    } else {
        "f"
    };
    out.append(digit);
    assert(digit@ =~= seq![hex_char(d as int)]);
    assert(out@ =~= old(out)@.push(hex_char(d as int)));
}

fn push_hex_octet(out: &mut String, n: u8)
    ensures
        final(out)@ == old(out)@ + hex_octet(n as int),
{
    push_hex_digit(out, n / 16);
    push_hex_digit(out, n % 16);
    assert(out@ =~= old(out)@ + hex_octet(n as int));
}

/// Appends a hardware address in hexadecimal notation.
pub fn push_mac(out: &mut String, mac: EthernetAddress)
    requires
        mac.wf(),
    ensures
        final(out)@ == old(out)@ + mac_text(mac.bits),
{
    let b: u64 = mac.bits;
    proof {
        reveal_strlit(":");
        assert(":"@ =~= seq![':']);
    }
    push_hex_octet(out, (b / 0x100_0000_0000) as u8);
    out.append(":");
    push_hex_octet(out, (b / 0x1_0000_0000 % 256) as u8);
    out.append(":");
    push_hex_octet(out, (b / 0x100_0000 % 256) as u8);
    out.append(":");
    push_hex_octet(out, (b / 0x1_0000 % 256) as u8);
    out.append(":");
    push_hex_octet(out, (b / 256 % 256) as u8);
    out.append(":");
    push_hex_octet(out, (b % 256) as u8);
    assert(out@ =~= old(out)@ + mac_text(b));
}

/// Appends a number in decimal notation.
pub fn push_decimal(out: &mut String, n: u64)
    ensures
        final(out)@ == old(out)@ + decimal(n as nat),
    decreases n,
{
    if n >= 10 {
        push_decimal(out, n / 10);
    }
    push_digit(out, (n % 10) as u8);
    assert(out@ =~= old(out)@ + decimal(n as nat));
}

/// Appends a number in decimal notation, with a minus sign if it is negative.
pub fn push_signed(out: &mut String, n: i32)
    ensures
        final(out)@ == old(out)@ + signed_decimal(n as int),
{
    if n < 0 {
        proof {
            reveal_strlit("-");
            assert("-"@ =~= seq!['-']);
        }
        out.append("-");
        push_decimal(out, (-(n as i64)) as u64);
    } else {
        push_decimal(out, n as u64);
    }
    assert(out@ =~= old(out)@ + signed_decimal(n as int));
}

/// Appends an address in dotted notation.
pub fn push_ipv4(out: &mut String, addr: Ipv4Address)
    ensures
        final(out)@ == old(out)@ + ipv4_text(addr.bits),
{
    let o = addr.octets();
    proof {
        reveal_strlit(".");
        assert(o@[0] == octet(addr.bits, 0));
        assert(o@[1] == octet(addr.bits, 1));
        assert(o@[2] == octet(addr.bits, 2));
        assert(o@[3] == octet(addr.bits, 3));
    }
    push_decimal(out, o[0] as u64);
    out.append(".");
    push_decimal(out, o[1] as u64);
    out.append(".");
    push_decimal(out, o[2] as u64);
    out.append(".");
    push_decimal(out, o[3] as u64);
    assert("."@ =~= seq!['.']);
    assert(out@ =~= old(out)@ + ipv4_text(addr.bits));
}

} // verus!
