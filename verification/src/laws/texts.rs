//! How numbers, addresses and leases read, and how headers are laid out.

use crate::addr::{be16, be48, EthernetAddress, Ipv4Address};
use crate::clock::Instant;
use crate::dhcp::{client_message, dhcp_message};
use crate::dhcp_options::{
    is_whole, length_fits, piece_end, run_at, tamed, tamed_from,
};
use crate::dhcp_snooper::LeaseView;
use crate::dhcp_snooper_global::{event_text, lease_line, LeaseEvent};
use crate::net::{is_digit, lemma_decimal_numeral, numeral_value};
use crate::poller::PacketTurn;
use crate::text::{decimal, hex_char, ipv4_text, mac_text, signed_decimal};
use crate::wire::{is_frame, EthernetFrame, TcpSegment};
use vstd::prelude::*;

verus! {

proof fn lemma_no_leading_zero(n: nat)
    ensures
        decimal(n).len() > 0,
        decimal(n)[0] == '0' ==> n == 0,
        n == 0 ==> decimal(n).len() == 1,
    decreases n,
{
    if n >= 10 {
        lemma_no_leading_zero(n / 10);
        assert(decimal(n)[0] == decimal(n / 10)[0]);
    }
}

/// A number in decimal notation consists of digits, has the number as its value, and starts with no
/// zero that could be left out. A negative one has a minus sign before it.
pub proof fn law_decimal_notation(n: nat)
    ensures
        numeral_value(decimal(n)) == n,
        forall|i: int| 0 <= i < decimal(n).len() ==> is_digit(#[trigger] decimal(n)[i]),
        decimal(n).len() > 1 ==> decimal(n)[0] != '0',
        signed_decimal(n as int) == decimal(n),
        n > 0 ==> signed_decimal(-(n as int)) == seq!['-'] + decimal(n),
{
    lemma_decimal_numeral(n);
    lemma_no_leading_zero(n);
    if n == 0 {
        lemma_no_leading_zero(0);
    }
}

/// The value of a character as a hexadecimal digit in lower case.
pub open spec fn hex_value(c: char) -> int {
    if '0' <= c <= '9' {
        c as int - 48
    } else if 'a' <= c <= 'f' {
        c as int - 87
    } else {
        -1
    }
}

proof fn lemma_hex_value(d: int)
    requires
        0 <= d < 16,
    ensures
        hex_value(hex_char(d)) == d,
{
}

/// A hardware address reads as six pairs of hexadecimal digits with colons between them, the pairs
/// being its octets from the left.
#[verifier::spinoff_prover]
#[verifier::rlimit(50)]
pub proof fn law_hardware_addresses_in_hexadecimal(bits: u64)
    requires
        bits <= 0xffff_ffff_ffff,
    ensures
        ({
            let t = mac_text(bits);
            let pair = |i: int| hex_value(t[3 * i]) * 16 + hex_value(t[3 * i + 1]);
            &&& t.len() == 17
            &&& t[2] == ':' && t[5] == ':' && t[8] == ':' && t[11] == ':' && t[14] == ':'
            &&& pair(0) == bits as int / 0x100_0000_0000
            &&& pair(1) == bits as int / 0x1_0000_0000 % 256
            &&& pair(2) == bits as int / 0x100_0000 % 256
            &&& pair(3) == bits as int / 0x1_0000 % 256
            &&& pair(4) == bits as int / 0x100 % 256
            &&& pair(5) == bits as int % 256
        }),
{
    let b = bits as int;
    lemma_pair(b / 0x100_0000_0000);
    lemma_pair(b / 0x1_0000_0000 % 256);
    lemma_pair(b / 0x100_0000 % 256);
    lemma_pair(b / 0x1_0000 % 256);
    lemma_pair(b / 0x100 % 256);
    lemma_pair(b % 256);
}

proof fn lemma_pair(n: int)
    requires
        0 <= n < 256,
    ensures
        crate::text::hex_octet(n).len() == 2,
        hex_value(crate::text::hex_octet(n)[0]) * 16 + hex_value(crate::text::hex_octet(n)[1]) == n,
        0 <= hex_value(crate::text::hex_octet(n)[0]) < 16,
        0 <= hex_value(crate::text::hex_octet(n)[1]) < 16,
{
    lemma_hex_value(n / 16);
    lemma_hex_value(n % 16);
}

/// A line of the table names the machine, its address, and whether the lease has run out.
pub proof fn law_lines_tell_valid_from_expired(mac: u64, lease: LeaseView, now: Instant)
    ensures
        lease_line(mac, lease, now) == "  "@ + mac_text(mac) + " -> "@ + ipv4_text(
            lease.address.bits,
        ) + if now.ticks < lease.valid_until.ticks {
            " (valid)"@
        } else {
            " (expired)"@
        },
{
}

/// What is said when a lease is learned or ends.
pub proof fn law_events_name_the_machine(mac: EthernetAddress, address: Ipv4Address)
    ensures
        event_text((LeaseEvent::Learned { mac: mac, address: address }))
            == "DHCP global lease learned: "@ + mac_text(mac.bits) + " -> "@ + ipv4_text(
            address.bits,
        ),
        event_text((LeaseEvent::Removed { mac: mac })) == "DHCP global lease removed: "@ + mac_text(
            mac.bits,
        ),
{
}

/// A frame starts with the address it goes to, the address it comes from and its type.
pub proof fn law_frames_start_with_their_destination(f: EthernetFrame, b: Seq<u8>)
    ensures
        is_frame(f, b) <==> b.len() >= 14 && f.dst_addr.bits == be48(b, 0) && f.src_addr.bits
            == be48(b, 6) && f.ethertype == be16(b, 12) && f.payload@ == b.subrange(
            14,
            b.len() as int,
        ),
{
}

/// A segment opens a connection if SYN is the only one of its flags SYN, ACK, FIN and RST.
pub proof fn law_only_a_bare_syn_opens(t: TcpSegment)
    ensures
        t.opens() <==> t.syn && !t.ack && !t.fin && !t.rst,
{
}

/// The control socket has its turn after every 128 packets.
pub proof fn law_a_turn_has_128_packets(turn: PacketTurn)
    ensures
        turn.wf() <==> turn.packets_read < 128,
{
}

/// A message whose hardware address does not fit into its field counts as none; any other counts as
/// it is decoded once its options fit.
pub proof fn law_hardware_addresses_fit_their_field(bytes: Seq<u8>)
    ensures
        bytes.len() > 2 && bytes[2] > 16 ==> client_message(bytes) is None,
        bytes.len() <= 2 || bytes[2] <= 16 ==> client_message(bytes) == dhcp_message(tamed(bytes)),
{
}

/// The lengths that the decoder insists on: none for code 80, at least three for 81, three for 94,
/// and four for 152 to 155.
pub proof fn law_lengths_that_are_insisted_on(code: u8, len: int)
    ensures
        length_fits(code, len) <==> {
            &&& code == 80 ==> len == 0
            &&& code == 81 ==> len >= 3
            &&& code == 94 ==> len == 3
            &&& code == 152 || code == 153 || code == 154 || code == 155 ==> len == 4
        },
{
}

/// An option is as long as its length byte says, together with the neighbours of the same code.
pub proof fn law_neighbours_are_joined(bytes: Seq<u8>, at: int)
    requires
        0 <= at,
        at + 1 < bytes.len(),
        at + 2 + bytes[at + 1] <= bytes.len(),
    ensures
        ({
            let code = bytes[at];
            let next = at + 2 + bytes[at + 1];
            let run = run_at(bytes, at, code);
            &&& is_whole(bytes, at)
            &&& piece_end(bytes, at) == next
            &&& next >= bytes.len() || bytes[next] != code ==> run.whole && run.end == next && run.len
                == bytes[at + 1]
            &&& next < bytes.len() && bytes[next] == code ==> {
                let rest = run_at(bytes, next, code);
                run.whole == rest.whole && run.end == rest.end && run.len == bytes[at + 1] + rest.len
            }
        }),
{
    reveal_with_fuel(run_at, 2);
}

/// An option that fits stays as it is. One that is too long, and one of code 80 that is not empty, is
/// given the code 254, under which it is passed over. At one that is too short the options end.
/// What lies before is not touched.
pub proof fn law_options_are_made_to_fit(bytes: Seq<u8>, at: int)
    requires
        0 <= at < bytes.len(),
        bytes[at] != 0,
        bytes[at] != 255,
        run_at(bytes, at, bytes[at]).whole,
    ensures
        ({
            let code = bytes[at];
            let len = run_at(bytes, at, code).len;
            let end = run_at(bytes, at, code).end;
            let t = tamed_from(bytes, at);
            let time = 152 <= code <= 155;
            let too_long = (code == 80 && len > 0) || (code == 94 && len > 3) || (time && len > 4);
            let too_short = (code == 81 && len < 3) || (code == 94 && len < 3) || (time && len < 4);
            &&& t.len() == bytes.len()
            &&& forall|i: int| 0 <= i < at ==> #[trigger] t[i] == bytes[i]
            &&& too_long ==> t[at] == 254 && t[at + 1] == bytes[at + 1]
            &&& too_short ==> t == bytes.update(at, 255)
            &&& !too_long && !too_short ==> t == tamed_from(bytes, end) && t[at] == code
        }),
{
    crate::dhcp_options::lemma_tamed_keeps_rest(bytes, at);
    crate::dhcp_options::law_run_advances(bytes, at);
    let code = bytes[at];
    let run = run_at(bytes, at, code);
    crate::dhcp_options::lemma_run_bounds(bytes, at, code);
    crate::dhcp_options::lemma_tamed_keeps_rest(bytes, run.end);
    let x = crate::dhcp_options::recoded(bytes, at, run.end);
    crate::dhcp_options::lemma_recoded_first(bytes, at, run.end);
    let one = bytes.update(at, 254);
    crate::dhcp_options::lemma_recoded_keeps_rest(one, piece_end(bytes, at), run.end);
    crate::dhcp_options::lemma_tamed_keeps_rest(x, run.end);
    crate::dhcp_options::lemma_run_bounds(bytes, piece_end(bytes, at), code);
    assert(x[at + 1] == bytes[at + 1]);
}

/// Behind a pad the options go on, and behind the end nothing is looked at.
pub proof fn law_pads_and_ends(bytes: Seq<u8>, at: int)
    requires
        0 <= at,
    ensures
        at >= bytes.len() || bytes[at] == 255 ==> tamed_from(bytes, at) == bytes,
        at < bytes.len() && bytes[at] == 0 ==> tamed_from(bytes, at) == tamed_from(bytes, at + 1),
        tamed(bytes) == tamed_from(bytes, 240),
{
}

} // verus!
