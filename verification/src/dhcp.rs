//! DHCP messages, decoded by `dhcproto` and held as plain values.

use crate::addr::{be32, be48, EthernetAddress, Ipv4Address};
use crate::dhcp_options::{law_fitting_message_is_kept, law_tamed_fits, options_fit, tame, tamed};
use dhcproto::v4::DhcpOption::{AddressLeaseTime, DomainNameServer};
use dhcproto::v4::{Decoder, Message, OptionCode};
use dhcproto::Decodable;
use vstd::prelude::*;

verus! {

pub const BOOT_REQUEST: u8 = 1;

pub const BOOT_REPLY: u8 = 2;

pub const HTYPE_ETHERNET: u8 = 1;

/// The room that a message has for a hardware address.
pub const MAX_HARDWARE_LEN: u8 = 16;

pub const MESSAGE_ACK: u8 = 5;

pub const MESSAGE_NAK: u8 = 6;

/// A decoded message.
#[derive(Debug)]
pub struct DhcpMessage {
    pub opcode: u8,
    pub htype: u8,
    pub chaddr: Vec<u8>,
    pub yiaddr: Ipv4Address,
    pub msg_type: Option<u8>,
    pub lease_time: Option<u32>,
    pub dns_servers: Vec<u32>,
}

/// A decoded message, seen from outside.
pub struct DhcpMessageView {
    pub opcode: u8,
    pub htype: u8,
    pub chaddr: Seq<u8>,
    pub yiaddr: Ipv4Address,
    pub msg_type: Option<u8>,
    pub lease_time: Option<u32>,
    pub dns_servers: Seq<u32>,
}

impl View for DhcpMessage {
    type V = DhcpMessageView;

    open spec fn view(&self) -> DhcpMessageView {
        DhcpMessageView {
            opcode: self.opcode,
            htype: self.htype,
            chaddr: self.chaddr@,
            yiaddr: self.yiaddr,
            msg_type: self.msg_type,
            lease_time: self.lease_time,
            dns_servers: self.dns_servers@,
        }
    }
}

pub open spec fn opt_message_view(m: Option<DhcpMessage>) -> Option<DhcpMessageView> {
    match m {
        Some(m) => Some(m@),
        None => None,
    }
}

/// What decoding a message gives.
pub uninterp spec fn dhcp_message(bytes: Seq<u8>) -> Option<DhcpMessageView>;

/// The hardware address that the message announces fits into it.
pub open spec fn hardware_len_fits(bytes: Seq<u8>) -> bool {
    bytes.len() > 2 ==> bytes[2] <= 16
}

/// The fixed fields of a message lie at fixed offsets.
pub open spec fn has_fixed_fields(m: DhcpMessageView, bytes: Seq<u8>) -> bool {
    &&& bytes.len() >= 44
    &&& m.opcode == bytes[0]
    &&& m.htype == bytes[1]
    &&& m.yiaddr.bits == be32(bytes, 16)
    &&& m.chaddr == bytes.subrange(28, 28 + bytes[2])
}

/// `<dhcproto::v4::Message as dhcproto::Decodable>::decode` and the message's accessors. What
/// the options hold depends on the bytes alone; the fixed fields are read from their
/// places. The accessor of the hardware address panics where the announced length exceeds 16, and
/// the decoder, where debug assertions are on, at an option whose value has not the length that it
/// expects.
#[verifier::external_body]
fn read_message(bytes: &[u8]) -> (r: Option<DhcpMessage>)
    requires
        hardware_len_fits(bytes@),
        options_fit(bytes@, 240),
    ensures
        opt_message_view(r) == dhcp_message(bytes@),
        r matches Some(m) ==> has_fixed_fields(m@, bytes@),
{
    let m = Message::decode(&mut Decoder::new(bytes)).ok()?;
    let o = m.opts();
    let mut r = DhcpMessage {
        opcode: m.opcode().into(), htype: m.htype().into(), chaddr: m.chaddr().to_vec(),
        yiaddr: Ipv4Address { bits: m.yiaddr().into() }, msg_type: o.msg_type().map(Into::into),
        lease_time: None, dns_servers: Vec::new(),
    };
    if let Some(AddressLeaseTime(secs)) = o.get(OptionCode::AddressLeaseTime) {
        r.lease_time = Some(*secs);
    }
    if let Some(DomainNameServer(ips)) = o.get(OptionCode::DomainNameServer) {
        r.dns_servers = ips.iter().map(|ip| ip.to_bits()).collect();
    }
    Some(r)
}

/// A message from a client that can be told apart: one whose hardware address does not fit is
/// as good as none. Options whose lengths the decoder does not expect are made to fit first.
pub open spec fn client_message(bytes: Seq<u8>) -> Option<DhcpMessageView> {
    if hardware_len_fits(bytes) {
        dhcp_message(tamed(bytes))
    } else {
        None
    }
}

impl DhcpMessage {
    /// Decodes a message, unless its hardware address does not fit into it.
    pub fn decode(bytes: &[u8]) -> (r: Option<DhcpMessage>)
        ensures
            opt_message_view(r) == client_message(bytes@),
            r matches Some(m) ==> has_fixed_fields(m@, bytes@),
    {
        if bytes.len() > 2 && bytes[2] > MAX_HARDWARE_LEN {
            return None;
        }
        let fitting = tame(bytes);
        proof {
            law_tamed_fits(bytes@);
        }
        assert(bytes@.len() >= 44 ==> fitting@.subrange(28, 28 + fitting@[2]) =~= bytes@.subrange(
            28,
            28 + bytes@[2],
        ));
        read_message(fitting.as_slice())
    }
}

/// A message whose options have the lengths that the decoder expects is decoded as it is.
pub proof fn law_fitting_message_is_decoded(bytes: Seq<u8>)
    requires
        hardware_len_fits(bytes),
        options_fit(bytes, 240),
    ensures
        client_message(bytes) == dhcp_message(bytes),
{
    law_fitting_message_is_kept(bytes);
}

/// The message is of the given kind and about the given Ethernet client.
pub open spec fn is_for_client(m: DhcpMessageView, opcode: u8, mac: EthernetAddress) -> bool {
    &&& m.opcode == opcode
    &&& m.htype == HTYPE_ETHERNET
    &&& m.chaddr.len() == 6
    &&& be48(m.chaddr, 0) == mac.bits
}

/// The six octets at the start of a sequence, as one number.
pub(crate) fn mac_of(octets: &Vec<u8>) -> (r: Option<EthernetAddress>)
    ensures
        r == if octets@.len() == 6 {
            Some(EthernetAddress { bits: be48(octets@, 0) as u64 })
        } else {
            None
        },
        r matches Some(mac) ==> mac.wf() && mac.bits == be48(octets@, 0),
{
    if octets.len() == 6 {
        let array = [octets[0], octets[1], octets[2], octets[3], octets[4], octets[5]];
        let mac = EthernetAddress::new(array);
        assert(be48(array@, 0) == be48(octets@, 0));
        Some(mac)
    } else {
        None
    }
}

/// Whether a message is of the given kind and about the given client.
pub fn message_matches_bootp_client(
    message: &DhcpMessage,
    opcode: u8,
    mac: EthernetAddress,
) -> (r: bool)
    ensures
        r == is_for_client(message@, opcode, mac),
{
    if message.opcode != opcode || message.htype != HTYPE_ETHERNET {
        return false;
    }
    match mac_of(&message.chaddr) {
        Some(client) => client == mac,
        None => false,
    }
}

} // verus!
