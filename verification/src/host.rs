//! What is asked of the host's side of the network, and what it answers.

use crate::addr::{EthernetAddress, Ipv4Address};
use crate::text::{ipv4_text, push_ipv4};
use vstd::prelude::*;

verus! {

/// The kinds of network a virtual machine can be attached to.
#[derive(Clone, Copy, Debug, PartialEq, Eq, Structural)]
pub enum NetType {
    /// Shared network: guests reach the global network through address translation.
    Nat,
    /// Host network: guests reach the host only.
    Host,
}

/// An interface of the host: its IPv4 addresses and its hardware address, if it has one.
#[derive(Debug)]
pub struct Interface {
    pub addresses: Vec<Ipv4Address>,
    pub mac: Option<EthernetAddress>,
}

/// The first address of the network, as the host reports it.
#[derive(Clone, Copy, Debug, PartialEq, Eq, Structural)]
pub enum StartAddress {
    Missing,
    Unparsable,
    Parsed(Ipv4Address),
}

/// `<Ipv4Addr as FromStr>::from_str`: accepts the four octets in decimal, divided by dots, and
/// nothing else.
#[verifier::external_body]
fn parse_address(text: &str) -> (r: Option<u32>)
    ensures
        match r {
            Some(bits) => text@ == ipv4_text(bits),
            None => forall|bits: u32| text@ != #[trigger] ipv4_text(bits),
        },
{
    text.parse::<smoltcp::wire::Ipv4Address>().ok().map(|a| a.to_bits())
}

impl StartAddress {
    /// Reads the address that the host has reported, if it has reported one.
    pub fn read(text: Option<&str>) -> (r: StartAddress)
        ensures
            match text {
                None => r == StartAddress::Missing,
                Some(text) => match r {
                    StartAddress::Parsed(address) => text@ == ipv4_text(address.bits),
                    StartAddress::Unparsable => forall|bits: u32|
                        text@ != #[trigger] ipv4_text(bits),
                    StartAddress::Missing => false,
                },
            },
    {
        match text {
            None => StartAddress::Missing,
            Some(text) => match parse_address(text) {
                Some(bits) => StartAddress::Parsed(Ipv4Address { bits }),
                None => StartAddress::Unparsable,
            },
        }
    }
}

/// What the host side needs to know to forward frames.
#[derive(Clone, Copy, Debug, PartialEq, Eq, Structural)]
pub struct Host {
    pub gateway_ip: Ipv4Address,
    pub gateway_mac: Option<EthernetAddress>,
    pub max_packet_size: u64,
    pub read_max_packets: u64,
}

/// Why the host side cannot be set up.
#[derive(Clone, Copy, Debug, PartialEq, Eq, Structural)]
pub enum HostError {
    NoStartAddress,
    BadStartAddress,
    ManyGatewayInterfaces(Ipv4Address),
    NoGatewayInterface(Ipv4Address),
    NoMaxPacketSize,
    NoReadMaxPackets,
}

/// Bridge isolation is on unless everything is allowed or there are peers to talk to.
pub fn enable_isolation(zero_cidr_allowed: bool, has_peers: bool) -> (r: bool)
    ensures
        r == (!zero_cidr_allowed && !has_peers),
{
    !zero_cidr_allowed && !has_peers
}

/// The interface carries the gateway's address.
pub open spec fn has_gateway(iface: Interface, gateway_ip: Ipv4Address) -> bool {
    iface.addresses@.contains(gateway_ip)
}

/// The interface carries the gateway's address and gives its hardware address.
pub open spec fn names_gateway(iface: Interface, gateway_ip: Ipv4Address) -> bool {
    has_gateway(iface, gateway_ip) && iface.mac is Some
}

/// After an interface that gives the gateway's hardware address, another one carries the
/// gateway's address.
pub open spec fn ambiguous_gateway(ifaces: Seq<Interface>, gateway_ip: Ipv4Address) -> bool {
    exists|i: int, j: int|
        0 <= i < j < ifaces.len() && #[trigger] names_gateway(ifaces[i], gateway_ip)
            && #[trigger] has_gateway(ifaces[j], gateway_ip)
}

/// `mac` is the hardware address of an interface that carries the gateway's address.
pub open spec fn is_gateway_mac(
    ifaces: Seq<Interface>,
    gateway_ip: Ipv4Address,
    mac: EthernetAddress,
) -> bool {
    exists|i: int|
        0 <= i < ifaces.len() && #[trigger] names_gateway(ifaces[i], gateway_ip)
            && ifaces[i].mac == Some(mac)
}

fn carries(iface: &Interface, gateway_ip: Ipv4Address) -> (r: bool)
    ensures
        r == has_gateway(*iface, gateway_ip),
{
    let mut i: usize = 0;
    while i < iface.addresses.len()
        invariant
            i <= iface.addresses.len(),
            forall|j: int| 0 <= j < i ==> iface.addresses@[j] != gateway_ip,
        decreases iface.addresses.len() - i,
    {
        if iface.addresses[i] == gateway_ip {
            return true;
        }
        i = i + 1;
    }
    false
}

/// Finds the gateway's hardware address among the host's interfaces. There must be one, and
/// no interface after it may carry the same address.
pub fn gateway_mac(ifaces: &Vec<Interface>, gateway_ip: Ipv4Address) -> (r: Result<
    EthernetAddress,
    HostError,
>)
    ensures
        match r {
            Ok(mac) => !ambiguous_gateway(ifaces@, gateway_ip) && is_gateway_mac(
                ifaces@,
                gateway_ip,
                mac,
            ),
            Err(e) => {
                ||| e == HostError::ManyGatewayInterfaces(gateway_ip) && ambiguous_gateway(
                    ifaces@,
                    gateway_ip,
                )
                ||| e == HostError::NoGatewayInterface(gateway_ip) && !ambiguous_gateway(
                    ifaces@,
                    gateway_ip,
                ) && forall|mac: EthernetAddress| !is_gateway_mac(ifaces@, gateway_ip, mac)
            },
        },
{
    let mut found: Option<EthernetAddress> = None;
    let mut i: usize = 0;
    while i < ifaces.len()
        invariant
            i <= ifaces.len(),
            !ambiguous_gateway(ifaces@.take(i as int), gateway_ip),
            forall|a: int, b: int|
                0 <= a < b < i && #[trigger] names_gateway(ifaces@[a], gateway_ip)
                    ==> !#[trigger] has_gateway(ifaces@[b], gateway_ip),
            match found {
                Some(mac) => exists|a: int|
                    0 <= a < i && #[trigger] names_gateway(ifaces@[a], gateway_ip)
                        && ifaces@[a].mac == Some(mac),
                None => forall|a: int|
                    0 <= a < i ==> !#[trigger] names_gateway(ifaces@[a], gateway_ip),
            },
        decreases ifaces.len() - i,
    {
        if carries(&ifaces[i], gateway_ip) {
            if found.is_some() {
                return Err(HostError::ManyGatewayInterfaces(gateway_ip));
            }
            if let Some(mac) = ifaces[i].mac {
                found = Some(mac);
                assert(names_gateway(ifaces@[i as int], gateway_ip));
            }
        }
        i = i + 1;
    }
    match found {
        Some(mac) => Ok(mac),
        None => Err(HostError::NoGatewayInterface(gateway_ip)),
    }
}

/// The outcome of looking for the gateway's hardware address, which is done for peers only.
pub open spec fn is_mac_outcome(
    has_peers: bool,
    ifaces: Seq<Interface>,
    gateway_ip: Ipv4Address,
    mac: Option<EthernetAddress>,
) -> bool {
    if has_peers {
        &&& !ambiguous_gateway(ifaces, gateway_ip)
        &&& mac is Some
        &&& is_gateway_mac(ifaces, gateway_ip, mac->0)
    } else {
        mac is None
    }
}

impl Host {
    /// Puts together what the host reported. The first thing that is missing decides the error.
    pub fn new(
        start_address: StartAddress,
        has_peers: bool,
        ifaces: &Vec<Interface>,
        max_packet_size: Option<u64>,
        read_max_packets: Option<u64>,
    ) -> (r: Result<Host, HostError>)
        ensures
            match start_address {
                StartAddress::Missing => r == Err::<Host, _>(HostError::NoStartAddress),
                StartAddress::Unparsable => r == Err::<Host, _>(HostError::BadStartAddress),
                StartAddress::Parsed(ip) => if has_peers && ambiguous_gateway(ifaces@, ip) {
                    r == Err::<Host, _>(HostError::ManyGatewayInterfaces(ip))
                } else if has_peers && forall|mac: EthernetAddress|
                    !is_gateway_mac(ifaces@, ip, mac) {
                    r == Err::<Host, _>(HostError::NoGatewayInterface(ip))
                } else if max_packet_size is None {
                    r == Err::<Host, _>(HostError::NoMaxPacketSize)
                } else if read_max_packets is None {
                    r == Err::<Host, _>(HostError::NoReadMaxPackets)
                } else {
                    &&& r matches Ok(c)
                    &&& c.gateway_ip == ip
                    &&& is_mac_outcome(has_peers, ifaces@, ip, c.gateway_mac)
                    &&& Some(c.max_packet_size) == max_packet_size
                    &&& Some(c.read_max_packets) == read_max_packets
                },
            },
    {
        let gateway_ip = match start_address {
            StartAddress::Missing => {
                return Err(HostError::NoStartAddress);
            },
            StartAddress::Unparsable => {
                return Err(HostError::BadStartAddress);
            },
            StartAddress::Parsed(ip) => ip,
        };
        let mut mac: Option<EthernetAddress> = None;
        if has_peers {
            match gateway_mac(ifaces, gateway_ip) {
                Ok(found) => {
                    mac = Some(found);
                },
                Err(e) => {
                    return Err(e);
                },
            }
        }
        match (max_packet_size, read_max_packets) {
            (None, _) => Err(HostError::NoMaxPacketSize),
            (Some(_), None) => Err(HostError::NoReadMaxPackets),
            (Some(max_packet_size), Some(read_max_packets)) => Ok(
                Host { gateway_ip, gateway_mac: mac, max_packet_size, read_max_packets },
            ),
        }
    }
}

/// What is reported for an error.
pub open spec fn host_error_text(e: HostError) -> Seq<char> {
    match e {
        HostError::NoStartAddress => "failed to retrieve vmnet's interface start address"@,
        HostError::BadStartAddress => "failed to parse vmnet's interface start address"@,
        HostError::ManyGatewayInterfaces(ip) =>
        "cannot enforce peers: multiple host interfaces have vmnet gateway IP "@ + ipv4_text(
            ip.bits,
        ),
        HostError::NoGatewayInterface(ip) =>
        "cannot enforce peers: no host interface has vmnet gateway IP "@ + ipv4_text(ip.bits),
        HostError::NoMaxPacketSize => "failed to retrieve vmnet's interface max packet size"@,
        HostError::NoReadMaxPackets => "failed to retrieve vmnet's interface read max packets"@,
    }
}

impl HostError {
    /// The error as text.
    pub fn message(&self) -> (r: String)
        ensures
            r@ == host_error_text(*self),
    {
        match *self {
            HostError::NoStartAddress => String::from_str(
                "failed to retrieve vmnet's interface start address",
            ),
            HostError::BadStartAddress => String::from_str(
                "failed to parse vmnet's interface start address",
            ),
            HostError::ManyGatewayInterfaces(ip) => {
                let mut text = String::from_str(
                    "cannot enforce peers: multiple host interfaces have vmnet gateway IP ",
                );
                push_ipv4(&mut text, ip);
                text
            },
            HostError::NoGatewayInterface(ip) => {
                let mut text = String::from_str(
                    "cannot enforce peers: no host interface has vmnet gateway IP ",
                );
                push_ipv4(&mut text, ip);
                text
            },
            HostError::NoMaxPacketSize => String::from_str(
                "failed to retrieve vmnet's interface max packet size",
            ),
            HostError::NoReadMaxPackets => String::from_str(
                "failed to retrieve vmnet's interface read max packets",
            ),
        }
    }
}

} // verus!
