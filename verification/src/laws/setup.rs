//! What is decided when the program starts: the gateway, the descriptors, the command line.

use crate::addr::{EthernetAddress, Ipv4Address};
use crate::cli::{fd_outcome, tag_of, tags_of};
use crate::descriptor::{error_text, flaw, DescriptorError, Probe, Role, SocketNumbers};
use crate::host::{
    ambiguous_gateway, has_gateway, host_error_text, is_gateway_mac, is_mac_outcome, names_gateway,
    HostError, Interface,
};
use crate::text::{char_at, ipv4_text, signed_decimal};
use vstd::prelude::*;

verus! {

/// The interface has the address.
pub open spec fn has_address(iface: Interface, ip: Ipv4Address) -> bool {
    exists|k: int| 0 <= k < iface.addresses@.len() && iface.addresses@[k] == ip
}

/// The gateway's hardware address is that of an interface with the gateway's address.
pub proof fn law_the_gateway_is_found_by_its_address(
    ifaces: Seq<Interface>,
    ip: Ipv4Address,
    mac: EthernetAddress,
)
    ensures
        is_gateway_mac(ifaces, ip, mac) <==> exists|i: int|
            0 <= i < ifaces.len() && has_address(#[trigger] ifaces[i], ip) && ifaces[i].mac == Some(
                mac,
            ),
{
    if is_gateway_mac(ifaces, ip, mac) {
        let i = choose|i: int|
            0 <= i < ifaces.len() && #[trigger] names_gateway(ifaces[i], ip) && ifaces[i].mac
                == Some(mac);
        assert(has_address(ifaces[i], ip));
    }
    if exists|i: int|
        0 <= i < ifaces.len() && has_address(#[trigger] ifaces[i], ip) && ifaces[i].mac == Some(mac) {
        let i = choose|i: int|
            0 <= i < ifaces.len() && has_address(#[trigger] ifaces[i], ip) && ifaces[i].mac == Some(
                mac,
            );
        let k = choose|k: int| 0 <= k < ifaces[i].addresses@.len() && ifaces[i].addresses@[k] == ip;
        assert(ifaces[i].addresses@.contains(ip));
        assert(names_gateway(ifaces[i], ip));
    }
}

/// Two interfaces with the gateway's address, the first of which gives its hardware address, leave the
/// gateway in doubt; without two such interfaces there is no doubt.
pub proof fn law_two_gateways_are_one_too_many(ifaces: Seq<Interface>, ip: Ipv4Address)
    ensures
        ambiguous_gateway(ifaces, ip) <==> exists|i: int, j: int|
            0 <= i < j < ifaces.len() && has_address(#[trigger] ifaces[i], ip) && ifaces[i].mac
                is Some && has_address(#[trigger] ifaces[j], ip),
{
    if ambiguous_gateway(ifaces, ip) {
        let (i, j) = choose|i: int, j: int|
            0 <= i < j < ifaces.len() && #[trigger] names_gateway(ifaces[i], ip)
                && #[trigger] has_gateway(ifaces[j], ip);
        assert(has_address(ifaces[i], ip) && has_address(ifaces[j], ip));
    }
    if exists|i: int, j: int|
        0 <= i < j < ifaces.len() && has_address(#[trigger] ifaces[i], ip) && ifaces[i].mac is Some
            && has_address(#[trigger] ifaces[j], ip) {
        let (i, j) = choose|i: int, j: int|
            0 <= i < j < ifaces.len() && has_address(#[trigger] ifaces[i], ip) && ifaces[i].mac
                is Some && has_address(#[trigger] ifaces[j], ip);
        let k = choose|k: int| 0 <= k < ifaces[i].addresses@.len() && ifaces[i].addresses@[k] == ip;
        let l = choose|l: int| 0 <= l < ifaces[j].addresses@.len() && ifaces[j].addresses@[l] == ip;
        assert(ifaces[i].addresses@.contains(ip) && ifaces[j].addresses@.contains(ip));
        assert(names_gateway(ifaces[i], ip) && has_gateway(ifaces[j], ip));
    }
}

/// The gateway's hardware address is looked for where there are peers, and only there.
pub proof fn law_the_gateway_is_looked_for_with_peers(
    has_peers: bool,
    ifaces: Seq<Interface>,
    ip: Ipv4Address,
    mac: Option<EthernetAddress>,
)
    ensures
        !has_peers ==> (is_mac_outcome(has_peers, ifaces, ip, mac) <==> mac is None),
        has_peers ==> (is_mac_outcome(has_peers, ifaces, ip, mac) <==> !ambiguous_gateway(
            ifaces,
            ip,
        ) && (mac matches Some(m) && is_gateway_mac(ifaces, ip, m))),
{
}

/// What is said when the host's side cannot be set up.
pub proof fn law_host_errors_say_what_is_missing(ip: Ipv4Address)
    ensures
        host_error_text(HostError::NoStartAddress)
            == "failed to retrieve vmnet's interface start address"@,
        host_error_text(HostError::BadStartAddress)
            == "failed to parse vmnet's interface start address"@,
        host_error_text(HostError::ManyGatewayInterfaces(ip))
            == "cannot enforce peers: multiple host interfaces have vmnet gateway IP "@ + ipv4_text(
            ip.bits,
        ),
        host_error_text(HostError::NoGatewayInterface(ip))
            == "cannot enforce peers: no host interface has vmnet gateway IP "@ + ipv4_text(ip.bits),
        host_error_text(HostError::NoMaxPacketSize)
            == "failed to retrieve vmnet's interface max packet size"@,
        host_error_text(HostError::NoReadMaxPackets)
            == "failed to retrieve vmnet's interface read max packets"@,
{
}

/// A descriptor serves for the virtual machine exactly if it is open and a datagram socket of the
/// Unix family.
pub proof fn law_machines_use_unix_datagram_sockets(numbers: SocketNumbers, probe: Probe)
    ensures
        flaw(Role::Vm, numbers, probe) is None <==> probe.open && probe.socket_type == Some(
            numbers.datagram,
        ) && (probe.address matches Some(a) && a.family == numbers.unix_family),
{
}

/// A descriptor serves for the control socket exactly if it is a connected stream socket of the Unix
/// family or without a name.
pub proof fn law_control_uses_connected_unix_streams(numbers: SocketNumbers, probe: Probe)
    ensures
        flaw(Role::Control, numbers, probe) is None <==> probe.socket_type == Some(numbers.stream)
            && (probe.address matches Some(a) && (a.len == 0 || a.family == numbers.unix_family))
            && probe.connected,
{
}

/// What keeps a descriptor from being used is the first of these: it is not open, no socket, of the
/// wrong type, without an address, not of the Unix family, or not connected. Whether it is open
/// matters for the virtual machine only, and whether it is connected for the control socket only.
pub proof fn law_the_first_flaw_is_reported(role: Role, numbers: SocketNumbers, probe: Probe)
    ensures
        ({
            let wanted = if role is Vm {
                numbers.datagram
            } else {
                numbers.stream
            };
            let f = flaw(role, numbers, probe);
            let opened = role is Control || probe.open;
            &&& f == Some(DescriptorError::NotOpen) <==> !opened
            &&& f == Some(DescriptorError::NotASocket) <==> opened && probe.socket_type is None
            &&& f == Some(DescriptorError::WrongType) <==> opened && (probe.socket_type matches Some(
                t,
            ) && t != wanted)
            &&& f == Some(DescriptorError::NoAddress) <==> opened && probe.socket_type == Some(
                wanted,
            ) && probe.address is None
            &&& f == Some(DescriptorError::NotUnix) <==> opened && probe.socket_type == Some(wanted)
                && (probe.address matches Some(a) && a.family != numbers.unix_family && (role is Vm
                || a.len != 0))
            &&& f == Some(DescriptorError::NotConnected) <==> role is Control && probe.socket_type
                == Some(wanted) && (probe.address matches Some(a) && (a.family
                == numbers.unix_family || a.len == 0)) && !probe.connected
            &&& f != Some(DescriptorError::Negative)
            &&& f != Some(DescriptorError::NotDuplicated)
        }),
{
}

/// What is said of a descriptor that cannot be used names it by its number.
pub proof fn law_descriptor_errors_name_the_descriptor(fd: i32)
    ensures
        ({
            let n = signed_decimal(fd as int);
            let vm = "VM file descriptor "@ + n;
            let control = "control file descriptor "@ + n;
            &&& error_text(Role::Vm, fd, DescriptorError::Negative) == "invalid "@ + vm
                + ": value must be non-negative"@
            &&& error_text(Role::Vm, fd, DescriptorError::NotOpen) == "failed to inspect "@ + vm
            &&& error_text(Role::Vm, fd, DescriptorError::NotASocket) == vm + " is not a socket"@
            &&& error_text(Role::Vm, fd, DescriptorError::WrongType) == vm
                + " is not a Unix datagram socket"@
            &&& error_text(Role::Vm, fd, DescriptorError::NoAddress)
                == "failed to inspect the address family of "@ + vm
            &&& error_text(Role::Vm, fd, DescriptorError::NotUnix) == vm + " is not a Unix socket"@
            &&& error_text(Role::Control, fd, DescriptorError::Negative) == "invalid "@ + control
                + ": value must be non-negative"@
            &&& error_text(Role::Control, fd, DescriptorError::NotDuplicated)
                == "failed to duplicate "@ + control
            &&& error_text(Role::Control, fd, DescriptorError::NotASocket) == control
                + " is not a socket"@
            &&& error_text(Role::Control, fd, DescriptorError::WrongType) == control
                + " is not a Unix stream socket"@
            &&& error_text(Role::Control, fd, DescriptorError::NoAddress)
                == "failed to inspect the address family of "@ + control
            &&& error_text(Role::Control, fd, DescriptorError::NotUnix) == control
                + " is not a Unix socket"@
            &&& error_text(Role::Control, fd, DescriptorError::NotConnected) == control
                + " is not a connected Unix stream socket"@
        }),
{
    reveal_strlit("");
    let n = signed_decimal(fd as int);
    let vm = "VM file descriptor "@;
    let control = "control file descriptor "@;
    assert(""@ =~= Seq::<char>::empty());
    assert(error_text(Role::Vm, fd, DescriptorError::Negative) =~= "invalid "@ + (vm + n)
        + ": value must be non-negative"@);
    assert(error_text(Role::Vm, fd, DescriptorError::NotOpen) =~= "failed to inspect "@ + (vm + n));
    assert(error_text(Role::Vm, fd, DescriptorError::NotASocket) =~= (vm + n)
        + " is not a socket"@);
    assert(error_text(Role::Vm, fd, DescriptorError::WrongType) =~= (vm + n)
        + " is not a Unix datagram socket"@);
    assert(error_text(Role::Vm, fd, DescriptorError::NoAddress)
        =~= "failed to inspect the address family of "@ + (vm + n));
    assert(error_text(Role::Vm, fd, DescriptorError::NotUnix) =~= (vm + n)
        + " is not a Unix socket"@);
    assert(error_text(Role::Control, fd, DescriptorError::Negative) =~= "invalid "@ + (control + n)
        + ": value must be non-negative"@);
    assert(error_text(Role::Control, fd, DescriptorError::NotDuplicated)
        =~= "failed to duplicate "@ + (control + n));
    assert(error_text(Role::Control, fd, DescriptorError::NotASocket) =~= (control + n)
        + " is not a socket"@);
    assert(error_text(Role::Control, fd, DescriptorError::WrongType) =~= (control + n)
        + " is not a Unix stream socket"@);
    assert(error_text(Role::Control, fd, DescriptorError::NoAddress)
        =~= "failed to inspect the address family of "@ + (control + n));
    assert(error_text(Role::Control, fd, DescriptorError::NotUnix) =~= (control + n)
        + " is not a Unix socket"@);
    assert(error_text(Role::Control, fd, DescriptorError::NotConnected) =~= (control + n)
        + " is not a connected Unix stream socket"@);
}

/// A number on the command line names a descriptor if it is not negative.
pub proof fn law_descriptors_are_not_negative(n: i32, complaint: Seq<char>)
    ensures
        n >= 0 ==> fd_outcome(Ok(n)) == Ok::<i32, Seq<char>>(n),
        n < 0 ==> fd_outcome(Ok(n)) == Err::<i32, Seq<char>>(
            "file descriptor must be non-negative"@,
        ),
        fd_outcome(Err(complaint)) == Err::<i32, Seq<char>>(
            "invalid file descriptor: "@ + complaint,
        ),
{
}

/// The character does not occur in the text.
pub open spec fn lacks(text: Seq<char>, c: char) -> bool {
    forall|i: int| 0 <= i < text.len() ==> text[i] != c
}

proof fn lemma_char_at(text: Seq<char>, c: char, from: int, at: int)
    requires
        0 <= from <= at <= text.len(),
        forall|i: int| from <= i < at ==> text[i] != c,
        at < text.len() ==> text[at] == c,
    ensures
        char_at(text, c, from) == at,
    decreases at - from,
{
    if from < at {
        lemma_char_at(text, c, from + 1, at);
    }
}

/// A tag is what stands before the first equals sign and what stands behind it; a text without one
/// is no tag.
pub proof fn law_tags_are_split_at_the_equals_sign(name: Seq<char>, value: Seq<char>)
    requires
        lacks(name, '='),
    ensures
        tag_of(name.push('=') + value) == seq![(name, value)],
        tag_of(name) == Seq::<(Seq<char>, Seq<char>)>::empty(),
{
    let text = name.push('=') + value;
    assert(text[name.len() as int] == '=');
    assert forall|i: int| 0 <= i < name.len() implies text[i] != '=' by {
        assert(text[i] == name[i]);
    }
    lemma_char_at(text, '=', 0, name.len() as int);
    lemma_char_at(name, '=', 0, name.len() as int);
    assert(text.take(name.len() as int) =~= name);
    assert(text.skip(name.len() as int + 1) =~= value);
}

/// Tags are listed with commas between them, and read in order.
pub proof fn law_tags_are_listed_with_commas(first: Seq<char>, rest: Seq<char>)
    requires
        lacks(first, ','),
    ensures
        tags_of(first) == tag_of(first),
        tags_of(first.push(',') + rest) == tag_of(first) + tags_of(rest),
{
    let text = first.push(',') + rest;
    assert(text[first.len() as int] == ',');
    assert forall|i: int| 0 <= i < first.len() implies text[i] != ',' by {
        assert(text[i] == first[i]);
    }
    lemma_char_at(text, ',', 0, first.len() as int);
    lemma_char_at(first, ',', 0, first.len() as int);
    assert(text.take(first.len() as int) =~= first);
    assert(text.skip(first.len() as int + 1) =~= rest);
}

} // verus!
