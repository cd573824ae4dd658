use smoltcp::wire::{
    Icmpv4Message, Icmpv4Packet, IpProtocol, Ipv4Address as WireAddress,
    Ipv4Packet as WirePacket, TcpPacket, UdpPacket,
};
use softnet::addr::Ipv4Address;
use softnet::clock::Instant;
use softnet::proxy::flow_map::{FlowDirection, FlowKey, FlowMap};
use softnet::proxy::flows::{Flow, FlowMatch, FlowTable, PendingFlow, MAX_FLOWS};
use softnet::wire::Ipv4Packet;

const HOST: WireAddress = WireAddress::new(192, 168, 64, 1);
const VM: WireAddress = WireAddress::new(192, 168, 64, 2);

#[derive(Clone, Copy)]
struct TcpFlags {
    syn: bool,
    ack: bool,
}

const SYN: TcpFlags = TcpFlags { syn: true, ack: false };
const SYN_ACK: TcpFlags = TcpFlags { syn: true, ack: true };
const ACK: TcpFlags = TcpFlags { syn: false, ack: true };

fn inspect_from_host(tracker: &mut FlowTable, bytes: &[u8]) -> FlowMatch {
    let packet = Ipv4Packet::new_checked(bytes).unwrap();
    tracker.inspect(&packet, FlowDirection::FromHost)
}

fn inspect_from_vm(tracker: &mut FlowTable, bytes: &[u8]) -> FlowMatch {
    let packet = Ipv4Packet::new_checked(bytes).unwrap();
    tracker.inspect(&packet, FlowDirection::FromVm)
}

fn tcp_packet(
    src_addr: WireAddress,
    src_port: u16,
    dst_addr: WireAddress,
    dst_port: u16,
    flags: TcpFlags,
) -> Vec<u8> {
    let mut bytes = ipv4_packet(src_addr, dst_addr, IpProtocol::Tcp, 20);
    let mut tcp = TcpPacket::new_unchecked(&mut bytes[20..]);
    tcp.set_src_port(src_port);
    tcp.set_dst_port(dst_port);
    tcp.set_header_len(20);
    tcp.set_syn(flags.syn);
    tcp.set_ack(flags.ack);
    tcp.set_rst(false);
    tcp.set_fin(false);
    tcp.set_window_len(u16::MAX);
    bytes
}

fn udp_packet(
    src_addr: WireAddress,
    src_port: u16,
    dst_addr: WireAddress,
    dst_port: u16,
) -> Vec<u8> {
    let mut bytes = ipv4_packet(src_addr, dst_addr, IpProtocol::Udp, 8);
    let mut udp = UdpPacket::new_unchecked(&mut bytes[20..]);
    udp.set_src_port(src_port);
    udp.set_dst_port(dst_port);
    udp.set_len(8);
    bytes
}

fn echo_packet(
    src_addr: WireAddress,
    dst_addr: WireAddress,
    message: Icmpv4Message,
    ident: u16,
    sequence: u16,
) -> Vec<u8> {
    let mut bytes = ipv4_packet(src_addr, dst_addr, IpProtocol::Icmp, 8);
    let mut icmp = Icmpv4Packet::new_unchecked(&mut bytes[20..]);
    icmp.set_msg_type(message);
    icmp.set_msg_code(0);
    icmp.set_echo_ident(ident);
    icmp.set_echo_seq_no(sequence);
    icmp.fill_checksum();
    bytes
}

fn ipv4_packet(
    src_addr: WireAddress,
    dst_addr: WireAddress,
    protocol: IpProtocol,
    payload_len: usize,
) -> Vec<u8> {
    let mut bytes = vec![0; 20 + payload_len];
    let total_len = bytes.len() as u16;
    let mut ipv4 = WirePacket::new_unchecked(bytes.as_mut_slice());
    ipv4.set_version(4);
    ipv4.set_header_len(20);
    ipv4.set_total_len(total_len);
    ipv4.set_next_header(protocol);
    ipv4.set_src_addr(src_addr);
    ipv4.set_dst_addr(dst_addr);
    bytes
}

/// The only flow in a table.
fn only_flow(tracker: &FlowTable) -> (FlowKey, Flow) {
    let keys = tracker.flows.keys();
    assert_eq!(keys.len(), 1);
    (keys[0], tracker.flows.get(keys[0]).unwrap())
}

#[test]
fn all_ipv4_fragments_are_untracked() {
    for (more_fragments, offset) in [(true, 0), (false, 8)] {
        let mut bytes = udp_packet(HOST, 50_000, VM, 53);
        let mut packet = WirePacket::new_unchecked(bytes.as_mut_slice());
        packet.set_frag_offset(offset);
        packet.set_more_frags(more_fragments);

        let mut tracker = FlowTable::new();
        assert!(matches!(
            inspect_from_host(&mut tracker, &bytes),
            FlowMatch::Untracked
        ));
    }
}

#[test]
fn expired_tuple_is_not_matched_before_the_next_sweep() {
    let mut tracker = FlowTable::new();
    let datagram = udp_packet(HOST, 50_000, VM, 53);
    let FlowMatch::Candidate(pending) = inspect_from_host(&mut tracker, &datagram) else {
        panic!("expected a candidate");
    };
    assert!(tracker.commit(pending));

    let now = Instant::recent();
    let (key, mut flow) = only_flow(&tracker);
    flow.expires_at = Instant { ticks: now.ticks.saturating_sub(1 << 32) };
    tracker.flows.insert(key, flow);
    tracker.next_sweep = now.plus_secs(1);

    let reply = udp_packet(VM, 53, HOST, 50_000);
    assert!(matches!(
        tracker.inspect_at(
            &Ipv4Packet::new_checked(reply.as_slice()).unwrap(),
            FlowDirection::FromVm,
            now,
        ),
        FlowMatch::Candidate(_)
    ));
}

#[test]
fn global_limit_rejects_new_tuple_but_allows_replacement() {
    let mut tracker = FlowTable::new();
    for port in 10_000..10_000 + MAX_FLOWS as u16 {
        let datagram = udp_packet(HOST, port, VM, 53);
        let FlowMatch::Candidate(pending) = inspect_from_host(&mut tracker, &datagram) else {
            panic!("expected a candidate");
        };
        assert!(tracker.commit(pending));
    }

    let over_limit = udp_packet(HOST, 50_000, VM, 53);
    let FlowMatch::Candidate(pending) = inspect_from_host(&mut tracker, &over_limit) else {
        panic!("expected a candidate");
    };
    assert!(!tracker.commit(pending));

    let replacement = udp_packet(HOST, 10_000, VM, 53);
    let FlowMatch::Candidate(pending) = inspect_from_host(&mut tracker, &replacement) else {
        panic!("expected a candidate");
    };
    assert!(tracker.commit(pending));
}

#[test]
fn unsupported_protocol_is_untracked() {
    let bytes = ipv4_packet(HOST, VM, IpProtocol::Unknown(253), 0);
    let mut tracker = FlowTable::new();
    assert!(matches!(
        inspect_from_host(&mut tracker, &bytes),
        FlowMatch::Untracked
    ));
}

#[test]
fn echo_request_and_reply_are_tracked_in_both_directions() {
    let mut tracker = FlowTable::new();
    let vm_request = echo_packet(VM, HOST, Icmpv4Message::EchoRequest, 7, 1);

    let FlowMatch::Candidate(pending) = inspect_from_vm(&mut tracker, &vm_request) else {
        panic!("expected a new flow");
    };
    assert!(tracker.commit(pending));

    let host_reply = echo_packet(HOST, VM, Icmpv4Message::EchoReply, 7, 1);
    assert!(matches!(
        inspect_from_host(&mut tracker, &host_reply),
        FlowMatch::Allowed
    ));

    let wrong_ident = echo_packet(HOST, VM, Icmpv4Message::EchoReply, 8, 1);
    assert!(matches!(
        inspect_from_host(&mut tracker, &wrong_ident),
        FlowMatch::Untracked
    ));

    // The opposite direction is a distinct flow even with the same identifier.
    let host_request = echo_packet(HOST, VM, Icmpv4Message::EchoRequest, 7, 1);
    let FlowMatch::Candidate(pending) = inspect_from_host(&mut tracker, &host_request) else {
        panic!("expected a new flow");
    };
    assert!(tracker.commit(pending));

    let vm_reply = echo_packet(VM, HOST, Icmpv4Message::EchoReply, 7, 1);
    assert!(matches!(
        inspect_from_vm(&mut tracker, &vm_reply),
        FlowMatch::Allowed
    ));
}

#[test]
fn invalid_echo_is_denied_and_unsolicited_echo_is_untracked() {
    let mut tracker = FlowTable::new();
    let unsolicited = echo_packet(HOST, VM, Icmpv4Message::EchoReply, 7, 1);
    assert!(matches!(
        inspect_from_host(&mut tracker, &unsolicited),
        FlowMatch::Untracked
    ));

    let mut wrong_code = echo_packet(HOST, VM, Icmpv4Message::EchoRequest, 7, 1);
    wrong_code[21] = 1;
    Icmpv4Packet::new_unchecked(&mut wrong_code[20..]).fill_checksum();
    assert!(matches!(
        inspect_from_host(&mut tracker, &wrong_code),
        FlowMatch::Untracked
    ));

    let mut bad_checksum = echo_packet(HOST, VM, Icmpv4Message::EchoRequest, 7, 1);
    bad_checksum[27] ^= 1;
    assert!(matches!(
        inspect_from_host(&mut tracker, &bad_checksum),
        FlowMatch::Denied
    ));
}

fn admit_host_syn(tracker: &mut FlowTable) {
    let syn = tcp_packet(HOST, 49_152, VM, 22, SYN);
    let FlowMatch::Candidate(pending) = inspect_from_host(tracker, &syn) else {
        panic!("expected a candidate");
    };
    assert!(tracker.commit(pending));
}

#[test]
fn admitted_syn_creates_an_exact_reverse_permission() {
    let mut tracker = FlowTable::new();
    admit_host_syn(&mut tracker);
    let original_expiry = only_flow(&tracker).1.expires_at;

    let reply = tcp_packet(VM, 22, HOST, 49_152, ACK);
    assert!(matches!(
        inspect_from_vm(&mut tracker, &reply),
        FlowMatch::Allowed
    ));
    assert_eq!(
        only_flow(&tracker).1.expires_at,
        original_expiry,
        "return traffic must not refresh a tuple"
    );

    let initiator_data = tcp_packet(HOST, 49_152, VM, 22, ACK);
    let FlowMatch::Candidate(pending) = inspect_from_host(&mut tracker, &initiator_data) else {
        panic!("expected an initiator candidate");
    };
    assert_eq!(
        only_flow(&tracker).1.expires_at,
        original_expiry,
        "inspection must not refresh a tuple before policy accepts it"
    );
    assert!(tracker.commit(pending));
    assert!(only_flow(&tracker).1.expires_at.ticks > original_expiry.ticks);
}

#[test]
fn new_tuple_requires_a_clean_syn() {
    let mut tracker = FlowTable::new();

    for flags in [ACK, SYN_ACK] {
        let packet = tcp_packet(HOST, 49_152, VM, 22, flags);
        assert!(matches!(
            inspect_from_host(&mut tracker, &packet),
            FlowMatch::Untracked
        ));
    }

    let syn = tcp_packet(HOST, 49_152, VM, 22, SYN);
    assert!(matches!(
        inspect_from_host(&mut tracker, &syn),
        FlowMatch::Candidate(_)
    ));
}

#[test]
fn reply_requires_the_exact_tuple() {
    let mut tracker = FlowTable::new();
    admit_host_syn(&mut tracker);

    let wrong_port = tcp_packet(VM, 22, HOST, 49_153, ACK);
    assert!(matches!(
        inspect_from_vm(&mut tracker, &wrong_port),
        FlowMatch::Untracked
    ));
}

#[test]
fn reverse_bare_syn_is_a_new_policy_candidate() {
    let mut tracker = FlowTable::new();
    admit_host_syn(&mut tracker);

    let reverse_syn = tcp_packet(VM, 22, HOST, 49_152, SYN);
    let FlowMatch::Candidate(pending) = inspect_from_vm(&mut tracker, &reverse_syn) else {
        panic!("reverse SYN must return to policy");
    };

    // Inspection is provisional: a policy rejection leaves the admitted
    // flow untouched.
    let old_flow_reply = tcp_packet(VM, 22, HOST, 49_152, ACK);
    assert!(matches!(
        inspect_from_vm(&mut tracker, &old_flow_reply),
        FlowMatch::Allowed
    ));

    assert!(tracker.commit(pending));

    let reverse_reply = tcp_packet(HOST, 49_152, VM, 22, SYN_ACK);
    assert!(matches!(
        inspect_from_host(&mut tracker, &reverse_reply),
        FlowMatch::Allowed
    ));
}

#[test]
fn rejects_zero_source_port_per_rfc_8085() {
    let mut tracker = FlowTable::new();
    let datagram = udp_packet(HOST, 0, VM, 5353);

    assert!(matches!(
        inspect_from_host(&mut tracker, &datagram),
        FlowMatch::Denied
    ));
}

#[test]
fn udp_reply_requires_an_exact_admitted_request() {
    let mut tracker = FlowTable::new();
    let request = udp_packet(HOST, 50_000, VM, 5353);
    let reply = udp_packet(VM, 5353, HOST, 50_000);

    assert!(matches!(
        inspect_from_vm(&mut tracker, &reply),
        FlowMatch::Candidate(_)
    ));

    let FlowMatch::Candidate(pending) = inspect_from_host(&mut tracker, &request) else {
        panic!("expected a candidate");
    };
    assert!(tracker.commit(pending));
    assert!(matches!(
        inspect_from_vm(&mut tracker, &reply),
        FlowMatch::Allowed
    ));
}

fn at(secs: u64) -> Instant {
    Instant { ticks: secs << 32 }
}

#[test]
fn candidates_name_their_flow_and_its_end() {
    let mut tracker = FlowTable::new_at(at(100));
    let host_addr = Ipv4Address::new(192, 168, 64, 1);
    let vm_addr = Ipv4Address::new(192, 168, 64, 2);

    let request = udp_packet(VM, 53000, HOST, 53);
    let packet = Ipv4Packet::new_checked(&request).unwrap();
    assert_eq!(
        tracker.inspect_at(&packet, FlowDirection::FromVm, at(100)),
        FlowMatch::Candidate(PendingFlow {
            key: FlowKey::Udp { host_addr, host_port: 53, vm_addr, vm_port: 53000 },
            flow: Flow { initiating_direction: FlowDirection::FromVm, expires_at: at(130) },
        })
    );

    let syn = tcp_packet(HOST, 49_152, VM, 22, SYN);
    let packet = Ipv4Packet::new_checked(&syn).unwrap();
    assert_eq!(
        tracker.inspect_at(&packet, FlowDirection::FromHost, at(100)),
        FlowMatch::Candidate(PendingFlow {
            key: FlowKey::Tcp { host_addr, host_port: 49_152, vm_addr, vm_port: 22 },
            flow: Flow { initiating_direction: FlowDirection::FromHost, expires_at: at(160) },
        })
    );

    let ping = echo_packet(VM, HOST, Icmpv4Message::EchoRequest, 7, 1);
    let packet = Ipv4Packet::new_checked(&ping).unwrap();
    assert_eq!(
        tracker.inspect_at(&packet, FlowDirection::FromVm, at(100)),
        FlowMatch::Candidate(PendingFlow {
            key: FlowKey::Echo {
                host_addr,
                vm_addr,
                ident: 7,
                initiating_direction: FlowDirection::FromVm,
            },
            flow: Flow { initiating_direction: FlowDirection::FromVm, expires_at: at(130) },
        })
    );
}

#[test]
fn sweeps_happen_once_a_second() {
    let mut tracker = FlowTable::new_at(at(100));
    let request = udp_packet(VM, 53000, HOST, 53);
    let packet = Ipv4Packet::new_checked(&request).unwrap();
    let FlowMatch::Candidate(pending) =
        tracker.inspect_at(&packet, FlowDirection::FromVm, at(100))
    else {
        panic!("expected a candidate");
    };
    assert!(tracker.commit(pending));
    assert_eq!(tracker.next_sweep, at(101));

    // The flow is kept up to its end and swept away from then on.
    tracker.sweep_if_due(at(129));
    assert_eq!(tracker.flows.len(), 1);
    assert_eq!(tracker.next_sweep, at(130));
    tracker.sweep_if_due(at(130));
    assert_eq!(tracker.flows.len(), 0);
    assert_eq!(tracker.next_sweep, at(131));
}

#[test]
fn return_traffic_passes_up_to_the_end_of_its_flow() {
    let mut tracker = FlowTable::new_at(at(100));
    let request = udp_packet(VM, 53000, HOST, 53);
    let reply = udp_packet(HOST, 53, VM, 53000);
    let packet = Ipv4Packet::new_checked(&request).unwrap();
    let FlowMatch::Candidate(pending) =
        tracker.inspect_at(&packet, FlowDirection::FromVm, at(100))
    else {
        panic!("expected a candidate");
    };
    assert!(tracker.commit(pending));

    let packet = Ipv4Packet::new_checked(&reply).unwrap();
    let last = Instant { ticks: at(130).ticks - 1 };
    assert_eq!(
        tracker.inspect_at(&packet, FlowDirection::FromHost, last),
        FlowMatch::Allowed
    );
    assert!(matches!(
        tracker.inspect_at(&packet, FlowDirection::FromHost, at(130)),
        FlowMatch::Candidate(_)
    ));
}

#[test]
fn truncated_transport_headers_are_denied() {
    let mut tracker = FlowTable::new_at(at(1));
    for protocol in [IpProtocol::Tcp, IpProtocol::Udp, IpProtocol::Icmp] {
        let bytes = ipv4_packet(HOST, VM, protocol, 3);
        let packet = Ipv4Packet::new_checked(&bytes).unwrap();
        assert_eq!(
            tracker.inspect_at(&packet, FlowDirection::FromHost, at(1)),
            FlowMatch::Denied
        );
    }
    let zero_port = tcp_packet(HOST, 0, VM, 22, SYN);
    let packet = Ipv4Packet::new_checked(&zero_port).unwrap();
    assert_eq!(
        tracker.inspect_at(&packet, FlowDirection::FromHost, at(1)),
        FlowMatch::Denied
    );
}

#[test]
fn flow_map_tells_keys_apart() {
    let a = Ipv4Address::new(10, 0, 0, 1);
    let b = Ipv4Address::new(10, 0, 0, 2);
    let tcp = FlowKey::Tcp { host_addr: a, host_port: 1, vm_addr: b, vm_port: 2 };
    let udp = FlowKey::Udp { host_addr: a, host_port: 1, vm_addr: b, vm_port: 2 };
    let from_host = FlowKey::echo(a, b, FlowDirection::FromHost, FlowDirection::FromHost, 1);
    let from_vm = FlowKey::echo(a, b, FlowDirection::FromHost, FlowDirection::FromVm, 1);

    let mut map: FlowMap<u8> = FlowMap::new();
    map.insert(tcp, 1);
    map.insert(udp, 2);
    map.insert(from_host, 3);
    map.insert(from_vm, 4);
    map.insert(tcp, 5);
    assert_eq!(map.len(), 4);
    assert_eq!(map.get(tcp), Some(5));
    assert_eq!(map.get(udp), Some(2));
    assert_eq!(map.get(from_host), Some(3));
    assert_eq!(map.get(from_vm), Some(4));

    map.remove(udp);
    assert!(!map.contains_key(udp));
    assert_eq!(map.keys().len(), 3);
    map.clear();
    assert_eq!(map.len(), 0);
}

#[test]
fn directions_pair_up() {
    assert_eq!(FlowDirection::FromHost.host_vm_pair(1, 2), (1, 2));
    assert_eq!(FlowDirection::FromVm.host_vm_pair(1, 2), (2, 1));
    assert_eq!(FlowDirection::FromHost.opposite(), FlowDirection::FromVm);
    assert_eq!(FlowDirection::FromVm.opposite(), FlowDirection::FromHost);
}
