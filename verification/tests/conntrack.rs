use smoltcp::wire::{IpProtocol, Ipv4Address as WireAddress, Ipv4Packet as WirePacket};
use smoltcp::wire::{TcpPacket, UdpPacket};
use softnet::addr::Ipv4Address;
use softnet::clock::Instant;
use softnet::proxy::conntrack::{
    embryonic_source, initiator, oriented_transport_key, Conntrack, ConntrackResult, Flow,
    FlowState, Initiator, MAX_EMBRYONIC_FLOWS_PER_SOURCE, MAX_VM_INITIATED_FLOWS,
};
use softnet::proxy::conntrack_tcp::TcpState;
use softnet::proxy::conntrack_udp::UdpState;
use softnet::proxy::flow_map::{FlowDirection, FlowKey};
use softnet::wire::{Ipv4Packet, TcpSegment};

const HOST: WireAddress = WireAddress::new(192, 168, 64, 1);
const VM: WireAddress = WireAddress::new(192, 168, 64, 2);

#[derive(Clone, Copy)]
struct TcpFlags {
    syn: bool,
    ack: bool,
    rst: bool,
    fin: bool,
}

const SYN: TcpFlags = TcpFlags { syn: true, ack: false, rst: false, fin: false };
const SYN_ACK: TcpFlags = TcpFlags { syn: true, ack: true, rst: false, fin: false };
const ACK: TcpFlags = TcpFlags { syn: false, ack: true, rst: false, fin: false };
const RST: TcpFlags = TcpFlags { syn: false, ack: false, rst: true, fin: false };
const FIN_ACK: TcpFlags = TcpFlags { syn: false, ack: true, rst: false, fin: true };

fn inspect_from_host(tracker: &mut Conntrack, bytes: &[u8]) -> ConntrackResult {
    let packet = Ipv4Packet::new_checked(bytes).unwrap();
    tracker.inspect_from_host(&packet)
}

fn inspect_from_vm(tracker: &mut Conntrack, bytes: &[u8]) -> ConntrackResult {
    let packet = Ipv4Packet::new_checked(bytes).unwrap();
    tracker.inspect_from_vm(&packet)
}

fn tcp_packet(
    src_addr: WireAddress,
    src_port: u16,
    dst_addr: WireAddress,
    dst_port: u16,
    flags: TcpFlags,
) -> Vec<u8> {
    let mut bytes = ipv4_packet(src_addr, dst_addr, IpProtocol::Tcp, 20);
    let mut tcp = TcpPacket::new_unchecked(&mut bytes[20..]);
    tcp.set_src_port(src_port);
    tcp.set_dst_port(dst_port);
    tcp.set_header_len(20);
    tcp.set_syn(flags.syn);
    tcp.set_ack(flags.ack);
    tcp.set_rst(flags.rst);
    tcp.set_fin(flags.fin);
    bytes
}

fn udp_packet(
    src_addr: WireAddress,
    src_port: u16,
    dst_addr: WireAddress,
    dst_port: u16,
) -> Vec<u8> {
    let mut bytes = ipv4_packet(src_addr, dst_addr, IpProtocol::Udp, 8);
    let mut udp = UdpPacket::new_unchecked(&mut bytes[20..]);
    udp.set_src_port(src_port);
    udp.set_dst_port(dst_port);
    udp.set_len(8);
    bytes
}

fn ipv4_packet(
    src_addr: WireAddress,
    dst_addr: WireAddress,
    protocol: IpProtocol,
    payload_len: usize,
) -> Vec<u8> {
    let mut bytes = vec![0; 20 + payload_len];
    let total_len = bytes.len() as u16;
    let mut ipv4 = WirePacket::new_unchecked(bytes.as_mut_slice());
    ipv4.set_version(4);
    ipv4.set_header_len(20);
    ipv4.set_total_len(total_len);
    ipv4.set_next_header(protocol);
    ipv4.set_src_addr(src_addr);
    ipv4.set_dst_addr(dst_addr);
    bytes
}

#[test]
fn fragments_fail_closed() {
    let mut packet = tcp_packet(HOST, 49152, VM, 22, SYN);
    WirePacket::new_unchecked(packet.as_mut_slice()).set_more_frags(true);

    let mut tracker = Conntrack::new();
    assert!(matches!(
        inspect_from_host(&mut tracker, &packet),
        ConntrackResult::Denied
    ));
}

#[test]
fn clear_removes_tracked_flows() {
    let packet = tcp_packet(HOST, 49152, VM, 22, SYN);
    let mut tracker = Conntrack::new();

    let ConntrackResult::New(pending) = inspect_from_host(&mut tracker, &packet) else {
        panic!("expected a new flow");
    };
    assert!(tracker.commit(pending));
    assert_eq!(tracker.flows.len(), 1);

    tracker.clear();
    assert_eq!(tracker.flows.len(), 0);
}

#[test]
fn embryonic_tcp_limit_is_per_source() {
    let mut tracker = Conntrack::new();

    for index in 0..MAX_EMBRYONIC_FLOWS_PER_SOURCE {
        let syn = tcp_packet(HOST, 10000 + index as u16, VM, 22, SYN);
        let ConntrackResult::New(pending) = inspect_from_host(&mut tracker, &syn) else {
            panic!("expected a new flow");
        };
        assert!(tracker.commit(pending));
    }

    let over_limit = tcp_packet(HOST, 20000, VM, 22, SYN);
    let ConntrackResult::New(pending) = inspect_from_host(&mut tracker, &over_limit) else {
        panic!("expected a new flow");
    };
    assert!(!tracker.commit(pending));

    let other_host = WireAddress::new(192, 168, 64, 3);
    let other_source = tcp_packet(other_host, 20000, VM, 22, SYN);
    let ConntrackResult::New(pending) = inspect_from_host(&mut tracker, &other_source) else {
        panic!("expected a new flow");
    };
    assert!(tracker.commit(pending));

    let syn_ack = tcp_packet(VM, 22, HOST, 10000, SYN_ACK);
    assert!(matches!(
        inspect_from_vm(&mut tracker, &syn_ack),
        ConntrackResult::Allowed
    ));
    let ack = tcp_packet(HOST, 10000, VM, 22, ACK);
    assert!(matches!(
        inspect_from_host(&mut tracker, &ack),
        ConntrackResult::Allowed
    ));

    let ConntrackResult::New(pending) = inspect_from_host(&mut tracker, &over_limit) else {
        panic!("expected a new flow");
    };
    assert!(tracker.commit(pending));
}

#[test]
fn tcp_flows_are_oriented() {
    let mut tracker = Conntrack::new();

    let vm_syn = tcp_packet(VM, 22, HOST, 49152, SYN);
    assert!(matches!(
        inspect_from_vm(&mut tracker, &vm_syn),
        ConntrackResult::New(_)
    ));

    let host_syn = tcp_packet(HOST, 49152, VM, 22, SYN);
    let ConntrackResult::New(pending) = inspect_from_host(&mut tracker, &host_syn) else {
        panic!("expected a new flow");
    };
    assert!(tracker.commit(pending));

    let premature_vm_ack = tcp_packet(VM, 22, HOST, 49152, ACK);
    assert!(matches!(
        inspect_from_vm(&mut tracker, &premature_vm_ack),
        ConntrackResult::Denied
    ));

    let wrong_vm_reply = tcp_packet(VM, 22, HOST, 49153, SYN_ACK);
    assert!(matches!(
        inspect_from_vm(&mut tracker, &wrong_vm_reply),
        ConntrackResult::Denied
    ));

    let vm_syn_ack = tcp_packet(VM, 22, HOST, 49152, SYN_ACK);
    assert!(matches!(
        inspect_from_vm(&mut tracker, &vm_syn_ack),
        ConntrackResult::Allowed
    ));

    let premature_vm_ack = tcp_packet(VM, 22, HOST, 49152, ACK);
    assert!(matches!(
        inspect_from_vm(&mut tracker, &premature_vm_ack),
        ConntrackResult::Denied
    ));

    let host_ack = tcp_packet(HOST, 49152, VM, 22, ACK);
    assert!(matches!(
        inspect_from_host(&mut tracker, &host_ack),
        ConntrackResult::Allowed
    ));

    assert!(matches!(
        inspect_from_vm(&mut tracker, &premature_vm_ack),
        ConntrackResult::Allowed
    ));
}

#[test]
fn vm_can_initiate_tcp() {
    let mut tracker = Conntrack::new();
    let vm_syn = tcp_packet(VM, 49152, HOST, 22, SYN);
    let host_syn_ack = tcp_packet(HOST, 22, VM, 49152, SYN_ACK);
    let vm_ack = tcp_packet(VM, 49152, HOST, 22, ACK);

    let ConntrackResult::New(pending) = inspect_from_vm(&mut tracker, &vm_syn) else {
        panic!("expected a new flow");
    };
    assert!(tracker.commit(pending));
    assert!(matches!(
        inspect_from_host(&mut tracker, &host_syn_ack),
        ConntrackResult::Allowed
    ));
    assert!(matches!(
        inspect_from_vm(&mut tracker, &vm_ack),
        ConntrackResult::Allowed
    ));
}

#[test]
fn tcp_rst_removes_permission() {
    let mut tracker = Conntrack::new();
    let host_syn = tcp_packet(HOST, 49152, VM, 22, SYN);
    let vm_rst = tcp_packet(VM, 22, HOST, 49152, RST);
    let vm_ack = tcp_packet(VM, 22, HOST, 49152, ACK);

    let ConntrackResult::New(pending) = inspect_from_host(&mut tracker, &host_syn) else {
        panic!("expected a new flow");
    };
    assert!(tracker.commit(pending));
    assert!(matches!(
        inspect_from_vm(&mut tracker, &vm_rst),
        ConntrackResult::Allowed
    ));
    assert!(matches!(
        inspect_from_vm(&mut tracker, &vm_ack),
        ConntrackResult::Denied
    ));
}

#[test]
fn udp_reply_requires_an_exact_host_request() {
    let mut tracker = Conntrack::new();

    let vm_datagram = udp_packet(VM, 5353, HOST, 50000);
    assert!(matches!(
        inspect_from_vm(&mut tracker, &vm_datagram),
        ConntrackResult::New(_)
    ));

    let host_datagram = udp_packet(HOST, 50000, VM, 5353);
    let ConntrackResult::New(pending) = inspect_from_host(&mut tracker, &host_datagram) else {
        panic!("expected a new flow");
    };
    assert!(tracker.commit(pending));
    assert!(matches!(
        inspect_from_vm(&mut tracker, &vm_datagram),
        ConntrackResult::Allowed
    ));

    let wrong_vm_datagram = udp_packet(VM, 5353, HOST, 50001);
    assert!(matches!(
        inspect_from_vm(&mut tracker, &wrong_vm_datagram),
        ConntrackResult::New(_)
    ));
}

#[test]
fn explicitly_allowed_vm_udp_gets_only_its_reply() {
    let mut tracker = Conntrack::new();
    let vm_dns = udp_packet(VM, 53000, HOST, 53);
    let host_dns = udp_packet(HOST, 53, VM, 53000);

    let ConntrackResult::New(pending) = inspect_from_vm(&mut tracker, &vm_dns) else {
        panic!("expected a new flow");
    };
    assert!(tracker.commit(pending));
    assert!(matches!(
        inspect_from_host(&mut tracker, &host_dns),
        ConntrackResult::Allowed
    ));

    let unsolicited_host_udp = udp_packet(HOST, 53, VM, 53001);
    assert!(matches!(
        inspect_from_host(&mut tracker, &unsolicited_host_udp),
        ConntrackResult::New(_)
    ));
}

fn at(secs: u64) -> Instant {
    Instant { ticks: secs << 32 }
}

#[test]
fn tcp_states_follow_the_segments() {
    let segment = |flags: TcpFlags| TcpSegment {
        src_port: 1,
        dst_port: 2,
        fin: flags.fin,
        syn: flags.syn,
        rst: flags.rst,
        ack: flags.ack,
    };
    let host = FlowDirection::FromHost;
    let vm = FlowDirection::FromVm;
    let step = |state: TcpState, flags, from_initiator, direction| {
        state.step(&segment(flags), from_initiator, direction)
    };

    assert_eq!(step(TcpState::SynSent, SYN, true, host), Some(TcpState::SynSent));
    assert_eq!(step(TcpState::SynSent, ACK, true, host), None);
    assert_eq!(step(TcpState::SynSent, SYN_ACK, false, vm), Some(TcpState::SynReceived));
    assert_eq!(step(TcpState::SynSent, SYN, false, vm), None);
    assert_eq!(step(TcpState::SynReceived, ACK, true, host), Some(TcpState::Established));
    assert_eq!(
        step(TcpState::SynReceived, FIN_ACK, true, host),
        Some(TcpState::Closing { host_fin: true, vm_fin: false })
    );
    assert_eq!(step(TcpState::SynReceived, ACK, false, vm), None);
    assert_eq!(step(TcpState::Established, ACK, false, vm), Some(TcpState::Established));
    assert_eq!(step(TcpState::Established, SYN, false, vm), None);
    assert_eq!(step(TcpState::Established, SYN, true, host), Some(TcpState::SynSent));
    let closing = step(TcpState::Established, FIN_ACK, false, vm).unwrap();
    assert_eq!(closing, TcpState::Closing { host_fin: false, vm_fin: true });
    assert_eq!(
        step(closing, FIN_ACK, true, host),
        Some(TcpState::Closing { host_fin: true, vm_fin: true })
    );
}

#[test]
fn silent_flows_are_forgotten() {
    let mut tracker = Conntrack::new_at(at(1000));
    let request = udp_packet(HOST, 50000, VM, 5353);
    let packet = Ipv4Packet::new_checked(&request).unwrap();
    let ConntrackResult::New(pending) =
        tracker.inspect_at(&packet, FlowDirection::FromHost, at(1000))
    else {
        panic!("expected a new flow");
    };
    assert!(tracker.commit_at(pending, at(1000)));

    let moment = Instant { ticks: at(1030).ticks - 1 };
    tracker.tick_at(moment);
    assert_eq!(tracker.flows.len(), 1);
    // Nothing is looked for within a second of the last time.
    tracker.tick_at(at(1030));
    assert_eq!(tracker.flows.len(), 1);
    tracker.tick_at(at(1031));
    assert_eq!(tracker.flows.len(), 0);
}

#[test]
fn answered_datagrams_live_longer() {
    assert_eq!(UdpState { replied: false }.timeout_secs(), 30);
    assert_eq!(UdpState { replied: true }.timeout_secs(), 180);
    assert_eq!(TcpState::SynSent.timeout_secs(), 60);
    assert_eq!(TcpState::Established.timeout_secs(), 432_000);
    let closing = TcpState::Closing { host_fin: true, vm_fin: false };
    assert_eq!(closing.timeout_secs(), 120);

    let mut tracker = Conntrack::new_at(at(1000));
    let request = udp_packet(HOST, 50000, VM, 5353);
    let reply = udp_packet(VM, 5353, HOST, 50000);
    let packet = Ipv4Packet::new_checked(&request).unwrap();
    let ConntrackResult::New(pending) =
        tracker.inspect_at(&packet, FlowDirection::FromHost, at(1000))
    else {
        panic!("expected a new flow");
    };
    assert!(tracker.commit_at(pending, at(1000)));
    let packet = Ipv4Packet::new_checked(&reply).unwrap();
    assert_eq!(
        tracker.inspect_at(&packet, FlowDirection::FromVm, at(1001)),
        ConntrackResult::Allowed
    );
    tracker.expire(at(1180));
    assert_eq!(tracker.flows.len(), 1);
    tracker.expire(at(1181));
    assert_eq!(tracker.flows.len(), 0);
}

#[test]
fn vm_has_a_share_of_the_table() {
    let mut tracker = Conntrack::new_at(at(1));
    for index in 0..MAX_VM_INITIATED_FLOWS {
        let datagram = udp_packet(VM, 10000 + index as u16, HOST, 53);
        let packet = Ipv4Packet::new_checked(&datagram).unwrap();
        let ConntrackResult::New(pending) =
            tracker.inspect_at(&packet, FlowDirection::FromVm, at(1))
        else {
            panic!("expected a new flow");
        };
        assert!(tracker.commit_at(pending, at(1)));
    }
    assert_eq!(tracker.count_vm_initiated(), 1024);

    let datagram = udp_packet(VM, 20000, HOST, 53);
    let packet = Ipv4Packet::new_checked(&datagram).unwrap();
    let ConntrackResult::New(pending) = tracker.inspect_at(&packet, FlowDirection::FromVm, at(1))
    else {
        panic!("expected a new flow");
    };
    assert!(!tracker.commit_at(pending, at(1)));

    let datagram = udp_packet(HOST, 20000, VM, 53);
    let packet = Ipv4Packet::new_checked(&datagram).unwrap();
    let ConntrackResult::New(pending) =
        tracker.inspect_at(&packet, FlowDirection::FromHost, at(1))
    else {
        panic!("expected a new flow");
    };
    assert!(tracker.commit_at(pending, at(1)));
}

#[test]
fn flows_are_keyed_by_side() {
    assert_eq!(initiator(FlowDirection::FromHost), Initiator::Host);
    assert_eq!(initiator(FlowDirection::FromVm), Initiator::Vm);

    let host_addr = Ipv4Address::new(192, 168, 64, 1);
    let vm_addr = Ipv4Address::new(192, 168, 64, 2);
    let bytes = tcp_packet(VM, 22, HOST, 49152, SYN);
    let packet = Ipv4Packet::new_checked(&bytes).unwrap();
    let key = oriented_transport_key(&packet, FlowDirection::FromVm, true, 22, 49152);
    assert_eq!(key, FlowKey::Tcp { host_addr, host_port: 49152, vm_addr, vm_port: 22 });
    let udp = oriented_transport_key(&packet, FlowDirection::FromHost, false, 22, 49152);
    assert_eq!(
        udp,
        FlowKey::Udp { host_addr: vm_addr, host_port: 22, vm_addr: host_addr, vm_port: 49152 }
    );

    let mut flow = Flow {
        initiator: Initiator::Vm,
        state: FlowState::Tcp(TcpState::SynReceived),
        last_seen: at(0),
    };
    assert_eq!(embryonic_source(key, flow), Some(vm_addr));
    flow.state = FlowState::Tcp(TcpState::Established);
    assert_eq!(embryonic_source(key, flow), None);
}
