use dhcproto::v4::{DhcpOption, Message, MessageType, Opcode};
use dhcproto::{Encodable, Encoder};
use smoltcp::wire::{
    ArpHardware, ArpOperation, ArpPacket as WireArp, EthernetAddress as WireMac,
    EthernetFrame as WireFrame, EthernetProtocol, IpProtocol, Ipv4Address as WireAddress,
    Ipv4Packet as WirePacket, UdpPacket as WireDatagram,
};
use softnet::addr::{EthernetAddress, Ipv4Address};
use softnet::clock::{Duration, Instant};
use softnet::dhcp::{message_matches_bootp_client, DhcpMessage, BOOT_REPLY};
use softnet::dhcp_snooper::Lease;
use softnet::proxy::control::{Control, ControlAction, ReadOutcome, WriteOutcome};
use softnet::proxy::flows::FlowTable;
use softnet::proxy::host::{classify_dhcp_response, DhcpResponseDisposition};
use softnet::proxy::rpc::SetParams;
use softnet::proxy::rule::{Direction, Rule};
use softnet::proxy::rules::PolicyDecision;
use softnet::proxy::session::ControlEvent;
use softnet::proxy::state::{zero_cidr_allowed, Proxy, WriteFailure};
use softnet::proxy::vm::{is_allowed_dhcp_request, vm_arp_allowed};
use softnet::wire::{ArpPacket, EthernetFrame, Ipv4Packet};
use std::collections::HashSet;

const GATEWAY: WireAddress = WireAddress::new(192, 168, 64, 1);
const VM_IP: WireAddress = WireAddress::new(192, 168, 64, 2);
const VM_MAC: [u8; 6] = [0x02, 0x00, 0x00, 0x00, 0x00, 0x01];
const OTHER_MAC: [u8; 6] = [0x02, 0x00, 0x00, 0x00, 0x00, 0x02];

fn own(address: WireAddress) -> Ipv4Address {
    Ipv4Address { bits: address.to_bits() }
}

fn vm_mac() -> EthernetAddress {
    EthernetAddress::new(VM_MAC)
}

fn rules(texts: &[&str]) -> Vec<Rule> {
    texts.iter().map(|text| Rule::parse(text).unwrap()).collect()
}

fn create_proxy(vm_ip: Ipv4Address, allow: Vec<&str>, block: Vec<&str>) -> Proxy {
    let mut proxy = Proxy::new(
        vm_mac(),
        own(GATEWAY),
        &rules(&allow),
        &rules(&block),
        Duration::from_millis(100),
    );
    proxy.dhcp_snooper.set_lease(Some(Lease::new(
        vm_ip,
        Duration::from_secs(600),
        HashSet::new(),
    )));
    proxy
}

fn allowed_from_vm_ipv4(proxy: &mut Proxy, src: Ipv4Address, dst: Ipv4Address) -> bool {
    let ipv4_pkt = Ipv4Packet {
        src_addr: src,
        dst_addr: dst,
        next_header: 0,
        more_frags: false,
        frag_offset: 0,
        header_len: 0,
        payload: &[],
    };
    proxy.allowed_from_vm_ipv4(&ipv4_pkt)
}

#[test]
fn test_blocking_takes_precedence() {
    let vm_ip = Ipv4Address::new(192, 168, 0, 2);
    let mut proxy = create_proxy(vm_ip, vec!["66.66.0.0/16"], vec!["66.66.0.0/16"]);

    assert_eq!(proxy.rules.len(), 1);
    for address in [Ipv4Address::new(66, 66, 0, 0), Ipv4Address::new(66, 66, 255, 255)] {
        assert_eq!(
            proxy.rules.policy_decision(address, Direction::Out),
            Some(PolicyDecision::Block)
        );
    }

    assert!(!allowed_from_vm_ipv4(&mut proxy, vm_ip, Ipv4Address::new(66, 66, 66, 66)));
}

#[test]
fn test_longest_prefix_match_wins() {
    let vm_ip = Ipv4Address::new(192, 168, 0, 2);
    let mut proxy = create_proxy(vm_ip, vec!["33.33.33.33/32"], vec!["33.33.33.0/24"]);

    assert_eq!(proxy.rules.len(), 2);
    assert_eq!(
        proxy.rules.policy_decision(Ipv4Address::new(33, 33, 33, 33), Direction::Out),
        Some(PolicyDecision::AllowStateless)
    );
    assert_eq!(
        proxy.rules.policy_decision(Ipv4Address::new(33, 33, 33, 0), Direction::Out),
        Some(PolicyDecision::Block)
    );

    assert!(!allowed_from_vm_ipv4(&mut proxy, vm_ip, Ipv4Address::new(33, 33, 33, 32)));
    assert!(allowed_from_vm_ipv4(&mut proxy, vm_ip, Ipv4Address::new(33, 33, 33, 33)));
    assert!(!allowed_from_vm_ipv4(&mut proxy, vm_ip, Ipv4Address::new(33, 33, 33, 34)));
}

#[test]
fn test_allow_host() {
    let vm_ip = Ipv4Address::new(192, 168, 0, 2);
    let mut proxy = create_proxy(vm_ip, vec!["@host"], vec!["0.0.0.0/0"]);

    assert_eq!(proxy.rules.len(), 2);
    assert_eq!(
        proxy.rules.policy_decision(proxy.gateway_ip, Direction::Out),
        Some(PolicyDecision::AllowStateless)
    );
    assert_eq!(
        proxy.rules.policy_decision(Ipv4Address::new(0, 0, 0, 0), Direction::Out),
        Some(PolicyDecision::Block)
    );

    // Access to global IPs should be disallowed because of --block=0.0.0.0/0
    assert!(!allowed_from_vm_ipv4(&mut proxy, vm_ip, Ipv4Address::new(8, 8, 8, 8)));

    // Despite the above, access to host IP address should be possible because of --allow=@host
    let gateway_ip = proxy.gateway_ip;
    assert!(allowed_from_vm_ipv4(&mut proxy, vm_ip, gateway_ip));
}

fn encode_boot_reply(chaddr: [u8; 6]) -> Vec<u8> {
    let mut message = Message::new(
        WireAddress::UNSPECIFIED,
        WireAddress::new(192, 168, 64, 2),
        WireAddress::UNSPECIFIED,
        WireAddress::UNSPECIFIED,
        &chaddr,
    );
    message.set_opcode(Opcode::BootReply);
    message
        .opts_mut()
        .insert(DhcpOption::MessageType(MessageType::Ack));
    message.opts_mut().insert(DhcpOption::AddressLeaseTime(600));

    let mut encoded = Vec::new();
    message.encode(&mut Encoder::new(&mut encoded)).unwrap();
    encoded
}

fn dhcp_reply_packet(chaddr: [u8; 6]) -> Vec<u8> {
    ipv4_udp_packet(GATEWAY, VM_IP, 67, 68, &encode_boot_reply(chaddr))
}

fn ipv4_udp_packet(
    src_addr: WireAddress,
    dst_addr: WireAddress,
    src_port: u16,
    dst_port: u16,
    payload: &[u8],
) -> Vec<u8> {
    let mut bytes = vec![0; 20 + 8 + payload.len()];
    let total_len = bytes.len() as u16;
    let mut ipv4 = WirePacket::new_unchecked(bytes.as_mut_slice());
    ipv4.set_version(4);
    ipv4.set_header_len(20);
    ipv4.set_total_len(total_len);
    ipv4.set_next_header(IpProtocol::Udp);
    ipv4.set_src_addr(src_addr);
    ipv4.set_dst_addr(dst_addr);

    let mut udp = WireDatagram::new_unchecked(ipv4.payload_mut());
    udp.set_src_port(src_port);
    udp.set_dst_port(dst_port);
    udp.set_len((8 + payload.len()) as u16);
    udp.payload_mut().copy_from_slice(payload);
    bytes
}

#[test]
fn dhcp_boot_reply_chaddr_must_match_vm() {
    let own_msg = DhcpMessage::decode(&encode_boot_reply(VM_MAC)).unwrap();
    let foreign_msg = DhcpMessage::decode(&encode_boot_reply(OTHER_MAC)).unwrap();

    assert!(message_matches_bootp_client(&own_msg, BOOT_REPLY, vm_mac()));
    assert!(!message_matches_bootp_client(&foreign_msg, BOOT_REPLY, vm_mac()));
}

#[test]
fn fragmented_gateway_dhcp_reply_is_rejected() {
    // Fragmentation must be rejected rather than reported as non-DHCP: the first
    // fragment's UDP length covers the complete datagram, and later fragments carry
    // no UDP header, so the BOOTP client check below can never run on them.
    for (more_fragments, offset) in [(true, 0), (false, 8)] {
        let mut bytes = dhcp_reply_packet(OTHER_MAC);
        {
            let mut packet = WirePacket::new_unchecked(bytes.as_mut_slice());
            packet.set_more_frags(more_fragments);
            packet.set_frag_offset(offset);
        }

        let packet = Ipv4Packet::new_checked(bytes.as_slice()).unwrap();
        assert_eq!(
            classify_dhcp_response(&packet, own(GATEWAY), vm_mac()),
            DhcpResponseDisposition::Reject,
            "more_fragments={more_fragments} offset={offset}"
        );
    }
}

#[test]
fn unfragmented_gateway_dhcp_reply_is_still_classified_by_chaddr() {
    let mine = dhcp_reply_packet(VM_MAC);
    let packet = Ipv4Packet::new_checked(mine.as_slice()).unwrap();
    assert_eq!(
        classify_dhcp_response(&packet, own(GATEWAY), vm_mac()),
        DhcpResponseDisposition::Allow
    );

    let foreign = dhcp_reply_packet(OTHER_MAC);
    let packet = Ipv4Packet::new_checked(foreign.as_slice()).unwrap();
    assert_eq!(
        classify_dhcp_response(&packet, own(GATEWAY), vm_mac()),
        DhcpResponseDisposition::Reject
    );
}

#[test]
fn fragmented_traffic_from_other_sources_is_not_treated_as_dhcp() {
    let mut bytes = ipv4_udp_packet(
        WireAddress::new(192, 168, 64, 3),
        VM_IP,
        67,
        68,
        &encode_boot_reply(OTHER_MAC),
    );
    {
        let mut packet = WirePacket::new_unchecked(bytes.as_mut_slice());
        packet.set_more_frags(true);
    }

    let packet = Ipv4Packet::new_checked(bytes.as_slice()).unwrap();
    assert_eq!(
        classify_dhcp_response(&packet, own(GATEWAY), vm_mac()),
        DhcpResponseDisposition::NotDhcp
    );
}

fn dhcp_request(chaddr: [u8; 6]) -> Vec<u8> {
    let mut message = Message::new(
        WireAddress::UNSPECIFIED,
        WireAddress::UNSPECIFIED,
        WireAddress::UNSPECIFIED,
        WireAddress::UNSPECIFIED,
        &chaddr,
    );
    message
        .opts_mut()
        .insert(DhcpOption::MessageType(MessageType::Discover));

    let mut dhcp_payload = Vec::new();
    message
        .encode(&mut Encoder::new(&mut dhcp_payload))
        .unwrap();
    dhcp_payload
}

fn allowed_dhcp_request(
    src_addr: WireAddress,
    dst_addr: WireAddress,
    unicast_target: Option<WireAddress>,
    chaddr: [u8; 6],
    lease: &Option<Lease>,
) -> bool {
    let buf = ipv4_udp_packet(src_addr, dst_addr, 68, 67, &dhcp_request(chaddr));
    let ipv4_pkt = Ipv4Packet::new_checked(buf.as_slice()).unwrap();
    is_allowed_dhcp_request(
        &ipv4_pkt,
        unicast_target.map(own),
        vm_mac(),
        lease,
        Instant::recent(),
    )
}

#[test]
fn test_allowed_dhcp_request_policy() {
    let gateway = WireAddress::new(192, 168, 64, 1);
    let lease_ip = WireAddress::new(192, 168, 64, 2);
    let other = WireAddress::new(192, 168, 64, 3);
    let no_lease = None;
    let lease = Some(Lease::new(
        own(lease_ip),
        Duration::from_secs(600),
        HashSet::new(),
    ));
    let initial = |src, chaddr| {
        allowed_dhcp_request(src, WireAddress::BROADCAST, None, chaddr, &no_lease)
    };
    let renewal = |src, dst| allowed_dhcp_request(src, dst, Some(gateway), VM_MAC, &lease);
    let other_mac = [0x02, 0x00, 0x00, 0x00, 0x00, 0x02];

    assert!(initial(WireAddress::UNSPECIFIED, VM_MAC));
    assert!(renewal(lease_ip, gateway));
    assert!(!renewal(other, gateway));
    assert!(!renewal(WireAddress::UNSPECIFIED, gateway));
    assert!(!renewal(lease_ip, other));
    assert!(!initial(WireAddress::UNSPECIFIED, other_mac));
}

fn arp_packet(
    source_hardware_addr: [u8; 6],
    source_protocol_addr: &[u8],
    operation: ArpOperation,
    hardware_len: u8,
    protocol_len: u8,
) -> Vec<u8> {
    let payload_len = 8 + 2 * (hardware_len as usize + protocol_len as usize);
    let mut buf = vec![0; payload_len];
    let mut arp_pkt = WireArp::new_unchecked(buf.as_mut_slice());
    arp_pkt.set_hardware_type(ArpHardware::Ethernet);
    arp_pkt.set_protocol_type(EthernetProtocol::Ipv4);
    arp_pkt.set_hardware_len(hardware_len);
    arp_pkt.set_protocol_len(protocol_len);
    arp_pkt.set_operation(operation);
    arp_pkt.set_source_hardware_addr(&source_hardware_addr[..hardware_len as usize]);
    arp_pkt.set_source_protocol_addr(source_protocol_addr);
    arp_pkt.set_target_hardware_addr(&[0; 6][..hardware_len as usize]);
    arp_pkt.set_target_protocol_addr(&vec![0; protocol_len as usize]);
    buf
}

fn arp_allowed(buf: &[u8], lease: &Option<Lease>) -> bool {
    match ArpPacket::new_checked(buf) {
        Some(arp_pkt) => vm_arp_allowed(&arp_pkt, vm_mac(), lease, Instant::recent()),
        None => false,
    }
}

#[test]
fn test_allowed_from_vm_arp_allows_unspecified_request_without_lease() {
    let buf = arp_packet(VM_MAC, &[0, 0, 0, 0], ArpOperation::Request, 6, 4);

    assert!(arp_allowed(&buf, &None));
}

#[test]
fn test_allowed_from_vm_arp_allows_reply_for_leased_ip() {
    let lease_ip = WireAddress::new(192, 168, 0, 2);
    let lease = Some(Lease::new(
        own(lease_ip),
        Duration::from_secs(600),
        HashSet::new(),
    ));
    let buf = arp_packet(VM_MAC, &lease_ip.octets(), ArpOperation::Reply, 6, 4);

    assert!(arp_allowed(&buf, &lease));
    // With a lease, the unspecified address may no longer be claimed.
    let buf = arp_packet(VM_MAC, &[0, 0, 0, 0], ArpOperation::Request, 6, 4);
    assert!(!arp_allowed(&buf, &lease));
}

#[test]
fn test_allowed_from_vm_arp_rejects_unknown_operation() {
    let buf = arp_packet(VM_MAC, &[0, 0, 0, 0], ArpOperation::Unknown(3), 6, 4);

    assert!(!arp_allowed(&buf, &None));
}

#[test]
fn test_allowed_from_vm_arp_rejects_non_ethernet_hardware_type() {
    let mut buf = arp_packet(VM_MAC, &[0, 0, 0, 0], ArpOperation::Request, 6, 4);
    let mut arp_pkt = WireArp::new_unchecked(buf.as_mut_slice());
    arp_pkt.set_hardware_type(ArpHardware::Unknown(2));

    assert!(!arp_allowed(&buf, &None));
}

#[test]
fn test_allowed_from_vm_arp_rejects_non_ipv4_protocol_type() {
    let mut buf = arp_packet(VM_MAC, &[0, 0, 0, 0], ArpOperation::Request, 6, 4);
    let mut arp_pkt = WireArp::new_unchecked(buf.as_mut_slice());
    arp_pkt.set_protocol_type(EthernetProtocol::Ipv6);

    assert!(!arp_allowed(&buf, &None));
}

#[test]
fn test_allowed_from_vm_arp_rejects_non_ipv4_protocol_length() {
    let buf = arp_packet(VM_MAC, &[0, 0, 0], ArpOperation::Request, 6, 3);

    assert!(!arp_allowed(&buf, &None));
}

/// A frame around a packet.
fn frame(src: [u8; 6], dst: [u8; 6], kind: EthernetProtocol, payload: &[u8]) -> Vec<u8> {
    let mut bytes = vec![0; 14 + payload.len()];
    let mut frame = WireFrame::new_unchecked(bytes.as_mut_slice());
    frame.set_src_addr(WireMac(src));
    frame.set_dst_addr(WireMac(dst));
    frame.set_ethertype(kind);
    frame.payload_mut().copy_from_slice(payload);
    bytes
}

/// A packet with a valid checksum.
fn sealed(mut bytes: Vec<u8>) -> Vec<u8> {
    WirePacket::new_unchecked(bytes.as_mut_slice()).set_hop_limit(64);
    WirePacket::new_unchecked(bytes.as_mut_slice()).fill_checksum();
    bytes
}

fn from_vm(proxy: &mut Proxy, bytes: &[u8]) -> bool {
    proxy.process_frame_from_vm(&EthernetFrame::new_checked(bytes).unwrap())
}

fn from_host(proxy: &mut Proxy, bytes: &[u8]) -> bool {
    proxy.process_frame_from_host(&EthernetFrame::new_checked(bytes).unwrap())
}

fn datagram(src: WireAddress, src_port: u16, dst: WireAddress, dst_port: u16) -> Vec<u8> {
    sealed(ipv4_udp_packet(src, dst, src_port, dst_port, b"hello"))
}

#[test]
fn spoofed_and_unknown_frames_do_not_leave() {
    let mut proxy = create_proxy(own(VM_IP), vec![], vec![]);
    let global = WireAddress::new(8, 8, 8, 8);
    let ip = EthernetProtocol::Ipv4;
    let good = datagram(VM_IP, 5000, global, 53);

    assert!(from_vm(&mut proxy, &frame(VM_MAC, OTHER_MAC, ip, &good)));
    assert!(!from_vm(&mut proxy, &frame(OTHER_MAC, VM_MAC, ip, &good)));
    assert!(!from_vm(&mut proxy, &frame(VM_MAC, OTHER_MAC, EthernetProtocol::Ipv6, &good)));
    let spoofed = datagram(WireAddress::new(192, 168, 64, 3), 5000, global, 53);
    assert!(!from_vm(&mut proxy, &frame(VM_MAC, OTHER_MAC, ip, &spoofed)));

    // Options could route the packet around the policy.
    let mut options = vec![0; 24];
    {
        let mut packet = WirePacket::new_unchecked(options.as_mut_slice());
        packet.set_version(4);
        packet.set_header_len(24);
        packet.set_total_len(24);
        packet.set_hop_limit(64);
        packet.set_src_addr(VM_IP);
        packet.set_dst_addr(global);
        packet.fill_checksum();
    }
    assert!(!from_vm(&mut proxy, &frame(VM_MAC, OTHER_MAC, ip, &options)));

    let arp = arp_packet(VM_MAC, &VM_IP.octets(), ArpOperation::Request, 6, 4);
    assert!(from_vm(&mut proxy, &frame(VM_MAC, OTHER_MAC, EthernetProtocol::Arp, &arp)));
    let arp = arp_packet(OTHER_MAC, &VM_IP.octets(), ArpOperation::Request, 6, 4);
    assert!(!from_vm(&mut proxy, &frame(VM_MAC, OTHER_MAC, EthernetProtocol::Arp, &arp)));
}

#[test]
fn default_policy_is_the_internet_the_host_and_the_name_servers() {
    let mut proxy = create_proxy(own(VM_IP), vec![], vec![]);
    let server = Ipv4Address::new(192, 168, 1, 1);
    proxy.dhcp_snooper.set_lease(Some(Lease::new(
        own(VM_IP),
        Duration::from_secs(600),
        HashSet::from([server.bits]),
    )));
    let ip = EthernetProtocol::Ipv4;
    let mut sends = |dst: WireAddress, port| {
        from_vm(&mut proxy, &frame(VM_MAC, OTHER_MAC, ip, &datagram(VM_IP, 5000, dst, port)))
    };

    assert!(sends(WireAddress::new(1, 1, 1, 1), 443));
    assert!(sends(WireAddress::new(192, 0, 0, 9), 443));
    assert!(sends(GATEWAY, 22));
    assert!(sends(WireAddress::new(192, 168, 1, 1), 53));
    assert!(!sends(WireAddress::new(192, 168, 1, 1), 80));
    for private in [
        WireAddress::new(0, 1, 2, 3),
        WireAddress::new(10, 0, 0, 1),
        WireAddress::new(100, 64, 0, 1),
        WireAddress::new(127, 0, 0, 1),
        WireAddress::new(169, 254, 1, 1),
        WireAddress::new(172, 16, 0, 1),
        WireAddress::new(172, 31, 255, 255),
        WireAddress::new(192, 0, 0, 1),
        WireAddress::new(192, 0, 2, 1),
        WireAddress::new(192, 168, 1, 2),
        WireAddress::new(198, 18, 0, 1),
        WireAddress::new(198, 51, 100, 1),
        WireAddress::new(203, 0, 113, 1),
        WireAddress::new(240, 0, 0, 1),
        WireAddress::new(255, 255, 255, 255),
    ] {
        assert!(!sends(private, 53), "{private}");
    }
    assert!(sends(WireAddress::new(172, 32, 0, 1), 53));
    assert!(sends(WireAddress::new(100, 128, 0, 1), 53));
    assert!(sends(WireAddress::new(224, 0, 0, 1), 53));
}

#[test]
fn the_lease_is_learned_from_the_host() {
    let mut proxy = Proxy::new(
        vm_mac(),
        own(GATEWAY),
        &Vec::new(),
        &Vec::new(),
        Duration::from_millis(100),
    );
    let ip = EthernetProtocol::Ipv4;
    let outgoing = frame(
        VM_MAC,
        OTHER_MAC,
        ip,
        &datagram(VM_IP, 5000, WireAddress::new(8, 8, 8, 8), 53),
    );

    // Before there is a lease, only the request for one may leave.
    assert!(!from_vm(&mut proxy, &outgoing));
    let none = WireAddress::UNSPECIFIED;
    let all = WireAddress::BROADCAST;
    let discover = sealed(ipv4_udp_packet(none, all, 68, 67, &dhcp_request(VM_MAC)));
    assert!(from_vm(&mut proxy, &frame(VM_MAC, [0xff; 6], ip, &discover)));
    let discover = sealed(ipv4_udp_packet(none, all, 68, 67, &dhcp_request(OTHER_MAC)));
    assert!(!from_vm(&mut proxy, &frame(VM_MAC, [0xff; 6], ip, &discover)));

    // A reply to another client is not delivered and teaches nothing.
    let foreign = sealed(dhcp_reply_packet(OTHER_MAC));
    assert!(!from_host(&mut proxy, &frame(OTHER_MAC, VM_MAC, ip, &foreign)));
    assert!(proxy.dhcp_snooper.lease().is_none());

    let reply = sealed(dhcp_reply_packet(VM_MAC));
    assert!(from_host(&mut proxy, &frame(OTHER_MAC, VM_MAC, ip, &reply)));
    let lease = proxy.dhcp_snooper.lease().as_ref().unwrap();
    assert_eq!(lease.address(), own(VM_IP));
    assert!(lease.valid());
    assert!(from_vm(&mut proxy, &outgoing));
}

#[test]
fn frames_for_others_teach_nothing() {
    let mut proxy = Proxy::new(
        vm_mac(),
        own(GATEWAY),
        &Vec::new(),
        &Vec::new(),
        Duration::from_millis(100),
    );
    let reply = sealed(dhcp_reply_packet(VM_MAC));
    let bytes = frame(OTHER_MAC, OTHER_MAC, EthernetProtocol::Ipv4, &reply);
    assert!(from_host(&mut proxy, &bytes));
    assert!(proxy.dhcp_snooper.lease().is_none());
    let bytes = frame(OTHER_MAC, [0xff; 6], EthernetProtocol::Ipv4, &reply);
    assert!(from_host(&mut proxy, &bytes));
    assert!(proxy.dhcp_snooper.lease().is_some());
}

#[test]
fn stateful_rules_let_answers_in_and_nothing_else() {
    let server = WireAddress::new(10, 0, 0, 1);
    let mut proxy = create_proxy(own(VM_IP), vec!["out 10.0.0.0/8"], vec!["0.0.0.0/0", "in 0.0.0.0/0"]);
    let ip = EthernetProtocol::Ipv4;
    let request = frame(VM_MAC, OTHER_MAC, ip, &datagram(VM_IP, 5000, server, 53));
    let answer = frame(OTHER_MAC, VM_MAC, ip, &datagram(server, 53, VM_IP, 5000));
    let stray = frame(OTHER_MAC, VM_MAC, ip, &datagram(server, 53, VM_IP, 5001));

    assert!(!from_host(&mut proxy, &answer));
    assert!(from_vm(&mut proxy, &request));
    assert!(from_host(&mut proxy, &answer));
    assert!(!from_host(&mut proxy, &stray));

    // What is blocked outside the allowed network stays blocked.
    let other = frame(VM_MAC, OTHER_MAC, ip, &datagram(VM_IP, 5000, WireAddress::new(8, 8, 8, 8), 53));
    assert!(!from_vm(&mut proxy, &other));

    // A lease with other terms ends the flow.
    let mut moved = Message::new(
        WireAddress::UNSPECIFIED,
        VM_IP,
        WireAddress::UNSPECIFIED,
        WireAddress::UNSPECIFIED,
        &VM_MAC,
    );
    moved.set_opcode(Opcode::BootReply);
    moved.opts_mut().insert(DhcpOption::MessageType(MessageType::Ack));
    moved.opts_mut().insert(DhcpOption::AddressLeaseTime(600));
    moved.opts_mut().insert(DhcpOption::DomainNameServer(vec![GATEWAY]));
    let mut encoded = Vec::new();
    moved.encode(&mut Encoder::new(&mut encoded)).unwrap();
    let reply = sealed(ipv4_udp_packet(GATEWAY, VM_IP, 67, 68, &encoded));
    assert!(from_host(&mut proxy, &frame(OTHER_MAC, VM_MAC, ip, &reply)));
    assert!(!from_host(&mut proxy, &answer));
}

#[test]
fn visitors_are_answered() {
    let visitor = WireAddress::new(10, 0, 0, 1);
    let mut proxy = create_proxy(own(VM_IP), vec!["in 10.0.0.0/8"], vec!["0.0.0.0/0"]);
    let ip = EthernetProtocol::Ipv4;
    let visit = frame(OTHER_MAC, VM_MAC, ip, &datagram(visitor, 5000, VM_IP, 80));
    let answer = frame(VM_MAC, OTHER_MAC, ip, &datagram(VM_IP, 80, visitor, 5000));

    assert!(!from_vm(&mut proxy, &answer));
    assert!(from_host(&mut proxy, &visit));
    assert!(from_vm(&mut proxy, &answer));
}

#[test]
fn stateless_rules_do_not_concern_the_host() {
    let mut proxy = create_proxy(own(VM_IP), vec![], vec!["0.0.0.0/0"]);
    let ip = EthernetProtocol::Ipv4;
    let visit = datagram(WireAddress::new(10, 0, 0, 1), 5000, VM_IP, 80);
    assert!(from_host(&mut proxy, &frame(OTHER_MAC, VM_MAC, ip, &visit)));
    assert!(from_host(&mut proxy, &frame(OTHER_MAC, VM_MAC, EthernetProtocol::Arp, &[])));
    assert!(!from_host(&mut proxy, &frame(OTHER_MAC, VM_MAC, EthernetProtocol::Ipv6, &visit)));
    assert!(!from_host(&mut proxy, &frame(OTHER_MAC, VM_MAC, ip, &visit[..10])));
}

#[test]
fn lost_frames_are_reported_once() {
    let mut proxy = create_proxy(own(VM_IP), vec![], vec![]);
    assert_eq!(proxy.on_vm_write_error(false), WriteFailure::Fail);
    assert_eq!(proxy.on_vm_write_error(true), WriteFailure::Drop { report: true });
    assert_eq!(proxy.on_vm_write_error(true), WriteFailure::Drop { report: false });
}

#[test]
fn everything_is_allowed_by_one_rule() {
    assert!(zero_cidr_allowed(&rules(&["@host", "0.0.0.0/0"])));
    assert!(!zero_cidr_allowed(&rules(&["@host", "out 0.0.0.0/0", "0.0.0.0/1"])));
    assert!(!zero_cidr_allowed(&[]));
}

fn decode(params: Option<String>) -> Option<SetParams> {
    let value: serde_json::Value = serde_json::from_str(&params?).ok()?;
    let list = |name: &str| -> Option<Vec<String>> {
        let items = value.get(name)?.as_array()?;
        items.iter().map(|item| item.as_str().map(str::to_owned)).collect()
    };
    Some(SetParams { allow: list("allow")?, block: list("block")? })
}

#[test]
fn a_new_policy_starts_over() {
    let mut proxy = create_proxy(own(VM_IP), vec![], vec![]);
    let mut control = Control::new(own(GATEWAY), &Vec::new(), &Vec::new());
    let now = Instant { ticks: 5 << 32 };
    assert!(proxy.flows.is_none());

    let turn = ControlEvent::Turn;
    let action = proxy.on_control_event(&mut control, turn, &decode, now);
    assert_eq!(action, ControlAction::Read);
    let line = b"{\"jsonrpc\":\"2.0\",\"id\":1,\"method\":\"softnet.policy.set\",\"params\":{\"allow\":[\"out 10.0.0.0/8\"],\"block\":[\"0.0.0.0/0\"]}}\n";
    let read = ControlEvent::Read(ReadOutcome::Bytes(line.to_vec()));
    let action = proxy.on_control_event(&mut control, read, &decode, now);
    assert_eq!(action, ControlAction::Write);
    assert!(!control.policy_changed());

    let flows: &FlowTable = proxy.flows.as_ref().unwrap();
    assert_eq!(flows.flows.len(), 0);
    assert_eq!(flows.next_sweep.ticks, 6 << 32);
    assert_eq!(
        proxy.rules.policy_decision(Ipv4Address::new(10, 0, 0, 1), Direction::Out),
        Some(PolicyDecision::AllowStateful)
    );

    let written = ControlEvent::Write(WriteOutcome::Wrote(control.pending().len()));
    let action = proxy.on_control_event(&mut control, written, &decode, now);
    assert_eq!(action, ControlAction::Read);
    let blocked = ControlEvent::Read(ReadOutcome::Blocked);
    let action = proxy.on_control_event(&mut control, blocked, &decode, now);
    assert_eq!(action, ControlAction::Done { keep_open: true });
}
