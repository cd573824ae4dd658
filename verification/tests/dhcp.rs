use dhcproto::v4::{DhcpOption, HType, Message, MessageType, Opcode};
use dhcproto::{Encodable, Encoder};
use smoltcp::wire::{
    EthernetAddress as WireMac, EthernetFrame as WireFrame, EthernetProtocol, IpProtocol,
    Ipv4Address as WireAddress, Ipv4Packet as WirePacket, UdpPacket as WireDatagram,
};
use softnet::addr::{EthernetAddress, Ipv4Address};
use softnet::clock::{Duration, Instant};
use softnet::dhcp::{message_matches_bootp_client, DhcpMessage, BOOT_REPLY, BOOT_REQUEST};
use softnet::dhcp_options::tame;
use softnet::dhcp_snooper::{certain_span, has_valid_lease, same_terms, DhcpSnooper, Lease};
use softnet::dhcp_snooper_global::{DhcpSnooperGlobal, LeaseEvent};
use std::collections::HashSet;

const VM_MAC: [u8; 6] = [0x02, 0x00, 0x00, 0x00, 0x00, 0x01];
const OTHER_MAC: [u8; 6] = [0x02, 0x00, 0x00, 0x00, 0x00, 0x02];

fn old_address() -> Ipv4Address {
    Ipv4Address::new(192, 168, 64, 2)
}

fn at(secs: u64) -> Instant {
    Instant { ticks: secs << 32 }
}

#[test]
fn processes_replies_only_for_matching_client() {
    // Start with an active lease
    let mut snooper = DhcpSnooper::new(Duration::from_secs(0), EthernetAddress::new(VM_MAC));
    snooper.set_lease(Some(Lease::new(
        old_address(),
        Duration::from_secs(600),
        HashSet::new(),
    )));

    // Ignore a NAK for another client
    let mut message = Message::new(
        WireAddress::UNSPECIFIED,
        WireAddress::UNSPECIFIED,
        WireAddress::UNSPECIFIED,
        WireAddress::UNSPECIFIED,
        &OTHER_MAC,
    );
    message.set_opcode(Opcode::BootReply);
    message
        .opts_mut()
        .insert(DhcpOption::MessageType(MessageType::Nak));

    let mut encoded = Vec::new();
    message.encode(&mut Encoder::new(&mut encoded)).unwrap();

    snooper.register_dhcp_reply(&encoded);

    assert_eq!(snooper.lease().as_ref().unwrap().address(), old_address());

    // Process a NAK for the matching client
    message.set_chaddr(&VM_MAC);
    encoded.clear();
    message.encode(&mut Encoder::new(&mut encoded)).unwrap();

    snooper.register_dhcp_reply(&encoded);

    assert!(snooper.lease().is_none());
}

/// A reply of a DHCP server.
fn reply(
    mac: &[u8],
    address: WireAddress,
    kind: MessageType,
    lease_time: Option<u32>,
    dns: &[WireAddress],
) -> Vec<u8> {
    let none = WireAddress::UNSPECIFIED;
    let mut message = Message::new(none, address, none, none, mac);
    message.set_opcode(Opcode::BootReply);
    message.opts_mut().insert(DhcpOption::MessageType(kind));
    if let Some(secs) = lease_time {
        message.opts_mut().insert(DhcpOption::AddressLeaseTime(secs));
    }
    if !dns.is_empty() {
        message.opts_mut().insert(DhcpOption::DomainNameServer(dns.to_vec()));
    }
    let mut encoded = Vec::new();
    message.encode(&mut Encoder::new(&mut encoded)).unwrap();
    encoded
}

#[test]
fn an_acknowledgement_becomes_a_lease() {
    let server = WireAddress::new(192, 168, 64, 1);
    let bytes = reply(
        &VM_MAC,
        WireAddress::new(192, 168, 64, 7),
        MessageType::Ack,
        Some(100),
        &[server],
    );
    let mut snooper =
        DhcpSnooper::new(Duration::from_millis(500), EthernetAddress::new(VM_MAC));
    assert!(snooper.lease().is_none());
    snooper.register_dhcp_reply_at(&bytes, at(1000));

    let address = Ipv4Address::new(192, 168, 64, 7);
    let lease = snooper.lease().as_ref().unwrap();
    assert_eq!(lease.address(), address);
    // A hundred seconds less half a second, on a clock that counts in fractions of a second.
    assert_eq!(lease.valid_until.ticks, (1099 << 32) + (1 << 31));
    assert!(lease.is_valid_for_at(address, at(1099)));
    assert!(!lease.is_valid_for_at(address, at(1100)));
    assert!(!lease.is_valid_for_at(old_address(), at(1000)));
    assert!(has_valid_lease(snooper.lease(), address, at(1099)));
    assert!(!has_valid_lease(&None, address, at(1099)));

    assert!(snooper.valid_dns_target(&Ipv4Address::new(192, 168, 64, 1)));
    assert!(!snooper.valid_dns_target(&Ipv4Address::new(192, 168, 64, 2)));
    let terms = snooper.address_and_dns_ips_at(at(1000));
    assert_eq!(terms.as_ref().unwrap().0, address);
    assert!(same_terms(&terms, &snooper.address_and_dns_ips_at(at(1050))));
    assert!(snooper.address_and_dns_ips_at(at(1100)).is_none());
    assert!(!same_terms(&terms, &None));
}

#[test]
fn spans_are_cut_by_the_uncertainty() {
    let span = certain_span(100, Duration::from_millis(250));
    assert_eq!((span.secs, span.nanos), (99, 750_000_000));
    let none = certain_span(1, Duration::from_secs(2));
    assert_eq!((none.secs, none.nanos), (0, 0));
}

#[test]
fn messages_are_decoded() {
    let bytes = reply(
        &VM_MAC,
        WireAddress::new(10, 0, 0, 9),
        MessageType::Offer,
        Some(600),
        &[WireAddress::new(1, 1, 1, 1), WireAddress::new(8, 8, 8, 8)],
    );
    let message = DhcpMessage::decode(&bytes).unwrap();
    assert_eq!(message.opcode, BOOT_REPLY);
    assert_eq!(message.htype, 1);
    assert_eq!(message.chaddr, VM_MAC);
    assert_eq!(message.yiaddr, Ipv4Address::new(10, 0, 0, 9));
    assert_eq!(message.msg_type, Some(2));
    assert_eq!(message.lease_time, Some(600));
    assert_eq!(message.dns_servers, vec![0x0101_0101, 0x0808_0808]);

    assert!(DhcpMessage::decode(&bytes[..20]).is_none());
    let mut long = bytes.clone();
    long[2] = 17;
    assert!(DhcpMessage::decode(&long).is_none());
}

#[test]
fn messages_belong_to_ethernet_clients() {
    let vm = EthernetAddress::new(VM_MAC);
    let none = WireAddress::UNSPECIFIED;
    let mut message = Message::new(none, none, none, none, &VM_MAC);
    message.set_opcode(Opcode::BootRequest);
    let decoded = |message: &Message| {
        let mut encoded = Vec::new();
        message.encode(&mut Encoder::new(&mut encoded)).unwrap();
        DhcpMessage::decode(&encoded).unwrap()
    };
    assert!(message_matches_bootp_client(&decoded(&message), BOOT_REQUEST, vm));
    assert!(!message_matches_bootp_client(&decoded(&message), BOOT_REPLY, vm));
    assert!(!message_matches_bootp_client(
        &decoded(&message),
        BOOT_REQUEST,
        EthernetAddress::new(OTHER_MAC)
    ));
    message.set_htype(HType::Eth);
    assert!(message_matches_bootp_client(&decoded(&message), BOOT_REQUEST, vm));
    message.set_htype(HType::ARCNET);
    assert!(!message_matches_bootp_client(&decoded(&message), BOOT_REQUEST, vm));
    message.set_htype(HType::Eth);
    message.set_chaddr(&[2, 0, 0, 0, 0, 1, 0]);
    assert!(!message_matches_bootp_client(&decoded(&message), BOOT_REQUEST, vm));
}

/// A frame that carries a datagram.
fn frame(src_port: u16, dst_port: u16, payload: &[u8]) -> Vec<u8> {
    let mut bytes = vec![0; 14 + 20 + 8 + payload.len()];
    let total_len = (bytes.len() - 14) as u16;
    let mut frame = WireFrame::new_unchecked(bytes.as_mut_slice());
    frame.set_dst_addr(WireMac(VM_MAC));
    frame.set_src_addr(WireMac(OTHER_MAC));
    frame.set_ethertype(EthernetProtocol::Ipv4);
    let mut ipv4 = WirePacket::new_unchecked(frame.payload_mut());
    ipv4.set_version(4);
    ipv4.set_header_len(20);
    ipv4.set_total_len(total_len);
    ipv4.set_next_header(IpProtocol::Udp);
    let mut udp = WireDatagram::new_unchecked(ipv4.payload_mut());
    udp.set_src_port(src_port);
    udp.set_dst_port(dst_port);
    udp.set_len(8 + payload.len() as u16);
    udp.payload_mut().copy_from_slice(payload);
    bytes
}

#[test]
fn all_leases_on_the_bridge_are_learned() {
    let address = WireAddress::new(192, 168, 64, 9);
    let mut snooper = DhcpSnooperGlobal::disabled(Duration::from_secs(1));
    let other = EthernetAddress::new(OTHER_MAC);
    let ip = Ipv4Address::new(192, 168, 64, 9);

    let ack = frame(67, 68, &reply(&OTHER_MAC, address, MessageType::Ack, Some(60), &[]));
    let event = snooper.register_ethernet_packet_at(&ack, at(10)).unwrap();
    assert_eq!(event, LeaseEvent::Learned { mac: other, address: ip });
    assert_eq!(event.text(), "DHCP global lease learned: 02:00:00:00:00:02 -> 192.168.64.9");
    assert!(snooper.valid_ip_for_mac_at(&other, ip, at(68)));
    assert!(!snooper.valid_ip_for_mac_at(&other, ip, at(69)));
    assert!(!snooper.valid_ip_for_mac_at(&other, old_address(), at(20)));
    assert!(!snooper.valid_ip_for_mac_at(&EthernetAddress::new(VM_MAC), ip, at(20)));
    assert_eq!(
        snooper.table_lines(at(20)),
        vec!["DHCP global leases:", "  02:00:00:00:00:02 -> 192.168.64.9 (valid)"]
    );
    assert_eq!(
        snooper.table_lines(at(80)),
        vec!["DHCP global leases:", "  02:00:00:00:00:02 -> 192.168.64.9 (expired)"]
    );

    // Without a lease time, ten minutes are taken for granted.
    let ack = frame(67, 68, &reply(&OTHER_MAC, address, MessageType::Ack, None, &[]));
    snooper.register_ethernet_packet_at(&ack, at(100)).unwrap();
    assert!(snooper.valid_ip_for_mac_at(&other, ip, at(698)));
    assert!(!snooper.valid_ip_for_mac_at(&other, ip, at(699)));

    let nak = frame(67, 68, &reply(&OTHER_MAC, address, MessageType::Nak, None, &[]));
    let event = snooper.register_ethernet_packet_at(&nak, at(200)).unwrap();
    assert_eq!(event.text(), "DHCP global lease removed: 02:00:00:00:00:02");
    assert!(!snooper.valid_ip_for_mac_at(&other, ip, at(201)));
    assert_eq!(snooper.table_lines(at(201)), vec!["DHCP global leases: <empty>"]);
}

#[test]
fn other_traffic_on_the_bridge_is_ignored() {
    let address = WireAddress::new(192, 168, 64, 9);
    let mut snooper = DhcpSnooperGlobal::disabled(Duration::from_secs(1));
    let payload = reply(&OTHER_MAC, address, MessageType::Ack, Some(60), &[]);

    assert!(snooper.register_ethernet_packet(&frame(1067, 1068, &payload)).is_none());
    assert!(snooper.register_ethernet_packet(&payload).is_none());
    let mut arp = frame(67, 68, &payload);
    arp[13] = 6;
    assert!(snooper.register_ethernet_packet(&arp).is_none());
    let offer = reply(&OTHER_MAC, address, MessageType::Offer, Some(60), &[]);
    assert!(snooper.register_ethernet_packet(&frame(67, 68, &offer)).is_none());

    let mut unfit = payload.clone();
    unfit[2] = 17;
    assert!(snooper.register_ethernet_packet(&frame(67, 68, &unfit)).is_none());
    assert!(snooper.register_ethernet_packet(&frame(5000, 68, &payload)).is_some());
    assert!(snooper.valid_ip_for_mac(
        &EthernetAddress::new(OTHER_MAC),
        Ipv4Address::new(192, 168, 64, 9)
    ));
}

#[test]
fn the_table_is_printed_every_five_seconds() {
    let mut snooper = DhcpSnooperGlobal::disabled(Duration::from_secs(0));
    assert!(snooper.print_table_periodically(Duration::from_millis(1000)));
    assert!(!snooper.print_table_periodically(Duration::from_millis(5999)));
    assert!(snooper.print_table_periodically(Duration::from_millis(6000)));
    assert!(!snooper.print_table_periodically(Duration::from_millis(6001)));
}

/// A message with the given options, between a lease time and a message type.
fn with_options(options: &[u8]) -> Vec<u8> {
    let mut bytes = vec![0; 240];
    bytes[0] = BOOT_REPLY;
    bytes[1] = 1;
    bytes[2] = 6;
    bytes[28..34].copy_from_slice(&VM_MAC);
    bytes.extend_from_slice(&[51, 4, 0, 0, 2, 88]);
    bytes.extend_from_slice(options);
    bytes.extend_from_slice(&[53, 1, 5, 255]);
    bytes
}

/// The code, the length and as many zeros.
fn option(code: u8, len: u8) -> Vec<u8> {
    let mut bytes = vec![code, len];
    bytes.resize(2 + usize::from(len), 0);
    bytes
}

#[test]
fn options_of_any_length_are_decoded() {
    let goes_on = [
        (80, 0), (80, 1), (80, 9), (94, 3), (94, 4), (94, 20), (152, 4), (152, 5), (153, 4),
        (153, 6), (154, 4), (154, 7), (155, 4), (155, 255), (81, 4), (151, 1), (156, 1), (254, 7),
    ];
    for (code, len) in goes_on {
        let message = DhcpMessage::decode(&with_options(&option(code, len))).unwrap();
        assert_eq!(message.chaddr, VM_MAC);
        assert_eq!(message.lease_time, Some(600));
        assert_eq!(message.msg_type, Some(5), "code {code}, length {len}");
    }

    let stops = [
        (81, 0), (81, 1), (81, 2), (94, 0), (94, 1), (94, 2), (152, 0), (152, 3), (153, 1),
        (153, 2), (154, 2), (154, 3), (155, 0), (155, 1), (151, 0), (156, 0),
    ];
    for (code, len) in stops {
        let message = DhcpMessage::decode(&with_options(&option(code, len))).unwrap();
        assert_eq!(message.chaddr, VM_MAC);
        assert_eq!(message.lease_time, Some(600));
        assert_eq!(message.msg_type, None, "code {code}, length {len}");
    }
}

#[test]
fn one_option_may_come_in_pieces() {
    let decoded = |pieces: &[(u8, u8)]| {
        let options: Vec<u8> = pieces.iter().flat_map(|(code, len)| option(*code, *len)).collect();
        DhcpMessage::decode(&with_options(&options)).unwrap().msg_type
    };
    assert_eq!(decoded(&[(94, 1), (94, 2)]), Some(5));
    assert_eq!(decoded(&[(94, 2), (94, 2)]), Some(5));
    assert_eq!(decoded(&[(94, 1), (94, 1)]), None);
    assert_eq!(decoded(&[(152, 2), (152, 2), (153, 1), (153, 9)]), Some(5));
    assert_eq!(decoded(&[(80, 0), (80, 0), (80, 3), (254, 2), (80, 1)]), Some(5));
}

#[test]
fn only_the_codes_of_misfits_are_replaced() {
    let fitting = with_options(&[80, 0, 0, 94, 3, 1, 2, 3, 81, 3, 0, 0, 0, 155, 4, 0, 0, 0, 0]);
    assert_eq!(tame(&fitting), fitting);
    assert_eq!(
        tame(&with_options(&[80, 1, 9, 80, 0, 0, 94, 4, 80, 80, 80, 80])),
        with_options(&[254, 1, 9, 254, 0, 0, 254, 4, 80, 80, 80, 80])
    );
    assert_eq!(
        tame(&with_options(&[154, 1, 7, 154, 2, 7, 7, 80, 1, 0])),
        with_options(&[255, 1, 7, 154, 2, 7, 7, 80, 1, 0])
    );

    // What is cut off or lies behind the end is not looked at
    let ended = with_options(&[255, 80, 1, 0]);
    assert_eq!(tame(&ended), ended);
    let mut cut = with_options(&[]);
    cut.truncate(246);
    cut.extend_from_slice(&[80, 1, 0, 80, 200, 1]);
    assert_eq!(tame(&cut), cut);
    assert_eq!(DhcpMessage::decode(&cut).unwrap().lease_time, Some(600));
    assert_eq!(tame(&cut[..247]), cut[..247]);
    assert_eq!(tame(&[80, 1, 0]), [80, 1, 0]);

    let once = tame(&with_options(&option(80, 5)));
    assert_eq!(tame(&once), once);
}
