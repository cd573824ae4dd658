use clap::{Arg, Command};
use softnet::addr::{EthernetAddress, Ipv4Address};
use softnet::cli::{parse_supported_rule, parse_tags, parse_vm_fd, startup, Startup};
use softnet::clock::{Duration, Instant};
use softnet::descriptor::{
    check_fd, validate_control_fd, validate_vm_fd, DescriptorError, Probe, Role, SocketAddress,
    SocketNumbers,
};
use softnet::host::{
    enable_isolation, gateway_mac, Host, HostError, Interface, NetType, StartAddress,
};
use softnet::poller::{PacketTurn, Readiness};
use softnet::proxy::rule::Rule;
use softnet::text::{push_decimal, push_ipv4, push_mac, push_signed};
use softnet::wire::{
    ArpPacket, EchoHeader, EthernetFrame, Ipv4Packet, TcpSegment, UdpPacket,
};

fn command() -> Command {
    Command::new("softnet")
        .arg(Arg::new("vm-fd").long("vm-fd").value_parser(parse_vm_fd))
        .arg(Arg::new("control-fd").long("control-fd").value_parser(parse_vm_fd))
        .arg(Arg::new("vm-mac-address").long("vm-mac-address"))
}

#[test]
fn test_cli_rejects_negative_vm_fd_before_startup() {
    let error = command()
        .try_get_matches_from([
            "softnet",
            "--vm-fd=-1",
            "--vm-mac-address=02:00:00:00:00:01",
        ])
        .unwrap_err();

    assert!(error
        .to_string()
        .contains("file descriptor must be non-negative"));
}

#[test]
fn test_cli_rejects_negative_control_fd_before_startup() {
    let error = command()
        .try_get_matches_from([
            "softnet",
            "--vm-fd=0",
            "--control-fd=-1",
            "--vm-mac-address=02:00:00:00:00:01",
        ])
        .unwrap_err();

    assert!(error
        .to_string()
        .contains("file descriptor must be non-negative"));
}

#[test]
fn test_new_rejects_negative_fd() {
    let error = check_fd(-1).err().unwrap();

    assert_eq!(
        error.message(Role::Vm, -1),
        "invalid VM file descriptor -1: value must be non-negative"
    );
}

#[test]
fn descriptors_are_numbers() {
    assert_eq!(parse_vm_fd("0"), Ok(0));
    assert_eq!(parse_vm_fd("+7"), Ok(7));
    assert_eq!(parse_vm_fd("2147483647"), Ok(i32::MAX));
    assert_eq!(
        parse_vm_fd("").unwrap_err(),
        "invalid file descriptor: cannot parse integer from empty string"
    );
    assert_eq!(
        parse_vm_fd("x").unwrap_err(),
        "invalid file descriptor: invalid digit found in string"
    );
    assert!(parse_vm_fd("2147483648").is_err());
    assert_eq!(check_fd(0), Ok(()));
}

#[test]
fn only_stateless_rules_are_taken_from_the_command_line() {
    assert_eq!(parse_supported_rule("@host"), Ok(Rule::parse("@host").unwrap()));
    assert_eq!(
        parse_supported_rule("in @host").unwrap_err(),
        "stateful rules are not supported yet"
    );
    assert_eq!(parse_supported_rule("host").unwrap_err(), "invalid IP address syntax");
}

#[test]
fn tags_are_pairs() {
    let pair = |a: &str, b: &str| (a.to_string(), b.to_string());
    assert_eq!(parse_tags("a=1,b=2=3,c,=,d="), vec![
        pair("a", "1"),
        pair("b", "2=3"),
        pair("", ""),
        pair("d", ""),
    ]);
    assert_eq!(parse_tags(""), vec![]);
    assert_eq!(parse_tags(",,"), vec![]);
}

#[test]
fn rights_decide_the_startup() {
    assert_eq!(startup(true, false, false, false), Startup::Exit);
    assert_eq!(startup(false, true, false, true), Startup::Run);
    assert_eq!(startup(false, false, true, false), Startup::Escalate);
    assert_eq!(startup(false, false, true, true), Startup::Refuse);
    assert_eq!(startup(false, false, false, false), Startup::Refuse);
}

const NUMBERS: SocketNumbers = SocketNumbers { datagram: 2, stream: 1, unix_family: 1 };

#[test]
fn vm_descriptors_are_unix_datagram_sockets() {
    let good = Probe {
        open: true,
        socket_type: Some(2),
        address: Some(SocketAddress { len: 2, family: 1 }),
        connected: false,
    };
    let message = |probe: Probe| validate_vm_fd(NUMBERS, probe).unwrap_err().message(Role::Vm, 5);
    assert_eq!(validate_vm_fd(NUMBERS, good), Ok(()));
    assert_eq!(
        message(Probe { open: false, ..good }),
        "failed to inspect VM file descriptor 5"
    );
    assert_eq!(
        message(Probe { socket_type: None, ..good }),
        "VM file descriptor 5 is not a socket"
    );
    assert_eq!(
        message(Probe { socket_type: Some(1), ..good }),
        "VM file descriptor 5 is not a Unix datagram socket"
    );
    assert_eq!(
        message(Probe { address: None, ..good }),
        "failed to inspect the address family of VM file descriptor 5"
    );
    assert_eq!(
        message(Probe { address: Some(SocketAddress { len: 0, family: 0 }), ..good }),
        "VM file descriptor 5 is not a Unix socket"
    );
    assert_eq!(
        DescriptorError::NotDuplicated.message(Role::Vm, 5),
        "failed to duplicate VM file descriptor 5"
    );
}

#[test]
fn control_descriptors_are_connected_unix_stream_sockets() {
    let good = Probe {
        open: false,
        socket_type: Some(1),
        address: Some(SocketAddress { len: 0, family: 0 }),
        connected: true,
    };
    let message =
        |probe: Probe| validate_control_fd(NUMBERS, probe).unwrap_err().message(Role::Control, 6);
    assert_eq!(validate_control_fd(NUMBERS, good), Ok(()));
    assert_eq!(
        message(Probe { socket_type: None, ..good }),
        "control file descriptor 6 is not a socket"
    );
    assert_eq!(
        message(Probe { socket_type: Some(2), ..good }),
        "control file descriptor 6 is not a Unix stream socket"
    );
    assert_eq!(
        message(Probe { address: None, ..good }),
        "failed to inspect the address family of control file descriptor 6"
    );
    assert_eq!(
        message(Probe { address: Some(SocketAddress { len: 16, family: 2 }), ..good }),
        "control file descriptor 6 is not a Unix socket"
    );
    assert_eq!(
        message(Probe { connected: false, ..good }),
        "control file descriptor 6 is not a connected Unix stream socket"
    );
    assert_eq!(
        DescriptorError::Negative.message(Role::Control, i32::MIN),
        "invalid control file descriptor -2147483648: value must be non-negative"
    );
}

#[test]
fn events_say_what_is_ready() {
    let nothing = Readiness::from_keys(&vec![]);
    assert!(nothing.is_timeout());
    assert!(!nothing.control_ready);
    let some = Readiness::from_keys(&vec![3, 0]);
    assert!(some.vm_readable && some.interrupt && !some.host_readable && !some.control_ready);
    assert!(!some.is_timeout());
    let control = Readiness::from_keys(&vec![2, 2]);
    assert!(control.control_ready && control.is_timeout());
    assert!(Readiness::from_keys(&vec![1]).host_readable);
}

#[test]
fn control_has_its_turn_every_128_packets() {
    let mut turn = PacketTurn::new();
    for _ in 0..2 {
        for _ in 0..127 {
            assert!(!turn.count());
        }
        assert!(turn.count());
    }
}

#[test]
fn addresses_have_octets() {
    let address = Ipv4Address::new(1, 2, 3, 4);
    assert_eq!(address.bits, 0x0102_0304);
    assert_eq!(address.octets(), [1, 2, 3, 4]);
    assert!(Ipv4Address::new(0, 0, 0, 0).is_unspecified());
    assert!(Ipv4Address::new(255, 255, 255, 255).is_broadcast());
    assert!(!address.is_unspecified() && !address.is_broadcast());

    let mac = EthernetAddress::new([1, 2, 3, 4, 5, 6]);
    assert_eq!(mac.bits, 0x0102_0304_0506);
    assert!(EthernetAddress::new([0xff; 6]).is_broadcast());
    assert!(!mac.is_broadcast());
}

#[test]
fn text_is_appended() {
    let mut text = String::from("<");
    push_decimal(&mut text, 0);
    text.push('|');
    push_decimal(&mut text, u64::MAX);
    text.push('|');
    push_signed(&mut text, -42);
    text.push('|');
    push_ipv4(&mut text, Ipv4Address::new(10, 0, 255, 1));
    text.push('|');
    push_mac(&mut text, EthernetAddress::new([0, 0x1a, 0xff, 9, 0xa0, 0x0b]));
    assert_eq!(text, "<0|18446744073709551615|-42|10.0.255.1|00:1a:ff:09:a0:0b");
}

#[test]
fn clocks_count_in_fractions_of_a_second() {
    let now = Instant { ticks: 10 };
    assert_eq!(now.plus_secs(2).ticks, 10 + (2 << 32));
    assert_eq!(now.plus(Duration::from_millis(1500)).ticks, 10 + (1 << 32) + (1 << 31));
    assert_eq!(Instant { ticks: u64::MAX }.plus_secs(1).ticks, u64::MAX);
    assert!(Instant { ticks: (2 << 32) - 1 }.is_within_secs_of(Instant { ticks: 0 }, 2));
    assert!(!Instant { ticks: 2 << 32 }.is_within_secs_of(Instant { ticks: 0 }, 2));
    assert!(Instant { ticks: 0 }.is_within_secs_of(Instant { ticks: 9 }, 1));

    let span = Duration::from_millis(2500).saturating_sub(Duration::from_millis(600));
    assert_eq!((span.secs, span.nanos), (1, 900_000_000));
    let none = Duration::from_secs(1).saturating_sub(Duration::from_millis(1001));
    assert_eq!((none.secs, none.nanos), (0, 0));

    coarsetime::Instant::update();
    assert_eq!(Instant::recent().ticks, coarsetime::Instant::recent().as_ticks());
}

#[test]
fn headers_are_read() {
    let mut bytes = vec![0u8; 14];
    bytes[..6].copy_from_slice(&[1, 2, 3, 4, 5, 6]);
    bytes[6..12].copy_from_slice(&[7, 8, 9, 10, 11, 12]);
    bytes[12] = 8;
    bytes.extend_from_slice(&[0xaa, 0xbb]);
    let frame = EthernetFrame::new_checked(&bytes).unwrap();
    assert_eq!(frame.dst_addr.bits, 0x0102_0304_0506);
    assert_eq!(frame.src_addr.bits, 0x0708_090a_0b0c);
    assert_eq!(frame.ethertype, 0x0800);
    assert_eq!(frame.payload, &[0xaa, 0xbb]);
    assert!(EthernetFrame::new_checked(&bytes[..13]).is_none());

    // A header of 24 bytes, the second fragment of a datagram, and trailing bytes.
    let mut ip = vec![0x46, 0, 0, 26, 0, 0, 0x20, 0x02, 64, 17, 0, 0, 10, 0, 0, 1, 10, 0, 0, 2];
    ip.extend_from_slice(&[0, 0, 0, 0, 0xca, 0xfe, 0xff]);
    let packet = Ipv4Packet::new_checked(&ip).unwrap();
    assert_eq!(packet.src_addr, Ipv4Address::new(10, 0, 0, 1));
    assert_eq!(packet.dst_addr, Ipv4Address::new(10, 0, 0, 2));
    assert_eq!(packet.next_header, 17);
    assert!(packet.more_frags);
    assert_eq!(packet.frag_offset, 16);
    assert_eq!(packet.header_len, 24);
    assert_eq!(packet.payload, &[0xca, 0xfe]);
    assert!(Ipv4Packet::new_checked(&ip[..25]).is_none());
    // The version matters only where the packet is parsed whole, and the checksum nowhere.
    assert!(Ipv4Packet::parse(&ip).is_some());
    ip[0] = 0x56;
    assert!(Ipv4Packet::new_checked(&ip).is_some());
    assert!(Ipv4Packet::parse(&ip).is_none());

    let udp = [0, 53, 0x13, 0x88, 0, 10, 0, 0, 1, 2, 3];
    let datagram = UdpPacket::new_checked(&udp).unwrap();
    assert_eq!((datagram.src_port, datagram.dst_port), (53, 5000));
    assert_eq!(datagram.payload, &[1, 2]);
    assert!(UdpPacket::new_checked(&udp[..9]).is_none());

    let mut tcp = vec![0u8; 20];
    tcp[1] = 22;
    tcp[3] = 80;
    tcp[12] = 0x50;
    tcp[13] = 0x12;
    let segment = TcpSegment::new_checked(&tcp).unwrap();
    assert_eq!((segment.src_port, segment.dst_port), (22, 80));
    assert!(segment.syn && segment.ack && !segment.fin && !segment.rst);
    tcp[12] = 0x60;
    assert!(TcpSegment::new_checked(&tcp).is_none());

    let echo = EchoHeader::new_checked(&[8, 0, 0xf7, 0xf8, 0, 6, 0, 1]).unwrap();
    assert_eq!((echo.msg_type, echo.msg_code, echo.echo_ident), (8, 0, 6));
    assert!(echo.checksum_ok);
    let echo = EchoHeader::new_checked(&[8, 0, 0xf7, 0xf9, 0, 6, 0, 1]).unwrap();
    assert!(!echo.checksum_ok);

    let mut arp = vec![0, 1, 8, 0, 6, 4, 0, 2, 1, 2, 3, 4, 5, 6, 10, 0, 0, 1];
    arp.extend_from_slice(&[0; 10]);
    let packet = ArpPacket::new_checked(&arp).unwrap();
    assert_eq!(packet.operation, 2);
    assert_eq!(packet.source_hardware_addr.bits, 0x0102_0304_0506);
    assert_eq!(packet.source_protocol_addr, Ipv4Address::new(10, 0, 0, 1));
    assert!(ArpPacket::new_checked(&arp[..27]).is_none());
}

fn interface(address: Ipv4Address, mac: Option<[u8; 6]>) -> Interface {
    Interface { addresses: vec![address], mac: mac.map(EthernetAddress::new) }
}

#[test]
fn the_host_is_put_together_from_what_it_reports() {
    let gateway = Ipv4Address::new(192, 168, 64, 1);
    let start = StartAddress::read(Some("192.168.64.1"));
    assert_eq!(start, StartAddress::Parsed(gateway));
    let no_ifaces = vec![];

    let config = Host::new(start, false, &no_ifaces, Some(1514), Some(256)).unwrap();
    assert_eq!(config.gateway_ip, gateway);
    assert_eq!(config.gateway_mac, None);
    assert_eq!((config.max_packet_size, config.read_max_packets), (1514, 256));

    let message = |start, peers, ifaces: &Vec<Interface>, size, packets| {
        Host::new(start, peers, ifaces, size, packets).unwrap_err().message()
    };
    let missing = StartAddress::read(None);
    assert_eq!(
        message(missing, false, &no_ifaces, Some(1), Some(1)),
        "failed to retrieve vmnet's interface start address"
    );
    for text in ["", "192.168.64", "192.168.064.1", "192.168.64.256", "192.168.64.1 "] {
        assert_eq!(
            message(StartAddress::read(Some(text)), false, &no_ifaces, Some(1), Some(1)),
            "failed to parse vmnet's interface start address"
        );
    }
    assert_eq!(
        message(start, false, &no_ifaces, None, None),
        "failed to retrieve vmnet's interface max packet size"
    );
    assert_eq!(
        message(start, false, &no_ifaces, Some(1), None),
        "failed to retrieve vmnet's interface read max packets"
    );
    assert_eq!(
        message(start, true, &no_ifaces, Some(1), Some(1)),
        "cannot enforce peers: no host interface has vmnet gateway IP 192.168.64.1"
    );
    let twice = vec![
        interface(gateway, Some([1; 6])),
        interface(gateway, None),
    ];
    assert_eq!(
        message(start, true, &twice, Some(1), Some(1)),
        "cannot enforce peers: multiple host interfaces have vmnet gateway IP 192.168.64.1"
    );

    let ifaces = vec![
        interface(Ipv4Address::new(10, 0, 0, 1), Some([1; 6])),
        interface(gateway, None),
        interface(gateway, Some([2; 6])),
    ];
    let config = Host::new(start, true, &ifaces, Some(1514), Some(256)).unwrap();
    assert_eq!(config.gateway_mac, Some(EthernetAddress::new([2; 6])));
    assert_eq!(
        gateway_mac(&ifaces, Ipv4Address::new(10, 0, 0, 2)),
        Err(HostError::NoGatewayInterface(Ipv4Address::new(10, 0, 0, 2)))
    );
}

#[test]
fn isolation_depends_on_the_policy() {
    assert!(enable_isolation(false, false));
    assert!(!enable_isolation(true, false));
    assert!(!enable_isolation(false, true));
    assert_ne!(NetType::Nat, NetType::Host);
}
