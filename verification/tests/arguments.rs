use udp_over_tcp::addr::{parse_port, port_or_given_addr};
use udp_over_tcp::{
    port_or_addr, AddrError, IpAddr, Ipv4Addr, Ipv6Addr, Missing, Opt, OptError, Options, Settings,
    SocketAddr,
};

fn v4(octets: [u8; 4], port: u16) -> SocketAddr {
    SocketAddr::V4 { ip: Ipv4Addr { octets }, port }
}

#[test]
fn ports() {
    assert_eq!(parse_port(b"7878"), Some(7878));
    assert_eq!(parse_port(b"0"), Some(0));
    assert_eq!(parse_port(b"+80"), Some(80));
    assert_eq!(parse_port(b"65535"), Some(65535));
    assert_eq!(parse_port(b"0000000000000080"), Some(80));
    assert_eq!(parse_port(b"65536"), None);
    assert_eq!(parse_port(b"99999999999999999999999"), None);
    for text in ["", "+", "-1", "-0", " 80", "80 ", "8_0", "0x50", "++1", "eighty"] {
        assert_eq!(parse_port(text.as_bytes()), None);
        assert_eq!(text.parse::<u16>().ok(), None);
    }
    assert_eq!(parse_port(&[0xff, 0x38]), None);
}

#[test]
fn a_given_address_comes_before_a_port() {
    let given = v4([10, 0, 0, 1], 7878);
    let default_addr = Ipv4Addr::localhost();
    assert_eq!(port_or_given_addr(b"10.0.0.1:7878", Some(given), default_addr), Ok(given));
    assert_eq!(port_or_given_addr(b"80", Some(given), default_addr), Ok(given));
    assert_eq!(port_or_given_addr(b"80", None, default_addr), Ok(v4([127, 0, 0, 1], 80)));
    assert_eq!(
        port_or_given_addr(b"somewhere", None, default_addr),
        Err(AddrError::NotAddrOrPort)
    );
}

#[test]
fn an_address_stands_as_it_is() {
    let default_addr = Ipv4Addr::localhost();
    assert_eq!(port_or_addr("10.0.0.1:7878", default_addr), Ok(v4([10, 0, 0, 1], 7878)));
    assert_eq!(port_or_addr("0.0.0.0:0", default_addr), Ok(v4([0, 0, 0, 0], 0)));
    let mut octets = [0u8; 16];
    octets[0] = 0xfe;
    octets[1] = 0x80;
    octets[15] = 1;
    let ip = Ipv6Addr { octets };
    assert_eq!(
        port_or_addr("[fe80::1]:53", default_addr),
        Ok(SocketAddr::V6 { ip, port: 53, flowinfo: 0, scope_id: 0 })
    );
    assert_eq!(
        port_or_addr("[fe80::1%3]:53", default_addr),
        Ok(SocketAddr::V6 { ip, port: 53, flowinfo: 0, scope_id: 3 })
    );
}

#[test]
fn a_port_takes_the_default_address() {
    assert_eq!(
        port_or_addr("7878", Ipv4Addr::localhost()),
        Ok(v4([127, 0, 0, 1], 7878))
    );
    assert_eq!(
        port_or_addr("7878", Ipv4Addr::unspecified()),
        Ok(v4([0, 0, 0, 0], 7878))
    );
}

#[test]
fn anything_else_is_refused() {
    for text in ["somewhere", "", "10.0.0.1", "10.0.0.1:65536", "::1:80", "localhost:80", "\u{e9}"] {
        let refused = port_or_addr(text, Ipv4Addr::localhost());
        assert_eq!(refused, Err(AddrError::NotAddrOrPort), "{}", text);
    }
    assert_eq!(
        AddrError::NotAddrOrPort.message(),
        "provided value is not an address or a port number"
    );
}

#[test]
fn addresses_and_their_parts() {
    let a = v4([1, 2, 3, 4], 80);
    assert_eq!(a.ip(), IpAddr::V4(Ipv4Addr { octets: [1, 2, 3, 4] }));
    assert_eq!(a.port(), 80);
    assert_eq!(SocketAddr::new(a.ip(), a.port()), a);
    let ip = Ipv6Addr { octets: [1, 2, 3, 4, 5, 6, 7, 8, 9, 10, 11, 12, 13, 14, 15, 16] };
    let b = SocketAddr::V6 { ip, port: 81, flowinfo: 2, scope_id: 3 };
    assert_eq!(b.ip(), IpAddr::V6(ip));
    assert_eq!(b.port(), 81);
    let c = SocketAddr::V6 { ip, port: 81, flowinfo: 0, scope_id: 0 };
    assert_eq!(SocketAddr::new(b.ip(), b.port()), c);
}

#[test]
fn keys_tell_addresses_apart() {
    assert_eq!(v4([1, 2, 3, 4], 80).key(), (false, 0x0403_0201, 80, 0, 0));
    let mut octets = [0u8; 16];
    octets[..4].copy_from_slice(&[1, 2, 3, 4]);
    let ip = Ipv6Addr { octets };
    let a = SocketAddr::V6 { ip, port: 80, flowinfo: 0, scope_id: 0 };
    assert_eq!(a.key(), (true, 0x0403_0201, 80, 0, 0));
    octets[15] = 255;
    let b = SocketAddr::V6 { ip: Ipv6Addr { octets }, port: 80, flowinfo: 5, scope_id: 6 };
    assert_eq!(b.key(), (true, (255u128 << 120) + 0x0403_0201, 80, 5, 6));
}

#[test]
fn options_default_by_what_they_do() {
    for (opt, octets) in [
        (Opt::TcpListen, [0, 0, 0, 0]),
        (Opt::TcpConnect, [127, 0, 0, 1]),
        (Opt::UdpBind, [0, 0, 0, 0]),
        (Opt::UdpSendto, [127, 0, 0, 1]),
    ] {
        assert_eq!(opt.default_addr(), Ipv4Addr { octets });
        let mut options = Options::new();
        assert_eq!(options.accept(opt, "7878"), Ok(()));
        let taken = match opt {
            Opt::TcpListen | Opt::TcpConnect => options.tcp_addr,
            Opt::UdpBind => options.udp_bind,
            Opt::UdpSendto => options.udp_sendto,
        };
        assert_eq!(taken, Some(v4(octets, 7878)));
        assert_eq!(options.listen, opt == Opt::TcpListen);
    }
}

#[test]
fn options_are_given_once() {
    let mut options = Options::new();
    assert_eq!(options.accept(Opt::TcpListen, "1"), Ok(()));
    assert!(!options.admits(Opt::TcpConnect));
    assert!(!options.admits(Opt::TcpListen));
    assert!(options.admits(Opt::UdpBind));
    let before = options;
    assert_eq!(options.accept(Opt::TcpConnect, "2"), Err(OptError::Unexpected));
    assert_eq!(options, before);
    assert_eq!(options.accept(Opt::UdpBind, "3"), Ok(()));
    assert_eq!(options.accept(Opt::UdpBind, "3"), Err(OptError::Unexpected));
    assert_eq!(
        options.accept(Opt::UdpSendto, "no"),
        Err(OptError::Value(AddrError::NotAddrOrPort))
    );
    assert!(options.admits(Opt::UdpSendto));
}

#[test]
fn all_options_are_needed() {
    let mut options = Options::new();
    assert_eq!(options.finish(), Err(Missing::Tcp));
    assert_eq!(Missing::Tcp.message(), None);
    options.accept(Opt::TcpConnect, "7878").unwrap();
    assert_eq!(options.finish(), Err(Missing::UdpBind));
    assert_eq!(Missing::UdpBind.message(), Some("no udp port given"));
    options.accept(Opt::UdpBind, "5000").unwrap();
    assert_eq!(options.finish(), Err(Missing::UdpSendto));
    assert_eq!(Missing::UdpSendto.message(), Some("no udp forward destination given"));
    let there = v4([10, 0, 0, 1], 6000);
    options.accept(Opt::UdpSendto, "10.0.0.1:6000").unwrap();
    assert_eq!(
        options.finish(),
        Ok(Settings {
            listen: false,
            tcp_addr: v4([127, 0, 0, 1], 7878),
            udp_bind: v4([0, 0, 0, 0], 5000),
            udp_sendto: there,
        })
    );
}

#[test]
fn an_option_takes_what_its_value_gives() {
    let there = v4([10, 1, 2, 3], 53);
    let mut options = Options::new();
    assert_eq!(options.accept_addr(Opt::UdpBind, Ok(there)), Ok(()));
    assert_eq!(options.udp_bind, Some(there));
    assert_eq!(options.accept_addr(Opt::UdpBind, Ok(there)), Err(OptError::Unexpected));
    assert_eq!(
        options.accept_addr(Opt::UdpSendto, Err(AddrError::NotAddrOrPort)),
        Err(OptError::Value(AddrError::NotAddrOrPort))
    );
    assert_eq!(options.udp_sendto, None);
    let mut options = Options::new();
    assert_eq!(options.accept(Opt::UdpBind, "10.1.2.3:53"), Ok(()));
    assert_eq!(options.udp_bind, Some(there));
}
