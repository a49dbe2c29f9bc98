use udp_over_tcp::frame::frame_header;
use udp_over_tcp::{
    Action, Connect, Event, Ipv4Addr, Ipv6Addr, SocketAddr, UdpPacketWrapper, UdpToTcp, Waits,
};

fn v4(octets: [u8; 4], port: u16) -> SocketAddr {
    SocketAddr::V4 { ip: Ipv4Addr { octets }, port }
}

fn tcp_addr() -> SocketAddr {
    v4([127, 0, 0, 1], 7878)
}

/// A forwarder that has opened its first UDP socket, number 0, at port 5000.
fn opened(listen: bool) -> UdpToTcp {
    let udp_bind = v4([0, 0, 0, 0], 5000);
    let mut forwarder = UdpToTcp::new(listen, tcp_addr(), udp_bind, v4([10, 0, 0, 9], 6000));
    let tcp_listen = if listen { Some(tcp_addr()) } else { None };
    assert_eq!(
        forwarder.run(Event::Start { udp_bind }),
        Action::Open { tcp_listen, udp_bind }
    );
    let waits = forwarder.run(Event::Opened { local_port: 5000, socket: 0 });
    let connect = if listen { Connect::Never } else { Connect::Now(tcp_addr()) };
    assert_eq!(waits, Action::Wait(Waits { connect, accept: listen, read: false }));
    forwarder
}

/// A forwarder with a TCP connection.
fn connected(listen: bool) -> UdpToTcp {
    let mut forwarder = opened(listen);
    let event = if listen { Event::Accepted } else { Event::Connected };
    assert_eq!(
        forwarder.run(event),
        Action::Wait(Waits { connect: Connect::Never, accept: listen, read: true })
    );
    forwarder
}

fn frame(data: &[u8], source_addr: SocketAddr, target_port: u16) -> Vec<u8> {
    let message = UdpPacketWrapper { data: data.to_vec(), source_addr, target_port }.encode();
    let mut bytes = frame_header(&message);
    bytes.extend_from_slice(&message);
    bytes
}

fn received(data: &[u8], source_addr: SocketAddr, local_port: u16) -> Event {
    Event::UdpReceived { local_port, data: data.to_vec(), source_addr }
}

fn send(socket: usize, data: &[u8], port: u16) -> Action {
    Action::Send { socket, data: data.to_vec(), to: v4([10, 0, 0, 9], port) }
}

/// Answers `Bind` with the port that was asked for, and gives the action that follows.
fn bind(forwarder: &mut UdpToTcp, action: Action, socket: usize) -> Action {
    match action {
        Action::Bind { packet, preferred, fallback } => {
            assert_eq!(fallback, v4([0, 0, 0, 0], 0));
            let local_port = preferred.port();
            forwarder.run(Event::Bound { packet, local_port, socket })
        }
        other => panic!("{:?}", other),
    }
}

#[test]
fn datagram_is_written_as_a_frame() {
    let mut forwarder = connected(false);
    let source = v4([192, 168, 0, 1], 40000);
    match forwarder.run(received(&[1, 2, 3], source, 5000)) {
        Action::Write { header, message } => {
            assert_eq!(header, vec![15, 0, 0, 0]);
            assert_eq!(
                message,
                vec![3, 1, 2, 3, 0, 192, 168, 0, 1, 251, 0x40, 0x9c, 251, 0x88, 0x13]
            );
        }
        other => panic!("{:?}", other),
    }
    assert_eq!(
        forwarder.run(Event::Written),
        Action::Wait(Waits { connect: Connect::Never, accept: false, read: true })
    );
}

#[test]
fn datagram_without_connection_is_dropped() {
    let mut forwarder = opened(true);
    assert_eq!(
        forwarder.run(received(&[1], v4([1, 1, 1, 1], 1), 5000)),
        Action::Wait(Waits { connect: Connect::Never, accept: true, read: false })
    );
}

#[test]
fn datagram_crosses_and_answer_returns() {
    let mut x = connected(false);
    let mut y = connected(true);
    let source = v4([192, 168, 0, 1], 40000);
    let wire = match x.run(received(b"question", source, 5000)) {
        Action::Write { mut header, mut message } => {
            header.append(&mut message);
            header
        }
        other => panic!("{:?}", other),
    };
    let action = y.run(Event::TcpRead { bytes: wire });
    match &action {
        Action::Bind { packet, preferred, .. } => {
            assert_eq!(packet.source_addr, source);
            assert_eq!(packet.target_port, 5000);
            assert_eq!(*preferred, v4([0, 0, 0, 0], 40000));
        }
        other => panic!("{:?}", other),
    }
    assert_eq!(bind(&mut y, action, 1), send(1, b"question", 5000));
    assert!(matches!(y.run(Event::Sent), Action::Wait(_)));

    // the answer comes in at the socket that stands for the source
    let wire = match y.run(received(b"answer", v4([10, 0, 0, 9], 5000), 40000)) {
        Action::Write { mut header, mut message } => {
            header.append(&mut message);
            header
        }
        other => panic!("{:?}", other),
    };
    // port 5000 is taken by the first socket, so a socket at another port stands for the answerer
    match x.run(Event::TcpRead { bytes: wire }) {
        Action::Bind { packet, preferred, fallback } => {
            assert_eq!(preferred, v4([0, 0, 0, 0], 5000));
            assert_eq!(fallback, v4([0, 0, 0, 0], 0));
            let action = x.run(Event::Bound { packet, local_port: 44444, socket: 1 });
            assert_eq!(action, send(1, b"answer", 40000));
        }
        other => panic!("{:?}", other),
    }
}

#[test]
fn ipv6_source_gets_a_socket() {
    let mut forwarder = connected(true);
    let source = SocketAddr::V6 {
        ip: Ipv6Addr { octets: [9; 16] },
        port: 40000,
        flowinfo: 0,
        scope_id: 0,
    };
    let action = forwarder.run(Event::TcpRead { bytes: frame(&[1], source, 5000) });
    assert_eq!(bind(&mut forwarder, action, 1), send(1, &[1], 5000));
    let action = forwarder.run(Event::TcpRead { bytes: frame(&[2], source, 5001) });
    assert_eq!(action, send(1, &[2], 5001));
}

#[test]
fn one_socket_per_source() {
    let mut forwarder = connected(true);
    let a = v4([1, 1, 1, 1], 1000);
    let b = v4([2, 2, 2, 2], 1000);
    let action = forwarder.run(Event::TcpRead { bytes: frame(b"a", a, 5000) });
    assert_eq!(bind(&mut forwarder, action, 1), send(1, b"a", 5000));
    // the port is taken, so the second source gets another
    let action = forwarder.run(Event::TcpRead { bytes: frame(b"b", b, 5000) });
    let packet = match action {
        Action::Bind { packet, .. } => packet,
        other => panic!("{:?}", other),
    };
    let action = forwarder.run(Event::Bound { packet, local_port: 33333, socket: 2 });
    assert_eq!(action, send(2, b"b", 5000));
    for _ in 0..3 {
        let action = forwarder.run(Event::TcpRead { bytes: frame(b"a", a, 5000) });
        assert_eq!(action, send(1, b"a", 5000));
        let action = forwarder.run(Event::TcpRead { bytes: frame(b"b", b, 5000) });
        assert_eq!(action, send(2, b"b", 5000));
    }
}

#[test]
fn a_port_keeps_its_first_socket_and_its_last_source() {
    let mut forwarder = connected(true);
    assert_eq!(forwarder.add_udp_sock(1000, 1), 1000);
    let a = v4([1, 1, 1, 1], 1000);
    let b = v4([2, 2, 2, 2], 1000);
    let action = forwarder.run(Event::TcpRead { bytes: frame(b"a", a, 5000) });
    assert_eq!(bind(&mut forwarder, action, 2), send(1, b"a", 5000));
    let action = forwarder.run(Event::TcpRead { bytes: frame(b"b", b, 5000) });
    assert_eq!(bind(&mut forwarder, action, 3), send(1, b"b", 5000));
    // the port stands for the second source now, and no longer for the first
    assert_eq!(
        forwarder.run(Event::TcpRead { bytes: frame(b"b", b, 5000) }),
        send(1, b"b", 5000)
    );
    assert!(matches!(
        forwarder.run(Event::TcpRead { bytes: frame(b"a", a, 5000) }),
        Action::Bind { .. }
    ));
}

#[test]
fn datagrams_arrive_in_order_however_the_stream_is_cut() {
    let source = v4([1, 1, 1, 1], 1000);
    let datagrams: Vec<Vec<u8>> = vec![vec![], vec![1], vec![2; 300], vec![3; 5]];
    let mut stream = Vec::new();
    for d in &datagrams {
        stream.extend_from_slice(&frame(d, source, 5000));
    }
    for size in [1, 2, 3, 4, 5, 7, 64, 300, 1000] {
        let mut forwarder = connected(true);
        let mut sent: Vec<Vec<u8>> = Vec::new();
        for piece in stream.chunks(size) {
            let mut action = forwarder.run(Event::TcpRead { bytes: piece.to_vec() });
            loop {
                action = match action {
                    Action::Send { socket, data, to } => {
                        assert_eq!((socket, to), (1, v4([10, 0, 0, 9], 5000)));
                        sent.push(data);
                        forwarder.run(Event::Sent)
                    }
                    Action::Wait(waits) => {
                        assert!(waits.read);
                        break;
                    }
                    action => bind(&mut forwarder, action, 1),
                };
            }
        }
        assert_eq!(sent, datagrams);
    }
}

#[test]
fn bytes_that_are_no_packet_end_it() {
    let mut forwarder = connected(true);
    let source = v4([1, 1, 1, 1], 1000);
    let mut bytes = frame(&[1], source, 5000);
    bytes.extend_from_slice(&[1, 0, 0, 0, 9]);
    let action = forwarder.run(Event::TcpRead { bytes });
    assert_eq!(bind(&mut forwarder, action, 1), send(1, &[1], 5000));
    assert_eq!(forwarder.run(Event::Sent), Action::Malformed);
}

#[test]
fn failed_attempt_is_repeated_after_a_second() {
    let mut forwarder = opened(false);
    assert_eq!(
        forwarder.run(Event::ConnectFailed),
        Action::Wait(Waits { connect: Connect::After(1), accept: false, read: false })
    );
    // what comes in meanwhile does not end the delay
    assert_eq!(
        forwarder.run(received(&[1], v4([1, 1, 1, 1], 1), 5000)),
        Action::Wait(Waits { connect: Connect::After(1), accept: false, read: false })
    );
    assert_eq!(
        forwarder.run(Event::RetryDue),
        Action::Wait(Waits { connect: Connect::Now(tcp_addr()), accept: false, read: false })
    );
}

#[test]
fn lost_connection_is_replaced() {
    for event in [Event::WriteFailed, Event::TcpRead { bytes: vec![] }] {
        let mut forwarder = connected(false);
        assert_eq!(
            forwarder.run(event),
            Action::Wait(Waits { connect: Connect::Now(tcp_addr()), accept: false, read: false })
        );
    }
    let mut forwarder = connected(true);
    assert_eq!(
        forwarder.run(Event::WriteFailed),
        Action::Wait(Waits { connect: Connect::Never, accept: true, read: false })
    );
}

#[test]
fn new_connection_starts_clean_and_keeps_the_mapping() {
    let mut forwarder = connected(true);
    let source = v4([1, 1, 1, 1], 1000);
    let whole = frame(b"x", source, 5000);
    let action = forwarder.run(Event::TcpRead { bytes: whole.clone() });
    assert_eq!(bind(&mut forwarder, action, 1), send(1, b"x", 5000));
    // half a frame of the old connection
    let half = forwarder.run(Event::TcpRead { bytes: whole[..6].to_vec() });
    assert!(matches!(half, Action::Wait(_)));
    assert!(matches!(forwarder.run(Event::Accepted), Action::Wait(_)));
    assert_eq!(
        forwarder.run(Event::TcpRead { bytes: whole }),
        send(1, b"x", 5000)
    );
}

/// Sends all that can be sent, and gives the data that went out.
fn drain(forwarder: &mut UdpToTcp, action: Action, socket: usize) -> Vec<Vec<u8>> {
    let mut action = action;
    let mut sent: Vec<Vec<u8>> = Vec::new();
    loop {
        action = match action {
            Action::Send { data, .. } => {
                sent.push(data);
                forwarder.run(Event::Sent)
            }
            Action::Wait(_) => return sent,
            action => bind(forwarder, action, socket),
        };
    }
}

#[test]
fn frames_of_any_writer_are_sent_and_the_rest_waits() {
    // a frame with more in it than its packet, a plain one, and the start of a third
    let source = v4([1, 1, 1, 1], 1000);
    let mut message =
        UdpPacketWrapper { data: vec![1], source_addr: source, target_port: 5000 }.encode();
    message.extend_from_slice(&[9, 9, 9]);
    let mut stream = frame_header(&message);
    stream.extend_from_slice(&message);
    stream.extend_from_slice(&frame(&[2], source, 5000));
    let third = frame(&[3], source, 5000);
    stream.extend_from_slice(&third[..7]);
    for size in [1, 3, 10, 1000] {
        let mut forwarder = connected(true);
        let mut sent: Vec<Vec<u8>> = Vec::new();
        for piece in stream.chunks(size) {
            let action = forwarder.run(Event::TcpRead { bytes: piece.to_vec() });
            sent.append(&mut drain(&mut forwarder, action, 1));
        }
        assert_eq!(sent, vec![vec![1], vec![2]]);
        let action = forwarder.run(Event::TcpRead { bytes: third[7..].to_vec() });
        assert_eq!(action, send(1, &[3], 5000));
    }
}

#[test]
fn source_keeps_its_socket_for_the_whole_run() {
    let mut forwarder = connected(true);
    let a = v4([1, 1, 1, 1], 1000);
    let action = forwarder.run(Event::TcpRead { bytes: frame(b"a", a, 5000) });
    assert_eq!(bind(&mut forwarder, action, 1), send(1, b"a", 5000));
    for i in 2..10 {
        let other = v4([1, 1, 1, 1], 1000 + i);
        let action = forwarder.run(Event::TcpRead { bytes: frame(b"b", other, 5000) });
        assert_eq!(bind(&mut forwarder, action, i as usize), send(i as usize, b"b", 5000));
        assert!(matches!(forwarder.run(Event::WriteFailed), Action::Wait(_)));
        assert!(matches!(forwarder.run(Event::Accepted), Action::Wait(_)));
        let action = forwarder.run(Event::TcpRead { bytes: frame(b"a", a, 5000) });
        assert_eq!(action, send(1, b"a", 5000));
        let action = forwarder.run(Event::TcpRead { bytes: frame(b"b", other, 5000) });
        assert_eq!(action, send(i as usize, b"b", 5000));
    }
}

#[test]
fn lost_connection_is_replaced_at_once_after_earlier_failures() {
    let mut forwarder = opened(false);
    for _ in 0..3 {
        assert!(matches!(forwarder.run(Event::ConnectFailed), Action::Wait(_)));
        assert!(matches!(forwarder.run(Event::RetryDue), Action::Wait(_)));
    }
    assert_eq!(
        forwarder.run(Event::Connected),
        Action::Wait(Waits { connect: Connect::Never, accept: false, read: true })
    );
    assert_eq!(
        forwarder.run(Event::TcpRead { bytes: vec![] }),
        Action::Wait(Waits { connect: Connect::Now(tcp_addr()), accept: false, read: false })
    );
}
