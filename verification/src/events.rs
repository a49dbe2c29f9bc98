//! What each event does to a forwarder, and what it asks for in return.

use vstd::prelude::*;

use crate::addr::{law_key_tells_addresses_apart, IpAddr, SocketAddr};
use crate::forward::{Action, ActionView, Connect, Event, EventView, State, UdpToTcp};
use crate::frame::{
    first_message, header, law_header_spells_the_length, law_message_is_taken_off_the_front,
};
use crate::packet::{law_what_crosses, Packet};

verus! {

/// The unread bytes with those that an event brings.
pub open spec fn fed(s: State, event: EventView) -> Seq<u8> {
    match event {
        EventView::TcpRead { bytes } => s.unread + bytes,
        _ => s.unread,
    }
}

/// Whether a packet may be taken off at an event: when bytes were read, and when the packet before
/// it was sent.
pub open spec fn may_take(event: EventView) -> bool {
    match event {
        EventView::TcpRead { bytes } => bytes.len() > 0,
        EventView::Sent => true,
        _ => false,
    }
}

/// Whether an address is that of `port` at the IP address of `at`, with nothing else to it.
pub open spec fn is_port_at(addr: SocketAddr, at: IpAddr, port: u16) -> bool {
    match addr {
        SocketAddr::V4 { ip, port: p } => at == IpAddr::V4(ip) && p == port,
        SocketAddr::V6 { ip, port: p, flowinfo, scope_id } => at == IpAddr::V6(ip) && p
            == port && flowinfo == 0 && scope_id == 0,
    }
}

/// A new forwarder has the settings that it was given, no connection and no delay, and knows of no
/// source, no socket and no bytes.
pub proof fn law_new_forwarder_knows_its_settings_alone(
    listen: bool,
    tcp_addr: SocketAddr,
    udp_bind: SocketAddr,
    initial_udp_sendto: SocketAddr,
)
    ensures
        ({
            let s = State::initial(listen, tcp_addr, udp_bind, initial_udp_sendto);
            &&& s.listen == listen
            &&& s.tcp_addr == tcp_addr
            &&& s.udp_ip_bind == match udp_bind {
                SocketAddr::V4 { ip, .. } => IpAddr::V4(ip),
                SocketAddr::V6 { ip, .. } => IpAddr::V6(ip),
            }
            &&& s.udp_ip_peer == match initial_udp_sendto {
                SocketAddr::V4 { ip, .. } => IpAddr::V4(ip),
                SocketAddr::V6 { ip, .. } => IpAddr::V6(ip),
            }
            &&& !s.connected
            &&& !s.connect_again
            &&& forall|key| !s.ports.dom().contains(key)
            &&& forall|port| !s.sockets.dom().contains(port)
            &&& s.unread.len() == 0
        }),
{
}

/// What [`UdpToTcp::new`] makes has the settings that it was given.
pub proof fn law_new_keeps_what_it_is_given(
    listen: bool,
    tcp_addr: SocketAddr,
    udp_bind: SocketAddr,
    initial_udp_sendto: SocketAddr,
    forwarder: UdpToTcp,
)
    requires
        call_ensures(
            UdpToTcp::new,
            (listen, tcp_addr, udp_bind, initial_udp_sendto),
            forwarder,
        ),
    ensures
        forwarder.wf(),
        forwarder@.listen == listen,
        forwarder@.tcp_addr == tcp_addr,
        forwarder@.udp_ip_bind == udp_bind.spec_ip(),
        forwarder@.udp_ip_peer == initial_udp_sendto.spec_ip(),
        !forwarder@.connected,
        forwarder@.unread.len() == 0,
{
}

/// At the start the first UDP socket is to be bound where the event says; a listener is to listen
/// at its TCP address, and the other side at none. Nothing else has changed.
pub proof fn law_start_opens_what_was_given(s: State, udp_bind: SocketAddr)
    ensures
        s.step(EventView::Start { udp_bind }).0 == s,
        s.step(EventView::Start { udp_bind }).1 matches ActionView::Open {
            tcp_listen,
            udp_bind: bound,
        } && {
            &&& bound == udp_bind
            &&& s.listen ==> tcp_listen == Some(s.tcp_addr)
            &&& !s.listen ==> tcp_listen is None
        },
{
}

/// A new forwarder listens at the very address that it was given.
pub proof fn law_new_forwarder_listens_where_it_was_told(
    listen: bool,
    tcp_addr: SocketAddr,
    udp_bind: SocketAddr,
    initial_udp_sendto: SocketAddr,
    first: SocketAddr,
)
    ensures
        State::initial(listen, tcp_addr, udp_bind, initial_udp_sendto).step(
            EventView::Start { udp_bind: first },
        ).1 == (ActionView::Open {
            tcp_listen: if listen {
                Some(tcp_addr)
            } else {
                None
            },
            udp_bind: first,
        }),
{
}

/// What kind of action each event leads to.
pub proof fn law_what_an_event_leads_to(s: State, event: EventView)
    ensures
        event is Start <==> s.step(event).1 is Open,
        event is Opened || event is Connected || event is ConnectFailed || event is RetryDue
            || event is Accepted || event is Written || event is WriteFailed ==> s.step(
            event,
        ).1 is Wait,
        event == (EventView::TcpRead { bytes: Seq::<u8>::empty() }) ==> s.step(event).1 is Wait,
        event is UdpReceived && !s.connected ==> s.step(event).1 is Wait,
        event is UdpReceived && s.connected <==> s.step(event).1 is Write,
        event is Bound ==> s.step(event).1 is Send,
        may_take(event) ==> match first_message(fed(s, event)) {
            None => s.step(event).1 is Wait,
            Some(message) => match Packet::read(message) {
                None => s.step(event).1 is Malformed,
                Some(packet) => if s.ports.dom().contains(packet.source_addr.spec_key()) {
                    s.step(event).1 is Send
                } else {
                    s.step(event).1 is Bind
                },
            },
        },
{
}

/// An action to wait says what the forwarder waits for as things stand then: a listener accepts,
/// whatever has happened; a connection is read; the other side connects to its TCP address while
/// it has no connection, or lets a second pass first if an attempt has failed.
pub proof fn law_waiting_is_for_what_is_needed(s: State, event: EventView)
    ensures
        s.step(event).1 matches ActionView::Wait(waits) ==> {
            let next = s.step(event).0;
            &&& waits.accept == s.listen
            &&& waits.read == next.connected
            &&& match waits.connect {
                Connect::Never => next.connected || s.listen,
                Connect::Now(addr) => !next.connected && !s.listen && !next.connect_again && addr
                    == s.tcp_addr,
                Connect::After(secs) => !next.connected && !s.listen && next.connect_again && secs
                    == 1,
            }
        },
{
}

/// There is a connection from when it is made or accepted until it is closed or cannot be written;
/// nothing else makes or ends one.
pub proof fn law_when_there_is_a_connection(s: State, event: EventView)
    ensures
        s.step(event).0.connected <==> {
            ||| event is Connected
            ||| event is Accepted
            ||| s.connected && event !is WriteFailed && event != (EventView::TcpRead {
                bytes: Seq::<u8>::empty(),
            })
        },
{
    if let EventView::TcpRead { bytes } = event {
        if bytes.len() == 0 {
            assert(bytes =~= Seq::<u8>::empty());
        }
    }
}

/// A failed attempt starts a delay; the end of the delay or a connection ends it, and nothing else
/// does either.
pub proof fn law_when_there_is_a_delay(s: State, event: EventView)
    ensures
        s.step(event).0.connect_again <==> {
            ||| event is ConnectFailed
            ||| s.connect_again && event !is RetryDue && event !is Connected
        },
{
}

/// A source gets a port only when a socket is bound for it, and then the one that the socket got;
/// another source loses its port only where that is the port that the socket got.
pub proof fn law_when_a_source_has_a_port(s: State, event: EventView, source_addr: SocketAddr)
    ensures
        ({
            let key = source_addr.spec_key();
            let next = s.step(event).0;
            match event {
                EventView::Bound { packet, local_port, .. } => if packet.source_addr
                    == source_addr {
                    next.ports.dom().contains(key) && next.ports[key] == local_port
                } else {
                    &&& next.ports.dom().contains(key) <==> s.ports.dom().contains(key)
                        && s.ports[key] != local_port
                    &&& next.ports.dom().contains(key) ==> next.ports[key] == s.ports[key]
                },
                _ => next.ports == s.ports,
            }
        }),
{
    if let EventView::Bound { packet, .. } = event {
        law_key_tells_addresses_apart(packet.source_addr, source_addr);
    }
}

/// A port gets a socket only when one is opened or bound there, and keeps the first that it got.
pub proof fn law_when_a_port_has_a_socket(s: State, event: EventView, port: u16)
    ensures
        ({
            let next = s.step(event).0;
            let got: Option<usize> = match event {
                EventView::Opened { local_port, socket } if local_port == port => Some(socket),
                EventView::Bound { local_port, socket, .. } if local_port == port => Some(socket),
                _ => None,
            };
            &&& next.sockets.dom().contains(port) <==> s.sockets.dom().contains(port) || got is Some
            &&& s.sockets.dom().contains(port) ==> next.sockets[port] == s.sockets[port]
            &&& !s.sockets.dom().contains(port) && got is Some ==> next.sockets[port] == got->0
        }),
{
}

/// The unread bytes change only when bytes are read, when a packet is taken off, and when there is
/// a new connection. Bytes that are read stand behind them; a packet is taken off with its header
/// from the front, and what stood behind it stays; a new connection starts with none.
pub proof fn law_when_the_unread_bytes_change(s: State, event: EventView)
    ensures
        event is Connected || event is Accepted ==> s.step(event).0.unread == Seq::<u8>::empty(),
        event !is TcpRead && event !is Sent && event !is Connected && event !is Accepted ==> s.step(
            event,
        ).0.unread == s.unread,
        event is TcpRead || event is Sent ==> if s.step(event).1 is Send || s.step(
            event,
        ).1 is Bind {
            first_message(fed(s, event)) matches Some(message) && fed(s, event) == header(message)
                + message + s.step(event).0.unread
        } else {
            s.step(event).0.unread == fed(s, event)
        },
{
    if let Some(message) = first_message(fed(s, event)) {
        law_message_is_taken_off_the_front(fed(s, event), message);
    }
    if let EventView::TcpRead { bytes } = event {
        if bytes.len() == 0 {
            assert(s.unread + bytes =~= s.unread);
        }
    }
}

/// Writing to the TCP connection, and having written, leave a forwarder as it was, with all that
/// it has read so far.
pub proof fn law_writing_changes_nothing(s: State, event: EventView)
    requires
        event is UdpReceived || event is Written,
    ensures
        s.step(event).0 == s,
{
}

/// What is written for a datagram is a header of four bytes that spells the length of the message,
/// least significant byte first, and a message that reads as the datagram: its data, the port
/// where it came in, and the IP address and port that it came from.
pub proof fn law_what_is_written(
    s: State,
    local_port: u16,
    data: Seq<u8>,
    source_addr: SocketAddr,
)
    requires
        s.connected,
        data.len() <= usize::MAX,
        (Packet { data, source_addr, target_port: local_port }).bytes().len() <= u32::MAX,
    ensures
        s.step(EventView::UdpReceived { local_port, data, source_addr }).1 matches
            ActionView::Write { header: h, message } && {
            &&& h.len() == 4
            &&& h[0] + 0x100 * h[1] + 0x1_0000 * h[2] + 0x100_0000 * h[3] == message.len()
            &&& message == (Packet { data, source_addr, target_port: local_port }).bytes()
            &&& Packet::read(message) matches Some(packet) && {
                &&& packet.data == data
                &&& packet.target_port == local_port
                &&& match source_addr {
                    SocketAddr::V4 { ip, port } => packet.source_addr == source_addr,
                    SocketAddr::V6 { ip, port, .. } => packet.source_addr == (SocketAddr::V6 {
                        ip,
                        port,
                        flowinfo: 0,
                        scope_id: 0,
                    }),
                }
            }
        },
{
    let packet = Packet { data, source_addr, target_port: local_port };
    law_what_crosses(packet, Seq::empty());
    assert(packet.bytes() + Seq::<u8>::empty() =~= packet.bytes());
    law_header_spells_the_length(packet.bytes());
}

/// What is written for a datagram is always the frame of one packet, which holds the data and the
/// source as they came in, and the port where they came in.
pub proof fn law_what_is_written_is_a_frame(
    s: State,
    local_port: u16,
    data: Seq<u8>,
    source_addr: SocketAddr,
)
    requires
        s.connected,
    ensures
        s.step(EventView::UdpReceived { local_port, data, source_addr }).1 matches
            ActionView::Write { header: h, message } && h == header(message) && message == (Packet {
            data,
            source_addr,
            target_port: local_port,
        }).bytes(),
{
}

/// The packet that an event is about: the one that a socket was bound for, or the first of the
/// unread bytes.
pub open spec fn packet_at(s: State, event: EventView) -> Packet {
    match event {
        EventView::Bound { packet, .. } => packet,
        _ => Packet::read(first_message(fed(s, event))->0)->0,
    }
}

/// What is sent is the data of the packet, to its target port at the peer, from the socket at the
/// port that stands for its source.
pub proof fn law_what_is_sent(s: State, event: EventView)
    ensures
        s.step(event).1 matches ActionView::Send { socket, data, to } ==> {
            let packet = packet_at(s, event);
            let next = s.step(event).0;
            &&& next.ports.dom().contains(packet.source_addr.spec_key())
            &&& socket == next.sockets[next.ports[packet.source_addr.spec_key()]]
            &&& data == packet.data
            &&& is_port_at(to, s.udp_ip_peer, packet.target_port)
        },
{
}

/// A packet that a socket was just bound for leaves from that very socket, unless its port had one
/// already.
pub proof fn law_new_socket_is_used(
    s: State,
    packet: Packet,
    local_port: u16,
    socket: usize,
)
    ensures
        s.step(EventView::Bound { packet, local_port, socket }).1 matches ActionView::Send {
            socket: used,
            data,
            to,
        } && {
            &&& used == if s.sockets.dom().contains(local_port) {
                s.sockets[local_port]
            } else {
                socket
            }
            &&& data == packet.data
            &&& is_port_at(to, s.udp_ip_peer, packet.target_port)
        },
{
}

/// A socket is asked for with the packet that needs it, at the forwarder's own IP address: at the
/// port that the source has, or else at any port, which is what port 0 stands for.
pub proof fn law_what_is_bound(s: State, event: EventView)
    ensures
        s.step(event).1 matches ActionView::Bind { packet, preferred, fallback } ==> {
            &&& packet == packet_at(s, event)
            &&& !s.ports.dom().contains(packet.source_addr.spec_key())
            &&& is_port_at(preferred, s.udp_ip_bind, packet.source_addr.spec_port())
            &&& is_port_at(fallback, s.udp_ip_bind, 0)
        },
{
}

/// A connection that is closed, or that cannot be written, is given up at once: the forwarder
/// waits for no bytes from it, a listener for the next connection, and the other side for one that
/// it makes itself.
pub proof fn law_lost_connection_is_waited_for(s: State, event: EventView)
    requires
        event is WriteFailed || event == (EventView::TcpRead { bytes: Seq::<u8>::empty() }),
    ensures
        s.step(event).1 matches ActionView::Wait(waits) && {
            &&& !waits.read
            &&& waits.accept == s.listen
            &&& s.listen ==> waits.connect is Never
            &&& !s.listen ==> waits.connect == if s.connect_again {
                Connect::After(1)
            } else {
                Connect::Now(s.tcp_addr)
            }
        },
{
}

/// A connection that is made or accepted is read from then on; a listener goes on accepting.
pub proof fn law_new_connection_is_read(s: State, event: EventView)
    requires
        event is Connected || event is Accepted,
    ensures
        s.step(event).1 matches ActionView::Wait(waits) && {
            &&& waits.read
            &&& waits.connect is Never
            &&& waits.accept == s.listen
        },
{
}

/// A side that connects, and whose attempt fails, is to wait for a second, and then to try its TCP
/// address again.
pub proof fn law_failed_attempt_is_followed_by_another(s: State)
    requires
        !s.listen,
        !s.connected,
    ensures
        s.step(EventView::ConnectFailed).1 matches ActionView::Wait(waits) && waits.connect
            == Connect::After(1) && !waits.accept && !waits.read,
        s.step(EventView::ConnectFailed).0.step(EventView::RetryDue).1 matches ActionView::Wait(
            waits,
        ) && waits.connect == Connect::Now(s.tcp_addr) && !waits.accept && !waits.read,
{
}

/// What an event says is what its view says, part by part.
pub proof fn law_event_view(event: Event)
    ensures
        match event {
            Event::Start { udp_bind } => event@ == (EventView::Start { udp_bind }),
            Event::Opened { local_port, socket } => event@ == (EventView::Opened {
                local_port,
                socket,
            }),
            Event::Connected => event@ is Connected,
            Event::ConnectFailed => event@ is ConnectFailed,
            Event::RetryDue => event@ is RetryDue,
            Event::Accepted => event@ is Accepted,
            Event::UdpReceived { local_port, data, source_addr } => event@
                == (EventView::UdpReceived { local_port, data: data@, source_addr }),
            Event::Written => event@ is Written,
            Event::WriteFailed => event@ is WriteFailed,
            Event::TcpRead { bytes } => event@ == (EventView::TcpRead { bytes: bytes@ }),
            Event::Bound { packet, local_port, socket } => event@ == (EventView::Bound {
                packet: packet@,
                local_port,
                socket,
            }),
            Event::Sent => event@ is Sent,
        },
{
}

/// What an action says is what its view says, part by part.
pub proof fn law_action_view(action: Action)
    ensures
        match action {
            Action::Open { tcp_listen, udp_bind } => action@ == (ActionView::Open {
                tcp_listen,
                udp_bind,
            }),
            Action::Wait(waits) => action@ == ActionView::Wait(waits),
            Action::Write { header, message } => action@ == (ActionView::Write {
                header: header@,
                message: message@,
            }),
            Action::Bind { packet, preferred, fallback } => action@ == (ActionView::Bind {
                packet: packet@,
                preferred,
                fallback,
            }),
            Action::Send { socket, data, to } => action@ == (ActionView::Send {
                socket,
                data: data@,
                to,
            }),
            Action::Malformed => action@ is Malformed,
        },
{
}

/// [`UdpToTcp::run`] takes a forwarder from what it knew to what the event leads to, and gives the
/// action that goes with that; [`UdpToTcp::add_udp_sock`] notes a socket as its being opened does.
pub proof fn law_run_goes_by_the_events(event: Event, local_port: u16, socket: usize)
    ensures
        forall|forwarder: &mut UdpToTcp, action: Action|
            #[trigger] call_ensures(UdpToTcp::run, (forwarder, event), action) ==> {
                &&& final(forwarder)@ == forwarder@.step(event@).0
                &&& action@ == forwarder@.step(event@).1
            },
        forall|forwarder: &mut UdpToTcp, port: u16|
            #[trigger] call_ensures(
                UdpToTcp::add_udp_sock,
                (forwarder, local_port, socket),
                port,
            ) ==> {
                &&& port == local_port
                &&& final(forwarder)@ == forwarder@.step(
                    EventView::Opened { local_port, socket },
                ).0
            },
{
}

} // verus!
