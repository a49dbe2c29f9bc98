//! The forwarder: what to do next, given what has happened.
//!
//! The forwarder does no input or output itself. Each [`Event`] tells it what has happened, and
//! the [`Action`] that comes back says what to do about it.

use vstd::prelude::*;

use crate::addr::{AddrKey, IpAddr, SocketAddr};
use crate::frame::{after_message, first_message, frame_header, header, whole_frame, HEADER_LEN};
use crate::packet::{Packet, UdpPacketWrapper};
use crate::tables::{
    law_mapping_keeps_ports_apart, nat_insert, nat_ports, nat_table_get, nat_table_insert,
    nat_table_new, one_source_per_port, port_sockets, ports_have_sockets, socket_insert,
    socket_table_get, socket_table_insert, socket_table_new, NatTable, SocketTable,
};

verus! {

/// How long to wait after a failed attempt to connect, in seconds.
pub const RETRY_SECS: u64 = 1;

/// What has happened. A UDP socket is known by a number that the caller gives it.
#[derive(Debug, PartialEq, Eq)]
pub enum Event {
    /// The forwarder is to start, with its first UDP socket at `udp_bind`.
    Start { udp_bind: SocketAddr },
    /// What [`Action::Open`] asked for is open, and the UDP socket got this port.
    Opened { local_port: u16, socket: usize },
    /// The TCP connection that was asked for is established.
    Connected,
    /// The TCP connection that was asked for could not be established.
    ConnectFailed,
    /// The time to wait after a failed attempt to connect has passed.
    RetryDue,
    /// A TCP connection has come in, which takes the place of an earlier one.
    Accepted,
    /// A datagram has come in at the UDP socket with this port.
    UdpReceived { local_port: u16, data: Vec<u8>, source_addr: SocketAddr },
    /// What [`Action::Write`] gave is written and flushed.
    Written,
    /// What [`Action::Write`] gave could not be written or flushed.
    WriteFailed,
    /// These bytes were read from the TCP connection; no bytes at all mean that it is closed.
    TcpRead { bytes: Vec<u8> },
    /// What [`Action::Bind`] asked for is bound, and got this port. The packet is the one that
    /// came with the action.
    Bound { packet: UdpPacketWrapper, local_port: u16, socket: usize },
    /// What [`Action::Send`] gave is sent, or could not be.
    Sent,
}

/// What to do next.
#[derive(Debug, PartialEq, Eq)]
pub enum Action {
    /// Listen for TCP connections, if an address is given, and bind the first UDP socket.
    Open { tcp_listen: Option<SocketAddr>, udp_bind: SocketAddr },
    /// Wait for a datagram at any UDP socket, and for what is listed.
    Wait(Waits),
    /// Write the header and then the message to the TCP connection, and flush it.
    Write { header: Vec<u8>, message: Vec<u8> },
    /// Bind a UDP socket to the preferred address, or else to the fallback.
    Bind { packet: UdpPacketWrapper, preferred: SocketAddr, fallback: SocketAddr },
    /// Send a datagram from a UDP socket.
    Send { socket: usize, data: Vec<u8>, to: SocketAddr },
    /// The bytes from the TCP connection hold no packet; there is no way to go on.
    Malformed,
}

/// What to wait for besides datagrams.
#[derive(Clone, Copy, Debug, PartialEq, Eq)]
pub struct Waits {
    pub connect: Connect,
    /// a TCP connection that comes in
    pub accept: bool,
    /// bytes from the TCP connection
    pub read: bool,
}

/// Whether to connect.
#[derive(Clone, Copy, Debug, PartialEq, Eq)]
pub enum Connect {
    Never,
    /// connect to this address
    Now(SocketAddr),
    /// let this many seconds pass since the last attempt
    After(u64),
}

/// What an [`Event`] says.
pub enum EventView {
    Start { udp_bind: SocketAddr },
    Opened { local_port: u16, socket: usize },
    Connected,
    ConnectFailed,
    RetryDue,
    Accepted,
    UdpReceived { local_port: u16, data: Seq<u8>, source_addr: SocketAddr },
    Written,
    WriteFailed,
    TcpRead { bytes: Seq<u8> },
    Bound { packet: Packet, local_port: u16, socket: usize },
    Sent,
}

impl View for Event {
    type V = EventView;

    open spec fn view(&self) -> EventView {
        match *self {
            Event::Start { udp_bind } => EventView::Start { udp_bind },
            Event::Opened { local_port, socket } => EventView::Opened { local_port, socket },
            Event::Connected => EventView::Connected,
            Event::ConnectFailed => EventView::ConnectFailed,
            Event::RetryDue => EventView::RetryDue,
            Event::Accepted => EventView::Accepted,
            Event::UdpReceived { local_port, data, source_addr } => EventView::UdpReceived {
                local_port,
                data: data@,
                source_addr,
            },
            Event::Written => EventView::Written,
            Event::WriteFailed => EventView::WriteFailed,
            Event::TcpRead { bytes } => EventView::TcpRead { bytes: bytes@ },
            Event::Bound { packet, local_port, socket } => EventView::Bound {
                packet: packet@,
                local_port,
                socket,
            },
            Event::Sent => EventView::Sent,
        }
    }
}

/// What an [`Action`] says.
pub enum ActionView {
    Open { tcp_listen: Option<SocketAddr>, udp_bind: SocketAddr },
    Wait(Waits),
    Write { header: Seq<u8>, message: Seq<u8> },
    Bind { packet: Packet, preferred: SocketAddr, fallback: SocketAddr },
    Send { socket: usize, data: Seq<u8>, to: SocketAddr },
    Malformed,
}

impl View for Action {
    type V = ActionView;

    open spec fn view(&self) -> ActionView {
        match *self {
            Action::Open { tcp_listen, udp_bind } => ActionView::Open { tcp_listen, udp_bind },
            Action::Wait(waits) => ActionView::Wait(waits),
            Action::Write { header, message } => ActionView::Write {
                header: header@,
                message: message@,
            },
            Action::Bind { packet, preferred, fallback } => ActionView::Bind {
                packet: packet@,
                preferred,
                fallback,
            },
            Action::Send { socket, data, to } => ActionView::Send { socket, data: data@, to },
            Action::Malformed => ActionView::Malformed,
        }
    }
}

/// What a forwarder knows.
pub struct State {
    /// whether it waits for TCP connections, or makes one
    pub listen: bool,
    pub tcp_addr: SocketAddr,
    /// the IP address to bind UDP sockets to
    pub udp_ip_bind: IpAddr,
    /// the IP address to send datagrams to
    pub udp_ip_peer: IpAddr,
    /// the local port that stands for each source at the other end
    pub ports: Map<AddrKey, u16>,
    /// the socket at each local port
    pub sockets: Map<u16, usize>,
    /// whether there is a TCP connection
    pub connected: bool,
    /// whether the last attempt to connect failed a moment ago
    pub connect_again: bool,
    /// the bytes from the TCP connection that are not dealt with yet
    pub unread: Seq<u8>,
}

impl State {
    /// What holds of every forwarder.
    pub open spec fn inv(self) -> bool {
        &&& one_source_per_port(self.ports)
        &&& ports_have_sockets(self.ports, self.sockets)
    }

    pub open spec fn initial(
        listen: bool,
        tcp_addr: SocketAddr,
        udp_bind: SocketAddr,
        initial_udp_sendto: SocketAddr,
    ) -> State {
        State {
            listen,
            tcp_addr,
            udp_ip_bind: udp_bind.spec_ip(),
            udp_ip_peer: initial_udp_sendto.spec_ip(),
            ports: Map::empty(),
            sockets: Map::empty(),
            connected: false,
            connect_again: false,
            unread: Seq::empty(),
        }
    }

    /// What to wait for: a listener accepts at any time; the other side connects while it has no
    /// connection, after a delay if the last attempt failed; either reads from its connection.
    pub open spec fn waits(self) -> Waits {
        Waits {
            connect: if self.connected || self.listen {
                Connect::Never
            } else if self.connect_again {
                Connect::After(RETRY_SECS)
            } else {
                Connect::Now(self.tcp_addr)
            },
            accept: self.listen,
            read: self.connected,
        }
    }

    pub open spec fn wait(self) -> (State, ActionView) {
        (self, ActionView::Wait(self.waits()))
    }

    /// The packet for a datagram that has come in.
    pub open spec fn packet_for(
        local_port: u16,
        data: Seq<u8>,
        source_addr: SocketAddr,
    ) -> Packet {
        Packet { data, source_addr, target_port: local_port }
    }

    /// Sends a packet's datagram from `socket` to its port at the peer.
    pub open spec fn send(self, packet: Packet, socket: usize) -> ActionView {
        ActionView::Send {
            socket,
            data: packet.data,
            to: SocketAddr::spec_new(self.udp_ip_peer, packet.target_port),
        }
    }

    /// What to do with a packet: send it from the socket that stands for its source, or first
    /// bind one, to the port that the source has or else to any port.
    pub open spec fn route(self, packet: Packet) -> ActionView {
        let key = packet.source_addr.spec_key();
        if self.ports.dom().contains(key) {
            self.send(packet, self.sockets[self.ports[key]])
        } else {
            ActionView::Bind {
                packet,
                preferred: SocketAddr::spec_new(self.udp_ip_bind, packet.source_addr.spec_port()),
                fallback: SocketAddr::spec_new(self.udp_ip_bind, 0),
            }
        }
    }

    /// Takes the next packet off the unread bytes, once it has come in whole.
    pub open spec fn next_packet(self) -> (State, ActionView) {
        match first_message(self.unread) {
            None => self.wait(),
            Some(message) => match Packet::read(message) {
                None => (self, ActionView::Malformed),
                Some(packet) => (
                    State { unread: after_message(self.unread, message), ..self },
                    self.route(packet),
                ),
            },
        }
    }

    /// What an event leads to.
    pub open spec fn step(self, event: EventView) -> (State, ActionView) {
        match event {
            EventView::Start { udp_bind } => (
                self,
                ActionView::Open {
                    tcp_listen: if self.listen {
                        Some(self.tcp_addr)
                    } else {
                        None
                    },
                    udp_bind,
                },
            ),
            EventView::Opened { local_port, socket } => (State {
                sockets: socket_insert(self.sockets, local_port, socket),
                ..self
            }).wait(),
            EventView::Connected => (State {
                connected: true,
                connect_again: false,
                unread: Seq::empty(),
                ..self
            }).wait(),
            EventView::ConnectFailed => (State { connect_again: true, ..self }).wait(),
            EventView::RetryDue => (State { connect_again: false, ..self }).wait(),
            EventView::Accepted => (State {
                connected: true,
                unread: Seq::empty(),
                ..self
            }).wait(),
            EventView::UdpReceived { local_port, data, source_addr } => if self.connected {
                let message = State::packet_for(local_port, data, source_addr).bytes();
                (self, ActionView::Write { header: header(message), message })
            } else {
                self.wait()
            },
            EventView::Written => self.wait(),
            EventView::WriteFailed => (State { connected: false, ..self }).wait(),
            EventView::TcpRead { bytes } => if bytes.len() == 0 {
                (State { connected: false, ..self }).wait()
            } else {
                (State { unread: self.unread + bytes, ..self }).next_packet()
            },
            EventView::Bound { packet, local_port, socket } => {
                let sockets = socket_insert(self.sockets, local_port, socket);
                let ports = nat_insert(self.ports, local_port, packet.source_addr.spec_key());
                (State { sockets, ports, ..self }, self.send(packet, sockets[local_port]))
            },
            EventView::Sent => self.next_packet(),
        }
    }
}

/// A forwarder between UDP sockets and a TCP connection.
pub struct UdpToTcp {
    listen: bool,
    tcp_addr: SocketAddr,
    udp_ip_bind: IpAddr,
    udp_ip_peer: IpAddr,
    nat_table: NatTable,
    udp_source_sockets: SocketTable,
    has_tcp: bool,
    connect_again: bool,
    tcp_buf: Vec<u8>,
    /// how much of `tcp_buf` is dealt with
    consumed: usize,
}

impl View for UdpToTcp {
    type V = State;

    closed spec fn view(&self) -> State {
        State {
            listen: self.listen,
            tcp_addr: self.tcp_addr,
            udp_ip_bind: self.udp_ip_bind,
            udp_ip_peer: self.udp_ip_peer,
            ports: nat_ports(self.nat_table),
            sockets: port_sockets(self.udp_source_sockets),
            connected: self.has_tcp,
            connect_again: self.connect_again,
            unread: self.tcp_buf@.skip(self.consumed as int),
        }
    }
}

impl UdpToTcp {
    /// What holds of every forwarder that [`UdpToTcp::new`] made.
    pub closed spec fn wf(self) -> bool {
        &&& self@.inv()
        &&& self.consumed <= self.tcp_buf@.len()
    }

    /// A forwarder at `tcp_addr` that binds its UDP sockets to the address of `udp_bind` and
    /// sends to the address of `initial_udp_sendto`.
    pub fn new(
        listen: bool,
        tcp_addr: SocketAddr,
        udp_bind: SocketAddr,
        initial_udp_sendto: SocketAddr,
    ) -> (forwarder: UdpToTcp)
        ensures
            forwarder.wf(),
            forwarder@.inv(),
            forwarder@ == State::initial(listen, tcp_addr, udp_bind, initial_udp_sendto),
    {
        let forwarder = UdpToTcp {
            listen,
            tcp_addr,
            udp_ip_bind: udp_bind.ip(),
            udp_ip_peer: initial_udp_sendto.ip(),
            nat_table: nat_table_new(),
            udp_source_sockets: socket_table_new(),
            has_tcp: false,
            connect_again: false,
            tcp_buf: Vec::new(),
            consumed: 0,
        };
        assert(forwarder@.unread =~= Seq::<u8>::empty());
        forwarder
    }

    /// Notes a UDP socket at its port, and gives the port back. A port that has a socket already
    /// keeps it.
    pub fn add_udp_sock(&mut self, local_port: u16, socket: usize) -> (port: u16)
        requires
            old(self).wf(),
        ensures
            port == local_port,
            final(self).wf(),
            final(self)@.inv(),
            final(self)@ == (State {
                sockets: socket_insert(old(self)@.sockets, local_port, socket),
                ..old(self)@
            }),
    {
        socket_table_insert(&mut self.udp_source_sockets, local_port, socket);
        local_port
    }

    fn waits(&self) -> (waits: Waits)
        ensures
            waits == self@.waits(),
    {
        let connect = if self.has_tcp || self.listen {
            Connect::Never
        } else if self.connect_again {
            Connect::After(RETRY_SECS)
        } else {
            Connect::Now(self.tcp_addr)
        };
        Waits { connect, accept: self.listen, read: self.has_tcp }
    }

    fn wait(&self) -> (action: Action)
        ensures
            (self@, action@) == self@.wait(),
    {
        Action::Wait(self.waits())
    }

    fn send(&self, packet: UdpPacketWrapper, socket: usize) -> (action: Action)
        ensures
            action@ == self@.send(packet@, socket),
    {
        let to = SocketAddr::new(self.udp_ip_peer, packet.target_port);
        Action::Send { socket, data: packet.data, to }
    }

    /// Finds the socket that stands for a packet's source, or asks for one.
    fn route(&self, packet: UdpPacketWrapper) -> (action: Action)
        requires
            self.wf(),
        ensures
            action@ == self@.route(packet@),
    {
        match nat_table_get(&self.nat_table, packet.source_addr.key()) {
            Some(port) => {
                let socket: usize = socket_table_get(&self.udp_source_sockets, port).unwrap();
                self.send(packet, socket)
            },
            None => {
                let preferred = SocketAddr::new(self.udp_ip_bind, packet.source_addr.port());
                let fallback = SocketAddr::new(self.udp_ip_bind, 0);
                Action::Bind { packet, preferred, fallback }
            },
        }
    }

    /// Forgets the bytes that are dealt with, so that the buffer holds the unread bytes alone.
    fn compact(&mut self)
        requires
            old(self).wf(),
        ensures
            final(self).wf(),
            final(self)@ == old(self)@,
            final(self).tcp_buf@ == old(self).tcp_buf@.skip(old(self).consumed as int),
            final(self).consumed == 0,
    {
        let ghost unread = self@.unread;
        if self.consumed == self.tcp_buf.len() {
            self.tcp_buf.clear();
        } else {
            self.tcp_buf = self.tcp_buf.split_off(self.consumed);
        }
        self.consumed = 0;
        assert(self@.unread =~= unread);
    }

    /// Forgets all bytes from the TCP connection.
    fn clear_buf(&mut self)
        requires
            old(self).wf(),
        ensures
            final(self).wf(),
            final(self)@ == (State { unread: Seq::empty(), ..old(self)@ }),
    {
        self.tcp_buf.clear();
        self.consumed = 0;
        assert(self@.unread =~= Seq::<u8>::empty());
    }

    /// Takes the next packet off the unread bytes, and says what to do with it.
    fn next_packet(&mut self) -> (action: Action)
        requires
            old(self).wf(),
        ensures
            final(self).wf(),
            (final(self)@, action@) == old(self)@.next_packet(),
    {
        let at: usize = self.consumed;
        match whole_frame(self.tcp_buf.as_slice(), at) {
            None => {
                self.compact();
                self.wait()
            },
            Some(len) => {
                let start: usize = at + HEADER_LEN;
                let message = vstd::slice::slice_subrange(
                    self.tcp_buf.as_slice(),
                    start,
                    start + len,
                );
                match UdpPacketWrapper::decode(message) {
                    Err(_) => Action::Malformed,
                    Ok(packet) => {
                        let ghost before = self@;
                        self.consumed = start + len;
                        assert(self@.unread =~= after_message(before.unread, message@));
                        self.route(packet)
                    },
                }
            },
        }
    }

    /// Makes a frame of a datagram that came in, if there is a connection to write it to.
    fn forward(&self, local_port: u16, data: Vec<u8>, source_addr: SocketAddr) -> (action: Action)
        ensures
            (self@, action@) == self@.step(
                EventView::UdpReceived { local_port, data: data@, source_addr },
            ),
    {
        if self.has_tcp {
            let packet = UdpPacketWrapper { data, source_addr, target_port: local_port };
            let message = packet.encode();
            let header = frame_header(message.as_slice());
            Action::Write { header, message }
        } else {
            self.wait()
        }
    }

    /// Takes note of what has happened, and says what to do next.
    pub fn run(&mut self, event: Event) -> (action: Action)
        requires
            old(self).wf(),
        ensures
            final(self).wf(),
            final(self)@.inv(),
            (final(self)@, action@) == old(self)@.step(event@),
    {
        match event {
            Event::Start { udp_bind } => {
                let tcp_listen = if self.listen { Some(self.tcp_addr) } else { None };
                Action::Open { tcp_listen, udp_bind }
            },
            Event::Opened { local_port, socket } => {
                self.add_udp_sock(local_port, socket);
                self.wait()
            },
            Event::Connected => {
                self.has_tcp = true;
                self.connect_again = false;
                self.clear_buf();
                self.wait()
            },
            Event::ConnectFailed => {
                self.connect_again = true;
                self.wait()
            },
            Event::RetryDue => {
                self.connect_again = false;
                self.wait()
            },
            Event::Accepted => {
                self.has_tcp = true;
                self.clear_buf();
                self.wait()
            },
            Event::UdpReceived { local_port, data, source_addr } => self.forward(
                local_port,
                data,
                source_addr,
            ),
            Event::Written => self.wait(),
            Event::WriteFailed => {
                self.has_tcp = false;
                self.wait()
            },
            Event::TcpRead { bytes } => if bytes.is_empty() {
                self.has_tcp = false;
                self.wait()
            } else {
                let ghost unread = self@.unread + bytes@;
                let mut bytes = bytes;
                self.tcp_buf.append(&mut bytes);
                assert(self@.unread =~= unread);
                self.next_packet()
            },
            Event::Bound { packet, local_port, socket } => {
                proof {
                    law_mapping_keeps_ports_apart(
                        self@.ports,
                        local_port,
                        packet.source_addr.spec_key(),
                    );
                }
                let local_port: u16 = self.add_udp_sock(local_port, socket);
                nat_table_insert(&mut self.nat_table, local_port, packet.source_addr.key());
                let socket: usize = socket_table_get(
                    &self.udp_source_sockets,
                    local_port,
                ).unwrap();
                self.send(packet, socket)
            },
            Event::Sent => self.next_packet(),
        }
    }
}

} // verus!
