//! What holds of forwarders, alone and in pairs.

use vstd::prelude::*;

use crate::addr::{law_key_tells_addresses_apart, SocketAddr};
use crate::forward::{ActionView, Connect, EventView, State, RETRY_SECS};
use crate::frame::{
    after_message, first_message, frame, framed, joined, law_cuts_make_no_difference,
    law_frame_read_back, law_leftover_is_incomplete, law_pieces_make_no_difference,
    law_stream_read_back, leftover, lemma_first_message_fits, messages, messages_of_pieces,
    HEADER_LEN,
};
use crate::packet::{law_packet_read_back, Packet};
use crate::tables::law_mapping_keeps_ports_apart;

verus! {

/// Whatever happens, no local port stands for two sources, and every local port that stands for a
/// source has a socket.
pub proof fn law_tables_stay_sound(s: State, event: EventView)
    requires
        s.inv(),
    ensures
        s.step(event).0.inv(),
{
    if let EventView::Bound { packet, local_port, .. } = event {
        law_mapping_keeps_ports_apart(s.ports, local_port, packet.source_addr.spec_key());
    }
}

/// Whatever happens, a forwarder keeps its side of the connection and its addresses.
pub proof fn law_settings_stay(s: State, event: EventView)
    ensures
        s.step(event).0.listen == s.listen,
        s.step(event).0.tcp_addr == s.tcp_addr,
        s.step(event).0.udp_ip_bind == s.udp_ip_bind,
        s.step(event).0.udp_ip_peer == s.udp_ip_peer,
{
}

/// Whether a forwarder that reads `bytes` is back where it was, but for sending `data` to
/// `target`: at once, or as soon as a socket is bound, whichever port that socket got.
pub open spec fn delivers(s: State, bytes: Seq<u8>, data: Seq<u8>, target: SocketAddr) -> bool {
    let (after, action) = s.step(EventView::TcpRead { bytes });
    &&& after == s
    &&& match action {
        ActionView::Send { data: sent, to, .. } => sent == data && to == target,
        ActionView::Bind { packet, .. } => forall|local_port: u16, socket: usize|
            (#[trigger] s.step(EventView::Bound { packet, local_port, socket })).1 matches
                ActionView::Send { data: sent, to, .. } && sent == data && to == target,
        _ => false,
    }
}

/// A datagram crosses: what one forwarder writes for a datagram that came in at a local port, the
/// other, with no bytes waiting, reads as the whole of one packet, and sends the same data to the
/// same port at its peer.
pub proof fn law_datagram_crosses(
    from: State,
    to: State,
    local_port: u16,
    data: Seq<u8>,
    source_addr: SocketAddr,
)
    requires
        from.connected,
        to.unread.len() == 0,
        data.len() <= usize::MAX,
        State::packet_for(local_port, data, source_addr).bytes().len() <= u32::MAX,
    ensures
        from.step(EventView::UdpReceived { local_port, data, source_addr }).1 matches
            ActionView::Write { header, message } && delivers(
            to,
            header + message,
            data,
            SocketAddr::spec_new(to.udp_ip_peer, local_port),
        ),
{
    let packet = State::packet_for(local_port, data, source_addr);
    let message = packet.bytes();
    let bytes = frame(message);
    law_frame_read_back(message, Seq::empty());
    law_packet_read_back(packet, Seq::empty());
    assert(bytes + Seq::<u8>::empty() =~= bytes);
    assert(message + Seq::<u8>::empty() =~= message);
    assert(to.unread + bytes =~= bytes);
    crate::bytes_le::lemma_le_len((message.len() as u32) as int, 4);
    assert(to.unread =~= Seq::<u8>::empty());
}

/// An answer finds its way back: where the socket that stands for a source got the port that the
/// source has, a datagram that comes in at that socket is sent to that very port at the other end.
pub proof fn law_answer_returns_to_source(
    from: State,
    to: State,
    source_addr: SocketAddr,
    data: Seq<u8>,
    answered_by: SocketAddr,
)
    requires
        from.connected,
        from.ports.dom().contains(source_addr.spec_key()),
        from.ports[source_addr.spec_key()] == source_addr.spec_port(),
        to.unread.len() == 0,
        data.len() <= usize::MAX,
        State::packet_for(source_addr.spec_port(), data, answered_by).bytes().len() <= u32::MAX,
    ensures
        from.step(
            EventView::UdpReceived {
                local_port: from.ports[source_addr.spec_key()],
                data,
                source_addr: answered_by,
            },
        ).1 matches ActionView::Write { header, message } && delivers(
            to,
            header + message,
            data,
            SocketAddr::spec_new(to.udp_ip_peer, source_addr.spec_port()),
        ),
{
    law_datagram_crosses(from, to, source_addr.spec_port(), data, answered_by);
}

/// A datagram that UDP can carry, and far more, is short enough to cross.
pub proof fn law_every_datagram_can_cross(
    local_port: u16,
    data: Seq<u8>,
    source_addr: SocketAddr,
)
    requires
        data.len() <= u32::MAX - 52,
    ensures
        State::packet_for(local_port, data, source_addr).bytes().len() <= u32::MAX,
{
    crate::packet::law_packet_bytes_are_short(State::packet_for(local_port, data, source_addr));
}

/// The messages that a forwarder writes for datagrams, one after the other.
pub open spec fn messages_for(packets: Seq<Packet>) -> Seq<Seq<u8>> {
    packets.map_values(|p: Packet| p.bytes())
}

/// Datagrams arrive in the order in which they were written, each once, however TCP cuts up the
/// bytes on their way: taking off whole frames after each piece gives the messages of the
/// datagrams, and each of these reads as its datagram.
pub proof fn law_datagrams_arrive_in_order(packets: Seq<Packet>, pieces: Seq<Seq<u8>>)
    requires
        forall|i: int|
            0 <= i < packets.len() ==> (#[trigger] packets[i]).bytes().len() <= u32::MAX
                && packets[i].data.len() <= usize::MAX,
        joined(pieces) == framed(messages_for(packets)),
    ensures
        messages_of_pieces(Seq::empty(), pieces) == messages_for(packets),
        leftover(joined(pieces)) == Seq::<u8>::empty(),
        forall|i: int|
            0 <= i < packets.len() ==> Packet::read(#[trigger] messages_for(packets)[i]) == Some(
                packets[i].on_the_wire(),
            ),
{
    let written = messages_for(packets);
    assert forall|i: int| 0 <= i < written.len() implies (#[trigger] written[i]).len()
        <= u32::MAX by {
        assert(written[i] == packets[i].bytes());
    }
    law_stream_read_back(written);
    law_pieces_make_no_difference(Seq::empty(), pieces);
    assert(Seq::<u8>::empty() + joined(pieces) =~= joined(pieces));
    assert forall|i: int| 0 <= i < packets.len() implies Packet::read(#[trigger] written[i])
        == Some(packets[i].on_the_wire()) by {
        law_packet_read_back(packets[i], Seq::empty());
        assert(packets[i].bytes() + Seq::<u8>::empty() =~= written[i]);
    }
}

/// What a forwarder sends of its unread bytes until it waits again, and what it knows then, where
/// `bind` says which port and which socket each new source gets.
pub open spec fn sends(s: State, bind: spec_fn(State, Packet) -> (u16, usize)) -> (
    State,
    Seq<(Seq<u8>, SocketAddr)>,
)
    decreases s.unread.len(),
{
    let (next, action) = s.step(EventView::Sent);
    if next.unread.len() >= s.unread.len() {
        (next, seq![])
    } else {
        match action {
            ActionView::Send { data, to, .. } => {
                let (last, rest) = sends(next, bind);
                (last, seq![(data, to)] + rest)
            },
            ActionView::Bind { packet, .. } => {
                let (local_port, socket) = bind(next, packet);
                let (bound, action) = next.step(EventView::Bound { packet, local_port, socket });
                let (last, rest) = sends(bound, bind);
                match action {
                    ActionView::Send { data, to, .. } => (last, seq![(data, to)] + rest),
                    _ => (last, rest),
                }
            },
            _ => (next, seq![]),
        }
    }
}

/// What a forwarder sends as `pieces` come in one by one behind its unread bytes, and each time it
/// sends all that it can, and what it knows then.
pub open spec fn sends_of_pieces(
    s: State,
    pieces: Seq<Seq<u8>>,
    bind: spec_fn(State, Packet) -> (u16, usize),
) -> (State, Seq<(Seq<u8>, SocketAddr)>)
    decreases pieces.len(),
{
    if pieces.len() == 0 {
        (s, seq![])
    } else {
        let (next, sent) = sends(State { unread: s.unread + pieces[0], ..s }, bind);
        let (last, rest) = sends_of_pieces(next, pieces.drop_first(), bind);
        (last, sent + rest)
    }
}

/// The datagram of a message, and where a forwarder sends it.
pub open spec fn datagram_of(s: State, message: Seq<u8>) -> (Seq<u8>, SocketAddr) {
    let packet = Packet::read(message)->0;
    (packet.data, SocketAddr::spec_new(s.udp_ip_peer, packet.target_port))
}

/// `s` with other unread bytes, and with the tables of `tables`.
pub open spec fn with_unread(s: State, unread: Seq<u8>, tables: State) -> State {
    State { unread, ports: tables.ports, sockets: tables.sockets, ..s }
}

/// Whether every message holds a packet.
pub open spec fn all_read(messages: Seq<Seq<u8>>) -> bool {
    forall|i: int| 0 <= i < messages.len() ==> Packet::read(#[trigger] messages[i]) is Some
}

/// Every message of the unread bytes is sent, in order.
proof fn lemma_sends(s: State, bind: spec_fn(State, Packet) -> (u16, usize))
    requires
        all_read(messages(s.unread)),
    ensures
        sends(s, bind).0 == with_unread(s, leftover(s.unread), sends(s, bind).0),
        sends(s, bind).1 == messages(s.unread).map_values(|m: Seq<u8>| datagram_of(s, m)),
    decreases s.unread.len(),
{
    lemma_first_message_fits(s.unread);
    let all = messages(s.unread);
    match first_message(s.unread) {
        None => {
            assert(sends(s, bind).1 =~= all.map_values(|m: Seq<u8>| datagram_of(s, m)));
        },
        Some(message) => {
            let unread = after_message(s.unread, message);
            let tail = messages(unread);
            assert(all == seq![message] + tail);
            assert(all[0] == message);
            assert(Packet::read(all[0]) is Some);
            assert forall|i: int| 0 <= i < tail.len() implies Packet::read(
                #[trigger] tail[i],
            ) is Some by {
                assert(all[i + 1] == tail[i]);
            }
            let (next, action) = s.step(EventView::Sent);
            assert(next == (State { unread, ..s }));
            let after = match action {
                ActionView::Bind { packet, .. } => {
                    let (local_port, socket) = bind(next, packet);
                    next.step(EventView::Bound { packet, local_port, socket }).0
                },
                _ => next,
            };
            assert(after.unread == unread);
            lemma_sends(after, bind);
            assert(tail.map_values(|m: Seq<u8>| datagram_of(after, m)) =~= tail.map_values(
                |m: Seq<u8>| datagram_of(s, m),
            ));
            assert(sends(s, bind).1 =~= seq![datagram_of(s, message)] + sends(after, bind).1);
            assert(all.map_values(|m: Seq<u8>| datagram_of(s, m)) =~= seq![
                datagram_of(s, message),
            ] + tail.map_values(|m: Seq<u8>| datagram_of(s, m)));
        },
    }
}

/// However TCP cuts up a stream, a forwarder sends the datagram of each whole frame once, in
/// order, whichever ports and sockets the sources get. What is left unread is what stands behind
/// the whole frames; but for that and the tables, nothing has changed.
pub proof fn law_pieces_are_sent_in_order(
    s: State,
    pieces: Seq<Seq<u8>>,
    bind: spec_fn(State, Packet) -> (u16, usize),
)
    requires
        pieces.len() > 0 || first_message(s.unread) is None,
        all_read(messages(s.unread + joined(pieces))),
    ensures
        sends_of_pieces(s, pieces, bind).0.unread == leftover(s.unread + joined(pieces)),
        sends_of_pieces(s, pieces, bind).0 == with_unread(
            s,
            leftover(s.unread + joined(pieces)),
            sends_of_pieces(s, pieces, bind).0,
        ),
        sends_of_pieces(s, pieces, bind).1 == messages(s.unread + joined(pieces)).map_values(
            |m: Seq<u8>| datagram_of(s, m),
        ),
    decreases pieces.len(),
{
    let stream = s.unread + joined(pieces);
    let all = messages(stream);
    if pieces.len() > 0 {
        let fed = State { unread: s.unread + pieces[0], ..s };
        let rest = pieces.drop_first();
        let now = messages(fed.unread);
        let later = messages(leftover(fed.unread) + joined(rest));
        assert(stream =~= fed.unread + joined(rest));
        law_cuts_make_no_difference(fed.unread, joined(rest));
        assert(all == now + later);
        assert forall|i: int| 0 <= i < now.len() implies Packet::read(
            #[trigger] now[i],
        ) is Some by {
            assert(all[i] == now[i]);
        }
        assert forall|i: int| 0 <= i < later.len() implies Packet::read(
            #[trigger] later[i],
        ) is Some by {
            assert(all[now.len() + i] == later[i]);
        }
        lemma_sends(fed, bind);
        law_leftover_is_incomplete(fed.unread);
        let next = sends(fed, bind).0;
        law_pieces_are_sent_in_order(next, rest, bind);
    } else {
        assert(stream =~= s.unread);
    }
    assert(sends_of_pieces(s, pieces, bind).1 =~= all.map_values(
        |m: Seq<u8>| datagram_of(s, m),
    ));
}

/// A stream of datagrams crosses: however TCP cuts up what one forwarder wrote, the other, with
/// no bytes waiting, sends each datagram once, in order, to its port at the peer, whichever ports
/// and sockets the sources get.
pub proof fn law_stream_of_datagrams_crosses(
    to: State,
    packets: Seq<Packet>,
    pieces: Seq<Seq<u8>>,
    bind: spec_fn(State, Packet) -> (u16, usize),
)
    requires
        to.unread.len() == 0,
        forall|i: int|
            0 <= i < packets.len() ==> (#[trigger] packets[i]).bytes().len() <= u32::MAX
                && packets[i].data.len() <= usize::MAX,
        joined(pieces) == framed(messages_for(packets)),
    ensures
        sends_of_pieces(to, pieces, bind).0.unread == Seq::<u8>::empty(),
        sends_of_pieces(to, pieces, bind).1 == packets.map_values(
            |p: Packet| (p.data, SocketAddr::spec_new(to.udp_ip_peer, p.target_port)),
        ),
{
    assert(to.unread =~= Seq::<u8>::empty());
    law_datagrams_arrive_in_order(packets, pieces);
    let written = messages_for(packets);
    assert forall|i: int| 0 <= i < written.len() implies Packet::read(
        #[trigger] written[i],
    ) is Some by {
        assert(Packet::read(written[i]) == Some(packets[i].on_the_wire()));
    }
    law_pieces_make_no_difference(to.unread, pieces);
    assert(to.unread + joined(pieces) =~= joined(pieces));
    law_pieces_are_sent_in_order(to, pieces, bind);
    assert(sends_of_pieces(to, pieces, bind).1 =~= packets.map_values(
        |p: Packet| (p.data, SocketAddr::spec_new(to.udp_ip_peer, p.target_port)),
    ));
}

/// What a forwarder does with bytes that it reads is what it does next once they are behind its
/// unread bytes.
pub proof fn law_reading_joins_the_unread(s: State, bytes: Seq<u8>)
    requires
        bytes.len() > 0,
    ensures
        s.step(EventView::TcpRead { bytes }) == (State {
            unread: s.unread + bytes,
            ..s
        }).step(EventView::Sent),
{
}

/// A forwarder takes the messages of its unread bytes one by one, the first first, and leaves the
/// rest as they are; when there is none, it waits, and nothing has changed.
pub proof fn law_messages_are_taken_in_order(s: State)
    ensures
        match first_message(s.unread) {
            None => {
                &&& messages(s.unread).len() == 0
                &&& s.step(EventView::Sent) == s.wait()
            },
            Some(message) => {
                &&& messages(s.unread) == seq![message] + messages(after_message(s.unread, message))
                &&& leftover(s.unread) == leftover(after_message(s.unread, message))
                &&& Packet::read(message) matches Some(packet) ==> s.step(EventView::Sent) == (
                    State { unread: after_message(s.unread, message), ..s },
                    s.route(packet),
                )
                &&& Packet::read(message) is None ==> s.step(EventView::Sent) == (
                    s,
                    ActionView::Malformed,
                )
            },
        },
{
    lemma_first_message_fits(s.unread);
}

/// Each packet that is taken off makes the unread bytes fewer, so the packets come to an end.
pub proof fn law_packets_come_to_an_end(s: State)
    ensures
        match s.step(EventView::Sent).1 {
            ActionView::Send { .. } | ActionView::Bind { .. } => s.step(
                EventView::Sent,
            ).0.unread.len() + HEADER_LEN <= s.unread.len(),
            _ => s.step(EventView::Sent).0 == s,
        },
{
    lemma_first_message_fits(s.unread);
}

/// A source that no socket stands for yet gets one: the forwarder asks for the port that the
/// source has, at its own address, and for any port if that one is not to be had.
pub proof fn law_unknown_source_asks_for_its_port(s: State, packet: Packet)
    requires
        !s.ports.dom().contains(packet.source_addr.spec_key()),
    ensures
        s.route(packet) matches ActionView::Bind { packet: asked, preferred, fallback } && {
            &&& asked == packet
            &&& preferred.spec_ip() == s.udp_ip_bind
            &&& preferred.spec_port() == packet.source_addr.spec_port()
            &&& fallback.spec_ip() == s.udp_ip_bind
            &&& fallback.spec_port() == 0
        },
{
}

/// One source, one socket: once a socket is bound for a source, every packet of that source is
/// sent from the socket that the first one was sent from.
pub proof fn law_one_socket_per_source(
    s: State,
    first: Packet,
    local_port: u16,
    socket: usize,
    later: Packet,
)
    requires
        later.source_addr == first.source_addr,
    ensures
        s.step(EventView::Bound { packet: first, local_port, socket }).1 matches
            ActionView::Send { socket: used, .. } && s.step(
            EventView::Bound { packet: first, local_port, socket },
        ).0.route(later) == s.send(later, used),
        !s.sockets.dom().contains(local_port) ==> s.step(
            EventView::Bound { packet: first, local_port, socket },
        ).1 == s.send(first, socket),
{
}

/// What stands for a source goes on standing for it, whatever happens, but for a socket that is
/// bound for that source anew or that got the same port.
pub proof fn law_mapping_lasts(s: State, event: EventView, source_addr: SocketAddr)
    requires
        s.inv(),
        s.ports.dom().contains(source_addr.spec_key()),
        event matches EventView::Bound { packet, local_port, .. } ==> packet.source_addr
            != source_addr && local_port != s.ports[source_addr.spec_key()],
    ensures
        ({
            let key = source_addr.spec_key();
            let after = s.step(event).0;
            &&& after.ports.dom().contains(key)
            &&& after.ports[key] == s.ports[key]
            &&& after.sockets[after.ports[key]] == s.sockets[s.ports[key]]
        }),
{
    if let EventView::Bound { packet, .. } = event {
        law_key_tells_addresses_apart(packet.source_addr, source_addr);
    }
}

/// Two sources never share a local port.
pub proof fn law_sources_have_ports_of_their_own(s: State, a: SocketAddr, b: SocketAddr)
    requires
        s.inv(),
        s.ports.dom().contains(a.spec_key()),
        s.ports.dom().contains(b.spec_key()),
        a != b,
    ensures
        s.ports[a.spec_key()] != s.ports[b.spec_key()],
{
    law_key_tells_addresses_apart(a, b);
}

/// A socket, once noted at a port, stays there whatever happens.
pub proof fn law_sockets_stay(s: State, event: EventView, port: u16)
    requires
        s.sockets.dom().contains(port),
    ensures
        s.step(event).0.sockets.dom().contains(port),
        s.step(event).0.sockets[port] == s.sockets[port],
{
}

/// A new connection starts with nothing unread, so that no bytes of an earlier one mix with its
/// own, and keeps what stands for each source.
pub proof fn law_new_connection_starts_clean(s: State, event: EventView)
    requires
        event is Connected || event is Accepted,
    ensures
        s.step(event).0.connected,
        s.step(event).0.unread == Seq::<u8>::empty(),
        s.step(event).0.ports == s.ports,
        s.step(event).0.sockets == s.sockets,
{
}

/// Without a connection a datagram is dropped, and nothing has changed.
pub proof fn law_no_connection_drops_datagrams(
    s: State,
    local_port: u16,
    data: Seq<u8>,
    source_addr: SocketAddr,
)
    requires
        !s.connected,
    ensures
        s.step(EventView::UdpReceived { local_port, data, source_addr }) == s.wait(),
{
}

/// The two sides of a connection: one listens and never connects, the other connects, while it
/// has no connection, and never listens.
pub proof fn law_sides(s: State)
    ensures
        s.listen ==> s.waits().accept && s.waits().connect == Connect::Never,
        !s.listen ==> !s.waits().accept,
        !s.listen ==> (s.waits().connect == Connect::Never <==> s.connected),
        s.waits().read == s.connected,
{
}

/// A side that connects tries again after a failure, but only when the delay has passed.
pub proof fn law_failed_attempt_is_repeated(s: State)
    requires
        !s.listen,
        !s.connected,
    ensures
        s.step(EventView::ConnectFailed).0.waits().connect == Connect::After(RETRY_SECS),
        s.step(EventView::ConnectFailed).0.step(EventView::RetryDue).0.waits().connect
            == Connect::Now(s.tcp_addr),
{
}

/// A connection that is closed, or that cannot be written, is given up, and so is no longer read;
/// a side that connects goes on to make a new one.
pub proof fn law_lost_connection_is_replaced(s: State, event: EventView)
    requires
        event is WriteFailed || event == (EventView::TcpRead { bytes: Seq::<u8>::empty() }),
    ensures
        !s.step(event).0.connected,
        !s.step(event).0.waits().read,
        s.listen ==> s.step(event).0.waits().accept,
        !s.listen ==> s.step(event).0.waits().connect != Connect::Never,
        !s.listen && !s.connect_again ==> s.step(event).0.waits().connect == Connect::Now(
            s.tcp_addr,
        ),
{
}

} // verus!
