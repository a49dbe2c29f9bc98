//! What holds of a forwarder over a whole run, that is, a sequence of events.

use vstd::prelude::*;

use crate::addr::{law_key_tells_addresses_apart, IpAddr, SocketAddr};
use crate::events::{
    fed, is_port_at, law_what_an_event_leads_to, law_what_is_bound, law_what_is_sent,
    law_when_a_port_has_a_socket, law_when_the_unread_bytes_change,
};
use crate::forward::{ActionView, Connect, EventView, State};
use crate::frame::{
    first_message, frame, framed, header, law_cuts_make_no_difference, law_frames_follow_one_another,
    law_message_is_taken_off_the_front, law_stream_read_back, messages,
};
use crate::laws::{
    law_lost_connection_is_replaced, law_mapping_lasts, law_settings_stay, law_sockets_stay,
    law_tables_stay_sound, messages_for,
};
use crate::packet::{law_what_crosses, Packet};

verus! {

/// What a forwarder knows after `events`, where it starts from `s`.
pub open spec fn after(s: State, events: Seq<EventView>) -> State
    decreases events.len(),
{
    if events.len() == 0 {
        s
    } else {
        after(s, events.drop_last()).step(events.last()).0
    }
}

/// What a forwarder knows before the event at `i`.
pub open spec fn before(s: State, events: Seq<EventView>, i: int) -> State {
    after(s, events.take(i))
}

proof fn lemma_before(s: State, events: Seq<EventView>, i: int)
    requires
        0 <= i <= events.len(),
    ensures
        i == 0 ==> before(s, events, i) == s,
        i == events.len() ==> before(s, events, i) == after(s, events),
        i > 0 ==> before(s, events, i) == before(s, events, i - 1).step(events[i - 1]).0,
{
    if i == events.len() {
        assert(events.take(i) =~= events);
    }
    if i > 0 {
        assert(events.take(i).drop_last() =~= events.take(i - 1));
    }
}

/// Over a whole run, no local port stands for two sources, and every local port that stands for a
/// source has a socket.
pub proof fn law_run_keeps_tables_sound(s: State, events: Seq<EventView>)
    requires
        s.inv(),
    ensures
        after(s, events).inv(),
    decreases events.len(),
{
    if events.len() > 0 {
        law_run_keeps_tables_sound(s, events.drop_last());
        law_tables_stay_sound(after(s, events.drop_last()), events.last());
    }
}

/// Over a whole run, a forwarder keeps its side of the connection and its addresses.
pub proof fn law_run_keeps_settings(s: State, events: Seq<EventView>)
    ensures
        after(s, events).listen == s.listen,
        after(s, events).tcp_addr == s.tcp_addr,
        after(s, events).udp_ip_bind == s.udp_ip_bind,
        after(s, events).udp_ip_peer == s.udp_ip_peer,
    decreases events.len(),
{
    if events.len() > 0 {
        law_run_keeps_settings(s, events.drop_last());
        law_settings_stay(after(s, events.drop_last()), events.last());
    }
}

/// Whether the event at `i`, if it tells of a socket that is bound, answers the request that the
/// forwarder made just before, with a port at which no other socket is open.
pub open spec fn bound_as_asked(s: State, events: Seq<EventView>, i: int) -> bool {
    events[i] matches EventView::Bound { packet, local_port, .. } ==> {
        &&& i > 0
        &&& before(s, events, i - 1).step(events[i - 1]).1 matches ActionView::Bind {
            packet: asked,
            ..
        } && asked == packet
        &&& !before(s, events, i).sockets.dom().contains(local_port)
    }
}

/// Whether every socket in the course of a run is bound as the forwarder asked.
pub open spec fn all_bound_as_asked(s: State, events: Seq<EventView>) -> bool {
    forall|i: int| 0 <= i < events.len() ==> #[trigger] bound_as_asked(s, events, i)
}

/// A forwarder asks for a socket only where the source of the packet has no port yet, and it has
/// none still when the answer comes.
pub proof fn law_asks_only_for_new_sources(s: State, event: EventView)
    ensures
        s.step(event).1 matches ActionView::Bind { packet, .. } ==> {
            &&& !s.ports.dom().contains(packet.source_addr.spec_key())
            &&& s.step(event).0.ports == s.ports
        },
{
}

/// A source that has a port keeps it, and its socket, for the rest of the run.
pub proof fn law_source_keeps_its_port(
    s: State,
    events: Seq<EventView>,
    from: int,
    to: int,
    source_addr: SocketAddr,
)
    requires
        s.inv(),
        all_bound_as_asked(s, events),
        0 <= from <= to <= events.len(),
        before(s, events, from).ports.dom().contains(source_addr.spec_key()),
    ensures
        ({
            let key = source_addr.spec_key();
            let first = before(s, events, from);
            let last = before(s, events, to);
            &&& last.ports.dom().contains(key)
            &&& last.ports[key] == first.ports[key]
            &&& last.sockets[last.ports[key]] == first.sockets[first.ports[key]]
        }),
    decreases to - from,
{
    if from < to {
        law_source_keeps_its_port(s, events, from, to - 1, source_addr);
        let state = before(s, events, to - 1);
        law_run_keeps_tables_sound(s, events.take(to - 1));
        lemma_before(s, events, to);
        assert(bound_as_asked(s, events, to - 1));
        if events[to - 1] is Bound {
            lemma_before(s, events, to - 1);
            law_asks_only_for_new_sources(before(s, events, to - 2), events[to - 2]);
        }
        law_mapping_lasts(state, events[to - 1], source_addr);
    }
}

/// The packet that leaves at an event, if one does.
pub open spec fn leaving(s: State, event: EventView) -> Option<Packet> {
    if s.step(event).1 is Send {
        match event {
            EventView::Bound { packet, .. } => Some(packet),
            EventView::TcpRead { bytes } => Packet::read(first_message(s.unread + bytes)->0),
            _ => Packet::read(first_message(s.unread)->0),
        }
    } else {
        None
    }
}

/// The local port that stands for a packet's source once the packet has left.
pub open spec fn port_left_from(s: State, event: EventView) -> u16 {
    s.step(event).0.ports[leaving(s, event)->0.source_addr.spec_key()]
}

/// A packet leaves exactly when the forwarder sends, and it leaves from the socket at the port
/// that stands for its source.
pub proof fn law_packet_leaves_from_its_port(s: State, event: EventView)
    requires
        s.inv(),
    ensures
        leaving(s, event) is Some <==> s.step(event).1 is Send,
        leaving(s, event) matches Some(packet) ==> {
            let next = s.step(event).0;
            &&& next.ports.dom().contains(packet.source_addr.spec_key())
            &&& next.sockets.dom().contains(port_left_from(s, event))
            &&& s.step(event).1 == s.send(packet, next.sockets[port_left_from(s, event)])
            &&& s.step(event).1->Send_socket
                == next.sockets[next.ports[packet.source_addr.spec_key()]]
            &&& s.step(event).1->Send_data == packet.data
            &&& is_port_at(s.step(event).1->Send_to, s.udp_ip_peer, packet.target_port)
        },
{
    law_tables_stay_sound(s, event);
}

/// One source, one port, over a whole run: two packets leave from one port exactly when they have
/// one source, and then they leave from one socket.
pub proof fn law_one_port_per_source(s: State, events: Seq<EventView>, i: int, j: int)
    requires
        s.inv(),
        all_bound_as_asked(s, events),
        0 <= i < events.len(),
        0 <= j < events.len(),
        leaving(before(s, events, i), events[i]) is Some,
        leaving(before(s, events, j), events[j]) is Some,
    ensures
        ({
            let a = before(s, events, i);
            let b = before(s, events, j);
            let one_source = leaving(a, events[i])->0.source_addr == leaving(
                b,
                events[j],
            )->0.source_addr;
            &&& port_left_from(a, events[i]) == port_left_from(b, events[j]) <==> one_source
            &&& one_source ==> a.step(events[i]).1->Send_socket == b.step(events[j]).1->Send_socket
        }),
    decreases (if j < i { 1int } else { 0int }),
{
    if j < i {
        law_one_port_per_source(s, events, j, i);
    } else {
        let a = before(s, events, i);
        let b = before(s, events, j);
        let p = leaving(a, events[i])->0;
        let q = leaving(b, events[j])->0;
        law_run_keeps_tables_sound(s, events.take(i));
        law_run_keeps_tables_sound(s, events.take(j));
        law_run_keeps_tables_sound(s, events.take(j + 1));
        law_packet_leaves_from_its_port(a, events[i]);
        law_packet_leaves_from_its_port(b, events[j]);
        lemma_before(s, events, i + 1);
        lemma_before(s, events, j + 1);
        law_source_keeps_its_port(s, events, i + 1, j + 1, p.source_addr);
        law_key_tells_addresses_apart(p.source_addr, q.source_addr);
    }
}

/// Whether an event is one that the forwarder waits for, as far as the making of connections goes:
/// only a side that connects, and has no connection, fails to; only the other side accepts.
pub open spec fn was_awaited(s: State, event: EventView) -> bool {
    match event {
        EventView::ConnectFailed => !s.connected && !s.listen,
        EventView::Accepted => s.listen,
        _ => true,
    }
}

/// Whether every event of a run is one that the forwarder waits for.
pub open spec fn all_awaited(s: State, events: Seq<EventView>) -> bool {
    forall|i: int|
        0 <= i < events.len() ==> was_awaited(#[trigger] before(s, events, i), events[i])
}

/// A delay is pending only where a connection is to be made.
pub open spec fn delay_has_a_use(s: State) -> bool {
    s.connect_again ==> !s.connected && !s.listen
}

/// A new forwarder has sound tables and no delay.
pub proof fn law_new_forwarder_is_sound(
    listen: bool,
    tcp_addr: SocketAddr,
    udp_bind: SocketAddr,
    initial_udp_sendto: SocketAddr,
)
    ensures
        State::initial(listen, tcp_addr, udp_bind, initial_udp_sendto).inv(),
        delay_has_a_use(State::initial(listen, tcp_addr, udp_bind, initial_udp_sendto)),
{
}

/// No event leaves a delay pending while a connection is up.
pub proof fn law_connection_ends_the_delay(s: State, event: EventView)
    requires
        delay_has_a_use(s),
        was_awaited(s, event),
    ensures
        delay_has_a_use(s.step(event).0),
        s.step(event).0.connected ==> !s.step(event).0.connect_again,
{
}

/// Over a whole run, no delay is pending while a connection is up.
pub proof fn law_no_delay_while_connected(s: State, events: Seq<EventView>)
    requires
        delay_has_a_use(s),
        all_awaited(s, events),
    ensures
        delay_has_a_use(after(s, events)),
        after(s, events).connected ==> !after(s, events).connect_again,
{
    lemma_delay_has_a_use(s, events, events.len() as int);
    lemma_before(s, events, events.len() as int);
}

proof fn lemma_delay_has_a_use(s: State, events: Seq<EventView>, i: int)
    requires
        delay_has_a_use(s),
        all_awaited(s, events),
        0 <= i <= events.len(),
    ensures
        delay_has_a_use(before(s, events, i)),
    decreases i,
{
    lemma_before(s, events, i);
    if i > 0 {
        lemma_delay_has_a_use(s, events, i - 1);
        law_connection_ends_the_delay(before(s, events, i - 1), events[i - 1]);
    }
}

/// At whatever point of a run a side that connects loses its connection, it makes a new one at
/// once.
pub proof fn law_lost_connection_is_replaced_at_once(
    s: State,
    events: Seq<EventView>,
    event: EventView,
)
    requires
        delay_has_a_use(s),
        all_awaited(s, events),
        after(s, events).connected,
        event is WriteFailed || event == (EventView::TcpRead { bytes: Seq::<u8>::empty() }),
    ensures
        !after(s, events).step(event).0.connected,
        after(s, events).step(event).1 matches ActionView::Wait(waits) && {
            &&& !waits.read
            &&& waits.accept == s.listen
            &&& waits.connect == if s.listen {
                Connect::Never
            } else {
                Connect::Now(s.tcp_addr)
            }
        },
        !s.listen ==> after(s, events).step(event).0.waits().connect == Connect::Now(s.tcp_addr),
        s.listen ==> after(s, events).step(event).0.waits().accept,
{
    law_run_keeps_settings(s, events);
    law_no_delay_while_connected(s, events);
    law_lost_connection_is_replaced(after(s, events), event);
}

/// The bytes that were read in the course of a run.
pub open spec fn bytes_read(events: Seq<EventView>) -> Seq<u8>
    decreases events.len(),
{
    if events.len() == 0 {
        seq![]
    } else {
        bytes_read(events.drop_last()) + match events.last() {
            EventView::TcpRead { bytes } => bytes,
            _ => seq![],
        }
    }
}

/// Whether a message is taken off the unread bytes at an event, to be sent or to have a socket
/// bound for it.
pub open spec fn takes(s: State, event: EventView) -> bool {
    &&& event !is Bound
    &&& s.step(event).1 is Send || s.step(event).1 is Bind
}

/// The messages that were taken off the unread bytes in the course of a run.
pub open spec fn taken(s: State, events: Seq<EventView>) -> Seq<Seq<u8>>
    decreases events.len(),
{
    if events.len() == 0 {
        seq![]
    } else {
        let front = events.drop_last();
        let now = after(s, front);
        if takes(now, events.last()) {
            taken(s, front).push(first_message(fed(now, events.last()))->0)
        } else {
            taken(s, front)
        }
    }
}

/// What was sent in the course of a run, and where to.
pub open spec fn sent(s: State, events: Seq<EventView>) -> Seq<(Seq<u8>, SocketAddr)>
    decreases events.len(),
{
    if events.len() == 0 {
        seq![]
    } else {
        let front = events.drop_last();
        match after(s, front).step(events.last()).1 {
            ActionView::Send { data, to, .. } => sent(s, front).push((data, to)),
            _ => sent(s, front),
        }
    }
}

/// Whether a run has no new connection in it.
pub open spec fn no_new_connection(events: Seq<EventView>) -> bool {
    forall|i: int|
        0 <= i < events.len() ==> (#[trigger] events[i]) !is Connected && events[i] !is Accepted
}

/// No byte is lost, whatever happens between one read and the next: as long as the connection is
/// the same, the bytes that were unread at first and those that were read since are the frames of
/// the messages that were taken off, in order, and then the bytes that are unread now.
pub proof fn law_no_byte_is_lost(s: State, events: Seq<EventView>)
    requires
        no_new_connection(events),
    ensures
        s.unread + bytes_read(events) == framed(taken(s, events)) + after(s, events).unread,
        forall|i: int|
            0 <= i < taken(s, events).len() ==> (#[trigger] taken(s, events)[i]).len() <= u32::MAX,
    decreases events.len(),
{
    if events.len() == 0 {
        assert(s.unread + bytes_read(events) =~= framed(taken(s, events)) + after(s, events).unread);
    } else {
        let front = events.drop_last();
        let last = events.last();
        let now = after(s, front);
        assert(last == events[events.len() - 1]);
        assert forall|i: int| 0 <= i < front.len() implies (#[trigger] front[i]) !is Connected
            && front[i] !is Accepted by {
            assert(front[i] == events[i]);
        }
        law_no_byte_is_lost(s, front);
        lemma_step_loses_no_byte(now, last);
        let done = taken(s, front);
        let next = after(s, events).unread;
        let came = match last {
            EventView::TcpRead { bytes } => bytes,
            _ => seq![],
        };
        let off = if takes(now, last) {
            frame(first_message(fed(now, last))->0)
        } else {
            seq![]
        };
        lemma_cut_and_joined(s.unread, bytes_read(front), came, framed(done), now.unread, off, next);
        lemma_one_more_taken(done, first_message(fed(now, last))->0, takes(now, last));
        assert(bytes_read(events) == bytes_read(front) + came);
    }
}

/// What is read and what is taken off go on adding up.
proof fn lemma_cut_and_joined(
    unread: Seq<u8>,
    read: Seq<u8>,
    came: Seq<u8>,
    done: Seq<u8>,
    now: Seq<u8>,
    off: Seq<u8>,
    next: Seq<u8>,
)
    requires
        unread + read == done + now,
        now + came == off + next,
    ensures
        unread + (read + came) == (done + off) + next,
{
    assert(unread + (read + came) =~= (unread + read) + came);
    assert((done + now) + came =~= done + (now + came));
    assert(done + (off + next) =~= (done + off) + next);
}

proof fn lemma_one_more_taken(done: Seq<Seq<u8>>, message: Seq<u8>, takes: bool)
    requires
        forall|i: int| 0 <= i < done.len() ==> (#[trigger] done[i]).len() <= u32::MAX,
        takes ==> message.len() <= u32::MAX,
    ensures
        takes ==> framed(done.push(message)) == framed(done) + frame(message),
        framed(done) == framed(done) + Seq::<u8>::empty(),
        takes ==> forall|i: int|
            0 <= i < done.push(message).len() ==> (#[trigger] done.push(message)[i]).len()
                <= u32::MAX,
{
    law_frames_follow_one_another(done, message);
    assert(framed(done) + header(message) + message =~= framed(done) + frame(message));
    assert(framed(done) =~= framed(done) + Seq::<u8>::empty());
}

proof fn lemma_step_loses_no_byte(s: State, event: EventView)
    requires
        event !is Connected,
        event !is Accepted,
    ensures
        fed(s, event) == s.unread + match event {
            EventView::TcpRead { bytes } => bytes,
            _ => seq![],
        },
        takes(s, event) ==> {
            let message = first_message(fed(s, event))->0;
            &&& message.len() <= u32::MAX
            &&& fed(s, event) == frame(message) + s.step(event).0.unread
        },
        !takes(s, event) ==> fed(s, event) == Seq::<u8>::empty() + s.step(event).0.unread,
{
    law_when_the_unread_bytes_change(s, event);
    law_what_an_event_leads_to(s, event);
    assert(s.unread + Seq::<u8>::empty() =~= s.unread);
    assert(Seq::<u8>::empty() + s.step(event).0.unread =~= s.step(event).0.unread);
    if takes(s, event) {
        assert(event is TcpRead || event is Sent);
        let message = first_message(fed(s, event))->0;
        law_message_is_taken_off_the_front(fed(s, event), message);
    }
}

/// Messages are taken off in the order in which they were read, each once and none left out,
/// whatever happens between one read and the next.
pub proof fn law_messages_are_taken_in_the_order_of_the_stream(s: State, events: Seq<EventView>)
    requires
        no_new_connection(events),
    ensures
        messages(s.unread + bytes_read(events)) == taken(s, events) + messages(
            after(s, events).unread,
        ),
{
    let done = taken(s, events);
    let rest = after(s, events).unread;
    law_no_byte_is_lost(s, events);
    law_stream_read_back(done);
    law_cuts_make_no_difference(framed(done), rest);
    assert(Seq::<u8>::empty() + rest =~= rest);
}

/// Whether every request for a socket is answered by the event that follows, and every socket that
/// is bound answers the request just before.
pub open spec fn all_answered(s: State, events: Seq<EventView>) -> bool {
    forall|i: int| 0 <= i < events.len() ==> #[trigger] answered(s, events, i)
}

pub open spec fn answered(s: State, events: Seq<EventView>, i: int) -> bool {
    &&& before(s, events, i).step(events[i]).1 matches ActionView::Bind { packet: asked, .. } ==> {
        &&& i + 1 < events.len()
        &&& events[i + 1] matches EventView::Bound { packet, .. } && packet == asked
    }
    &&& events[i] matches EventView::Bound { packet, .. } ==> {
        &&& i > 0
        &&& before(s, events, i - 1).step(events[i - 1]).1 matches ActionView::Bind {
            packet: asked,
            ..
        } && asked == packet
    }
}

/// Whether a message reads as a packet whose data went to its target port at `peer`.
pub open spec fn went_out(message: Seq<u8>, datagram: (Seq<u8>, SocketAddr), peer: IpAddr) -> bool {
    Packet::read(message) matches Some(packet) && packet.data == datagram.0 && is_port_at(
        datagram.1,
        peer,
        packet.target_port,
    )
}

/// What is taken off is sent, in the same order, each once, and nothing else is sent.
pub proof fn law_what_is_taken_is_sent(s: State, events: Seq<EventView>)
    requires
        all_answered(s, events),
    ensures
        sent(s, events).len() == taken(s, events).len(),
        forall|i: int|
            0 <= i < taken(s, events).len() ==> went_out(
                #[trigger] taken(s, events)[i],
                sent(s, events)[i],
                s.udp_ip_peer,
            ),
{
    let n = events.len() as int;
    assert(events.take(n) =~= events);
    lemma_taken_and_sent(s, events, n);
    if n > 0 {
        assert(answered(s, events, n - 1));
    }
}

/// The action at `i`.
spec fn action_at(s: State, events: Seq<EventView>, i: int) -> ActionView {
    before(s, events, i).step(events[i]).1
}

proof fn lemma_taken_and_sent(s: State, events: Seq<EventView>, n: int)
    requires
        all_answered(s, events),
        0 <= n <= events.len(),
    ensures
        ({
            let t = taken(s, events.take(n));
            let d = sent(s, events.take(n));
            let pending = n > 0 && action_at(s, events, n - 1) is Bind;
            &&& pending ==> {
                &&& t.len() == d.len() + 1
                &&& Packet::read(t.last()) == Some(action_at(s, events, n - 1)->Bind_packet)
            }
            &&& !pending ==> t.len() == d.len()
            &&& forall|i: int| 0 <= i < d.len() ==> went_out(#[trigger] t[i], d[i], s.udp_ip_peer)
        }),
    decreases n,
{
    if n > 0 {
        lemma_taken_and_sent(s, events, n - 1);
        let t = taken(s, events.take(n - 1));
        let d = sent(s, events.take(n - 1));
        let state = before(s, events, n - 1);
        let event = events[n - 1];
        assert(events.take(n).drop_last() =~= events.take(n - 1));
        assert(events.take(n).last() == event);
        assert(answered(s, events, n - 1));
        law_what_an_event_leads_to(state, event);
        law_what_is_sent(state, event);
        law_what_is_bound(state, event);
        law_run_keeps_settings(s, events.take(n - 1));
        if n > 1 {
            assert(answered(s, events, n - 2));
            if action_at(s, events, n - 2) is Bind {
                assert(event is Bound);
                assert(taken(s, events.take(n)) == t);
            }
        }
        let t1 = taken(s, events.take(n));
        let d1 = sent(s, events.take(n));
        assert forall|i: int| 0 <= i < d1.len() implies went_out(
            #[trigger] t1[i],
            d1[i],
            s.udp_ip_peer,
        ) by {
            if i < d.len() {
                assert(t1[i] == t[i]);
                assert(d1[i] == d[i]);
            }
        }
    }
}

/// Datagrams cross while traffic flows both ways: however TCP cuts up what one forwarder wrote,
/// and whatever the other has to do between one read and the next, once it has taken off all whole
/// frames it has sent each datagram once, in order, to its port at the peer.
pub proof fn law_datagrams_cross_among_other_events(
    s: State,
    packets: Seq<Packet>,
    events: Seq<EventView>,
)
    requires
        s.unread.len() == 0,
        forall|i: int|
            0 <= i < packets.len() ==> (#[trigger] packets[i]).bytes().len() <= u32::MAX
                && packets[i].data.len() <= usize::MAX,
        no_new_connection(events),
        all_answered(s, events),
        bytes_read(events) == framed(messages_for(packets)),
        first_message(after(s, events).unread) is None,
    ensures
        sent(s, events).len() == packets.len(),
        forall|i: int|
            0 <= i < packets.len() ==> {
                &&& (#[trigger] sent(s, events)[i]).0 == packets[i].data
                &&& is_port_at(sent(s, events)[i].1, s.udp_ip_peer, packets[i].target_port)
            },
{
    let written = messages_for(packets);
    assert forall|i: int| 0 <= i < written.len() implies (#[trigger] written[i]).len()
        <= u32::MAX by {
        assert(written[i] == packets[i].bytes());
    }
    law_stream_read_back(written);
    law_messages_are_taken_in_the_order_of_the_stream(s, events);
    law_what_is_taken_is_sent(s, events);
    assert(s.unread + bytes_read(events) =~= bytes_read(events));
    assert(messages(after(s, events).unread) =~= Seq::<Seq<u8>>::empty());
    assert(taken(s, events) =~= written);
    assert forall|i: int| 0 <= i < packets.len() implies {
        &&& (#[trigger] sent(s, events)[i]).0 == packets[i].data
        &&& is_port_at(sent(s, events)[i].1, s.udp_ip_peer, packets[i].target_port)
    } by {
        assert(went_out(taken(s, events)[i], sent(s, events)[i], s.udp_ip_peer));
        law_what_crosses(packets[i], Seq::empty());
        assert(packets[i].bytes() + Seq::<u8>::empty() =~= written[i]);
    }
}

/// Whether no socket is at two ports.
pub open spec fn sockets_differ(sockets: Map<u16, usize>) -> bool {
    forall|a: u16, b: u16|
        #![trigger sockets.dom().contains(a), sockets.dom().contains(b)]
        sockets.dom().contains(a) && sockets.dom().contains(b) && sockets[a] == sockets[b] ==> a
            == b
}

/// No socket is at two ports as long as each that is opened or bound has a number that is not in
/// use.
pub proof fn law_sockets_go_on_differing(s: State, event: EventView)
    requires
        sockets_differ(s.sockets),
        event matches EventView::Opened { socket, .. } ==> !s.sockets.contains_value(socket),
        event matches EventView::Bound { socket, .. } ==> !s.sockets.contains_value(socket),
    ensures
        sockets_differ(s.step(event).0.sockets),
{
    let next = s.step(event).0.sockets;
    assert forall|a: u16, b: u16|
        #![trigger next.dom().contains(a), next.dom().contains(b)]
        next.dom().contains(a) && next.dom().contains(b) && next[a] == next[b] implies a == b by {
        law_when_a_port_has_a_socket(s, event, a);
        law_when_a_port_has_a_socket(s, event, b);
        if s.sockets.dom().contains(a) {
            assert(s.sockets.contains_value(s.sockets[a]));
        }
        if s.sockets.dom().contains(b) {
            assert(s.sockets.contains_value(s.sockets[b]));
        }
    }
}

proof fn lemma_sockets_last(s: State, events: Seq<EventView>, from: int, to: int, port: u16)
    requires
        0 <= from <= to <= events.len(),
        before(s, events, from).sockets.dom().contains(port),
    ensures
        before(s, events, to).sockets.dom().contains(port),
        before(s, events, to).sockets[port] == before(s, events, from).sockets[port],
    decreases to - from,
{
    if from < to {
        lemma_sockets_last(s, events, from, to - 1, port);
        lemma_before(s, events, to);
        law_sockets_stay(before(s, events, to - 1), events[to - 1], port);
    }
}

/// One source, one socket, over a whole run: where no socket is at two ports, two packets leave
/// from one socket exactly when they have one source.
pub proof fn law_sources_leave_from_sockets_of_their_own(
    s: State,
    events: Seq<EventView>,
    i: int,
    j: int,
)
    requires
        s.inv(),
        all_bound_as_asked(s, events),
        sockets_differ(after(s, events).sockets),
        0 <= i < events.len(),
        0 <= j < events.len(),
        leaving(before(s, events, i), events[i]) is Some,
        leaving(before(s, events, j), events[j]) is Some,
    ensures
        before(s, events, i).step(events[i]).1->Send_socket == before(s, events, j).step(
            events[j],
        ).1->Send_socket <==> leaving(before(s, events, i), events[i])->0.source_addr == leaving(
            before(s, events, j),
            events[j],
        )->0.source_addr,
{
    let n = events.len() as int;
    let a = before(s, events, i);
    let b = before(s, events, j);
    law_one_port_per_source(s, events, i, j);
    law_run_keeps_tables_sound(s, events.take(i));
    law_run_keeps_tables_sound(s, events.take(j));
    law_packet_leaves_from_its_port(a, events[i]);
    law_packet_leaves_from_its_port(b, events[j]);
    lemma_before(s, events, i + 1);
    lemma_before(s, events, j + 1);
    lemma_before(s, events, n);
    lemma_sockets_last(s, events, i + 1, n, port_left_from(a, events[i]));
    lemma_sockets_last(s, events, j + 1, n, port_left_from(b, events[j]));
}

} // verus!
