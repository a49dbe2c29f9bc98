//! The tables of the receiving end: which local port stands for which source, and which socket is
//! bound to which local port.

use vstd::prelude::*;

use crate::addr::AddrKey;

verus! {

/// Which local port stands for which source.
pub type NatTable = bimap::BiHashMap<u16, AddrKey>;

/// Which socket is bound to which local port. A socket is known by a number.
pub type SocketTable = elsa::FrozenMap<u16, Box<usize>>;

/// An outside type: a table of pairs in which neither side occurs twice.
#[verifier::external_type_specification]
#[verifier::external_body]
#[verifier::reject_recursive_types(L)]
#[verifier::reject_recursive_types(R)]
#[verifier::reject_recursive_types(LS)]
#[verifier::reject_recursive_types(RS)]
pub struct ExBiHashMap<L, R, LS, RS>(bimap::BiHashMap<L, R, LS, RS>);

/// An outside type: a table that only grows.
#[verifier::external_type_specification]
#[verifier::external_body]
#[verifier::reject_recursive_types(K)]
#[verifier::reject_recursive_types(V)]
#[verifier::reject_recursive_types(S)]
pub struct ExFrozenMap<K, V, S>(elsa::FrozenMap<K, V, S>);

/// The local port that a NAT table holds for each source.
pub uninterp spec fn nat_ports(table: NatTable) -> Map<AddrKey, u16>;

/// The socket that a socket table holds for each local port.
pub uninterp spec fn port_sockets(table: SocketTable) -> Map<u16, usize>;

/// `ports` with `port` standing for `source`, and for no other source.
pub open spec fn nat_insert(ports: Map<AddrKey, u16>, port: u16, source: AddrKey) -> Map<
    AddrKey,
    u16,
> {
    Map::new(
        |key: AddrKey| key == source || (ports.dom().contains(key) && ports[key] != port),
        |key: AddrKey|
            if key == source {
                port
            } else {
                ports[key]
            },
    )
}

/// `sockets` with `socket` at `port`, unless a socket is there already.
pub open spec fn socket_insert(sockets: Map<u16, usize>, port: u16, socket: usize) -> Map<
    u16,
    usize,
> {
    if sockets.dom().contains(port) {
        sockets
    } else {
        sockets.insert(port, socket)
    }
}

/// No local port stands for two sources.
pub open spec fn one_source_per_port(ports: Map<AddrKey, u16>) -> bool {
    forall|a: AddrKey, b: AddrKey|
        #![trigger ports.dom().contains(a), ports.dom().contains(b)]
        ports.dom().contains(a) && ports.dom().contains(b) && ports[a] == ports[b] ==> a == b
}

/// Every local port that stands for a source has a socket.
pub open spec fn ports_have_sockets(ports: Map<AddrKey, u16>, sockets: Map<u16, usize>) -> bool {
    forall|key: AddrKey|
        #[trigger] ports.dom().contains(key) ==> sockets.dom().contains(ports[key])
}

/// Calls `bimap::BiHashMap::new`, which makes an empty table.
#[verifier::external_body]
pub(crate) fn nat_table_new() -> (table: NatTable)
    ensures
        nat_ports(table) == (Map::<AddrKey, u16>::empty()),
{
    bimap::BiHashMap::new()
}

/// Calls `bimap::BiHashMap::insert`, which takes out the pair with this port and the pair with
/// this source, where there are any, and puts in the pair of the two.
#[verifier::external_body]
pub(crate) fn nat_table_insert(table: &mut NatTable, port: u16, source: AddrKey)
    ensures
        nat_ports(*final(table)) == nat_insert(nat_ports(*old(table)), port, source),
{
    table.insert(port, source);
}

/// Calls `bimap::BiHashMap::get_by_right`, which finds the port that is paired with the source.
#[verifier::external_body]
pub(crate) fn nat_table_get(table: &NatTable, source: AddrKey) -> (port: Option<u16>)
    ensures
        port == if nat_ports(*table).dom().contains(source) {
            Some(nat_ports(*table)[source])
        } else {
            None
        },
{
    table.get_by_right(&source).copied()
}

/// Calls `elsa::FrozenMap::new`, which makes an empty table.
#[verifier::external_body]
pub(crate) fn socket_table_new() -> (table: SocketTable)
    ensures
        port_sockets(table) == (Map::<u16, usize>::empty()),
{
    elsa::FrozenMap::new()
}

/// Calls `elsa::FrozenMap::insert`, which puts the socket at the port unless the port has one
/// already. elsa takes the table by a shared reference; here it is an exclusive one, so that the
/// contents change nowhere else.
#[verifier::external_body]
pub(crate) fn socket_table_insert(table: &mut SocketTable, port: u16, socket: usize)
    ensures
        port_sockets(*final(table)) == socket_insert(port_sockets(*old(table)), port, socket),
{
    table.insert(port, Box::new(socket));
}

/// Calls `elsa::FrozenMap::get`, which finds the socket at the port.
#[verifier::external_body]
pub(crate) fn socket_table_get(table: &SocketTable, port: u16) -> (socket: Option<usize>)
    ensures
        socket == if port_sockets(*table).dom().contains(port) {
            Some(port_sockets(*table)[port])
        } else {
            None
        },
{
    table.get(&port).copied()
}

/// A mapping keeps its port to itself: if no port stood for two sources before, none does after.
pub proof fn law_mapping_keeps_ports_apart(ports: Map<AddrKey, u16>, port: u16, source: AddrKey)
    requires
        one_source_per_port(ports),
    ensures
        one_source_per_port(nat_insert(ports, port, source)),
{
    let next = nat_insert(ports, port, source);
    assert forall|a: AddrKey, b: AddrKey|
        #![trigger next.dom().contains(a), next.dom().contains(b)]
        next.dom().contains(a) && next.dom().contains(b) && next[a] == next[b] implies a == b by {
        if a != source && b != source {
            assert(ports.dom().contains(a) && ports.dom().contains(b));
        }
    }
}

/// A new mapping leaves every other source at its port, unless it takes that port over.
pub proof fn law_mapping_leaves_others_alone(
    ports: Map<AddrKey, u16>,
    port: u16,
    source: AddrKey,
    other: AddrKey,
)
    requires
        other != source,
        ports.dom().contains(other),
        ports[other] != port,
    ensures
        nat_insert(ports, port, source).dom().contains(other),
        nat_insert(ports, port, source)[other] == ports[other],
{
}

/// After a mapping the source has the port; another source has the port that it had, unless that
/// is the port that was given away, and then it has none.
pub proof fn law_mapping_is_found(
    ports: Map<AddrKey, u16>,
    port: u16,
    source: AddrKey,
    other: AddrKey,
)
    ensures
        nat_insert(ports, port, source).dom().contains(source),
        nat_insert(ports, port, source)[source] == port,
        other != source ==> (nat_insert(ports, port, source).dom().contains(other)
            <==> ports.dom().contains(other) && ports[other] != port),
        other != source && nat_insert(ports, port, source).dom().contains(other) ==> nat_insert(
            ports,
            port,
            source,
        )[other] == ports[other],
{
}

/// A port that had no socket has the one that was put there; any other port, and one that had a
/// socket already, has what it had.
pub proof fn law_socket_is_found(
    sockets: Map<u16, usize>,
    port: u16,
    socket: usize,
    other: u16,
)
    ensures
        ({
            let next = socket_insert(sockets, port, socket);
            &&& next.dom().contains(port)
            &&& !sockets.dom().contains(port) ==> next[port] == socket
            &&& sockets.dom().contains(other) ==> next.dom().contains(other) && next[other]
                == sockets[other]
            &&& other != port ==> (next.dom().contains(other) <==> sockets.dom().contains(other))
        }),
{
}

} // verus!
