//! The datagrams that cross the TCP connection, and their bytes.

use vstd::prelude::*;

use crate::addr::{Ipv4Addr, Ipv6Addr, SocketAddr};
use crate::varint::{
    law_integer_is_read_where_it_is_spelt, law_integer_is_written_as_its_shortest_code,
    law_varint_read_back, lemma_varint_len, read_varint, spells, varint,
};

verus! {

/// A datagram on its way to the other end.
#[derive(Debug, PartialEq, Eq)]
pub struct UdpPacketWrapper {
    pub data: Vec<u8>,
    /// source address before NAT mapping: the receiving end does the mapping, so that ports do
    /// not conflict
    pub source_addr: SocketAddr,
    /// the port that the datagram was sent to
    pub target_port: u16,
}

/// What a [`UdpPacketWrapper`] holds.
pub struct Packet {
    pub data: Seq<u8>,
    pub source_addr: SocketAddr,
    pub target_port: u16,
}

impl View for UdpPacketWrapper {
    type V = Packet;

    open spec fn view(&self) -> Packet {
        Packet {
            data: self.data@,
            source_addr: self.source_addr,
            target_port: self.target_port,
        }
    }
}

/// The fields of a packet in their order on the wire.
pub struct Fields {
    pub data: Seq<u8>,
    pub family: u32,
    pub ip: Seq<u8>,
    pub port: u16,
    pub target_port: u16,
}

impl Fields {
    /// The fields in order: the length of the data and the data, the address family, the octets
    /// of the address, and the two ports.
    pub open spec fn bytes(self) -> Seq<u8> {
        varint(self.data.len() as int) + self.data + varint(self.family as int) + self.ip + varint(
            self.port as int,
        ) + varint(self.target_port as int)
    }

    /// The fields at the front of `s`, with an address of `octets` octets.
    pub open spec fn read(s: Seq<u8>, octets: nat) -> Option<Fields> {
        match read_varint(s, 8) {
            Some((len, n)) if n + len <= s.len() => {
                let s1 = s.skip(n + len);
                match read_varint(s1, 4) {
                    Some((family, n1)) if n1 + octets <= s1.len() => {
                        let s2 = s1.skip(n1 + octets);
                        match read_varint(s2, 2) {
                            Some((port, n2)) => match read_varint(s2.skip(n2), 2) {
                                Some((target_port, _)) => Some(
                                    Fields {
                                        data: s.subrange(n, n + len),
                                        family: family as u32,
                                        ip: s1.subrange(n1, n1 + octets),
                                        port: port as u16,
                                        target_port: target_port as u16,
                                    },
                                ),
                                None => None,
                            },
                            None => None,
                        }
                    },
                    _ => None,
                }
            },
            _ => None,
        }
    }
}

/// An outside type: why bincode could not read a value.
#[verifier::external_type_specification]
#[verifier::external_body]
pub struct ExDecodeError(bincode::error::DecodeError);

/// Calls `bincode::encode_to_vec` on a tuple with the standard configuration. bincode writes the
/// elements of a tuple in order with nothing between them, an integer wider than a byte as a
/// variable-length integer, a slice of bytes as its length and its bytes, and an array of bytes as
/// its bytes alone. None of these can fail when they are written to a vector.
#[verifier::external_body]
fn encode_fields<const N: usize>(
    data: &[u8],
    family: u32,
    ip: [u8; N],
    port: u16,
    target_port: u16,
) -> (bytes: Vec<u8>)
    ensures
        bytes@ == (Fields { data: data@, family, ip: ip@, port, target_port }).bytes(),
{
    bincode::encode_to_vec((data, family, ip, port, target_port), bincode::config::standard())
        .unwrap()
}

/// Calls `bincode::borrow_decode_from_slice` for a tuple with the standard configuration, and
/// copies the borrowed bytes. bincode reads the elements of the tuple in order from the front of
/// the slice, each in the form in which it is written, and leaves alone what follows them. It
/// fails where the slice ends too early or a marker announces an integer that is too wide.
#[verifier::external_body]
fn decode_fields<const N: usize>(bytes: &[u8]) -> (fields: Result<
    (Vec<u8>, u32, [u8; N], u16, u16),
    bincode::error::DecodeError,
>)
    ensures
        match fields {
            Ok((data, family, ip, port, target_port)) => Fields::read(bytes@, N as nat) == Some(
                (Fields { data: data@, family, ip: ip@, port, target_port }),
            ),
            Err(_) => Fields::read(bytes@, N as nat) is None,
        },
{
    let (fields, _): ((&[u8], u32, [u8; N], u16, u16), usize) =
        bincode::borrow_decode_from_slice(bytes, bincode::config::standard())?;
    Ok((fields.0.to_vec(), fields.1, fields.2, fields.3, fields.4))
}

impl Packet {
    /// The packet with what an address keeps on the wire: the flow information and the scope of
    /// an IPv6 source stay behind.
    pub open spec fn on_the_wire(self) -> Packet {
        Packet {
            source_addr: SocketAddr::spec_new(
                self.source_addr.spec_ip(),
                self.source_addr.spec_port(),
            ),
            ..self
        }
    }

    pub open spec fn fields(self) -> Fields {
        match self.source_addr {
            SocketAddr::V4 { ip, port } => Fields {
                data: self.data,
                family: 0,
                ip: ip.octets@,
                port,
                target_port: self.target_port,
            },
            SocketAddr::V6 { ip, port, .. } => Fields {
                data: self.data,
                family: 1,
                ip: ip.octets@,
                port,
                target_port: self.target_port,
            },
        }
    }

    /// The packet as bytes.
    pub open spec fn bytes(self) -> Seq<u8> {
        self.fields().bytes()
    }

    /// The packet at the front of `s`: family 0 with four octets, or family 1 with sixteen.
    pub open spec fn read(s: Seq<u8>) -> Option<Packet> {
        match (Fields::read(s, 4), Fields::read(s, 16)) {
            (Some(f), _) if f.family == 0 => Some(
                Packet {
                    data: f.data,
                    source_addr: SocketAddr::V4 {
                        ip: Ipv4Addr { octets: [f.ip[0], f.ip[1], f.ip[2], f.ip[3]] },
                        port: f.port,
                    },
                    target_port: f.target_port,
                },
            ),
            (_, Some(f)) if f.family == 1 => Some(
                Packet {
                    data: f.data,
                    source_addr: SocketAddr::V6 {
                        ip: Ipv6Addr { octets: sixteen(f.ip) },
                        port: f.port,
                        flowinfo: 0,
                        scope_id: 0,
                    },
                    target_port: f.target_port,
                },
            ),
            _ => None,
        }
    }
}

pub open spec fn sixteen(s: Seq<u8>) -> [u8; 16] {
    [
        s[0],
        s[1],
        s[2],
        s[3],
        s[4],
        s[5],
        s[6],
        s[7],
        s[8],
        s[9],
        s[10],
        s[11],
        s[12],
        s[13],
        s[14],
        s[15],
    ]
}

/// Bytes that hold no packet.
#[derive(Clone, Copy, Debug, PartialEq, Eq)]
pub struct Malformed;

impl UdpPacketWrapper {
    /// The packet as bytes.
    pub fn encode(&self) -> (bytes: Vec<u8>)
        ensures
            bytes@ == self@.bytes(),
    {
        match self.source_addr {
            SocketAddr::V4 { ip, port } => encode_fields(
                self.data.as_slice(),
                0,
                ip.octets,
                port,
                self.target_port,
            ),
            SocketAddr::V6 { ip, port, .. } => encode_fields(
                self.data.as_slice(),
                1,
                ip.octets,
                port,
                self.target_port,
            ),
        }
    }

    /// The packet at the front of `bytes`.
    pub fn decode(bytes: &[u8]) -> (packet: Result<UdpPacketWrapper, Malformed>)
        ensures
            match packet {
                Ok(packet) => Packet::read(bytes@) == Some(packet@),
                Err(Malformed) => Packet::read(bytes@) is None,
            },
    {
        if let Ok((data, family, octets, port, target_port)) = decode_fields::<4>(bytes) {
            if family == 0 {
                let source_addr = SocketAddr::V4 { ip: Ipv4Addr { octets }, port };
                assert(octets =~= [octets@[0], octets@[1], octets@[2], octets@[3]]);
                return Ok(UdpPacketWrapper { data, source_addr, target_port });
            }
        }
        if let Ok((data, family, octets, port, target_port)) = decode_fields::<16>(bytes) {
            if family == 1 {
                let source_addr = SocketAddr::V6 {
                    ip: Ipv6Addr { octets },
                    port,
                    flowinfo: 0,
                    scope_id: 0,
                };
                assert(octets =~= sixteen(octets@));
                return Ok(UdpPacketWrapper { data, source_addr, target_port });
            }
        }
        Err(Malformed)
    }
}

/// Six pieces in a row, taken off one after the other.
proof fn lemma_pieces(
    a: Seq<u8>,
    data: Seq<u8>,
    b: Seq<u8>,
    ip: Seq<u8>,
    c: Seq<u8>,
    d: Seq<u8>,
    rest: Seq<u8>,
)
    ensures
        ({
            let s = a + data + b + ip + c + d + rest;
            let s1 = b + (ip + (c + (d + rest)));
            let s2 = c + (d + rest);
            &&& s == a + (data + s1)
            &&& s.subrange(a.len() as int, (a.len() + data.len()) as int) == data
            &&& s.skip((a.len() + data.len()) as int) == s1
            &&& s1.subrange(b.len() as int, (b.len() + ip.len()) as int) == ip
            &&& s1.skip((b.len() + ip.len()) as int) == s2
            &&& s2.skip(c.len() as int) == d + rest
            &&& a.len() + data.len() <= s.len()
            &&& b.len() + ip.len() <= s1.len()
        }),
{
    let s = a + data + b + ip + c + d + rest;
    let s1 = b + (ip + (c + (d + rest)));
    let s2 = c + (d + rest);
    assert(s =~= a + (data + s1));
    assert(s.subrange(a.len() as int, (a.len() + data.len()) as int) =~= data);
    assert(s.skip((a.len() + data.len()) as int) =~= s1);
    assert(s1.subrange(b.len() as int, (b.len() + ip.len()) as int) =~= ip);
    assert(s1.skip((b.len() + ip.len()) as int) =~= s2);
    assert(s2.skip(c.len() as int) =~= d + rest);
}

/// Pieces that read as integers make up fields.
proof fn lemma_fields_of_pieces(
    f: Fields,
    a: Seq<u8>,
    b: Seq<u8>,
    c: Seq<u8>,
    d: Seq<u8>,
    rest: Seq<u8>,
)
    requires
        ({
            let s2 = c + (d + rest);
            let s1 = b + (f.ip + s2);
            &&& read_varint(a + (f.data + s1), 8) == Some((f.data.len() as int, a.len() as int))
            &&& read_varint(s1, 4) == Some((f.family as int, b.len() as int))
            &&& read_varint(s2, 2) == Some((f.port as int, c.len() as int))
            &&& read_varint(d + rest, 2) == Some((f.target_port as int, d.len() as int))
        }),
    ensures
        Fields::read(a + f.data + b + f.ip + c + d + rest, f.ip.len()) == Some(f),
{
    lemma_pieces(a, f.data, b, f.ip, c, d, rest);
}

proof fn lemma_fields_read_back(f: Fields, rest: Seq<u8>)
    requires
        f.data.len() <= usize::MAX,
    ensures
        Fields::read(f.bytes() + rest, f.ip.len()) == Some(f),
{
    let a = varint(f.data.len() as int);
    let b = varint(f.family as int);
    let c = varint(f.port as int);
    let d = varint(f.target_port as int);
    let s2 = c + (d + rest);
    let s1 = b + (f.ip + s2);
    crate::bytes_le::lemma_le_ranges();
    law_varint_read_back(f.data.len() as int, 8, f.data + s1);
    law_varint_read_back(f.family as int, 4, f.ip + s2);
    law_varint_read_back(f.port as int, 2, d + rest);
    law_varint_read_back(f.target_port as int, 2, rest);
    lemma_fields_of_pieces(f, a, b, c, d, rest);
}

/// A packet is read back from the front of its own bytes, whatever follows them, but for the flow
/// information and the scope of an IPv6 source.
pub proof fn law_packet_read_back(p: Packet, rest: Seq<u8>)
    requires
        p.data.len() <= usize::MAX,
    ensures
        Packet::read(p.bytes() + rest) == Some(p.on_the_wire()),
{
    let f = p.fields();
    let s = p.bytes() + rest;
    lemma_fields_read_back(f, rest);
    match p.source_addr {
        SocketAddr::V4 { ip, .. } => {
            assert(ip.octets =~= [f.ip[0], f.ip[1], f.ip[2], f.ip[3]]);
        },
        SocketAddr::V6 { ip, .. } => {
            lemma_family_is_read_first(s);
            assert(ip.octets =~= sixteen(f.ip));
        },
    }
}

/// The family comes before the octets, so it does not depend on how many are read.
proof fn lemma_family_is_read_first(s: Seq<u8>)
    ensures
        match (Fields::read(s, 4), Fields::read(s, 16)) {
            (Some(f), Some(g)) => f.family == g.family,
            _ => true,
        },
{
}

/// The bytes of a datagram that UDP can carry fit a frame: a little longer than the data.
pub proof fn law_packet_bytes_are_short(p: Packet)
    ensures
        p.data.len() < p.bytes().len() <= p.data.len() + 52,
{
    lemma_varint_len(p.data.len() as int);
    lemma_varint_len(p.fields().family as int);
    lemma_varint_len(p.fields().port as int);
    lemma_varint_len(p.fields().target_port as int);
}

/// The octets of an address, and the number of its family.
pub open spec fn octets_of(addr: SocketAddr) -> (int, Seq<u8>) {
    match addr {
        SocketAddr::V4 { ip, .. } => (0, ip.octets@),
        SocketAddr::V6 { ip, .. } => (1, ip.octets@),
    }
}

/// Whether `s` starts with the packet: codes that spell the length of the data, the family and
/// the two ports, with the data behind the first and the octets behind the second.
pub open spec fn stands_at_the_front(
    p: Packet,
    s: Seq<u8>,
    len: Seq<u8>,
    family: Seq<u8>,
    port: Seq<u8>,
    target_port: Seq<u8>,
) -> bool {
    &&& (len + p.data + family + octets_of(p.source_addr).1 + port + target_port).is_prefix_of(s)
    &&& spells(len, p.data.len() as int, 8)
    &&& spells(family, octets_of(p.source_addr).0, 4)
    &&& spells(port, p.source_addr.spec_port() as int, 2)
    &&& spells(target_port, p.target_port as int, 2)
}

/// A packet is written as it stands at the front of its bytes, with nothing behind it, each
/// integer as its shortest code.
pub proof fn law_packet_is_written_field_by_field(p: Packet)
    requires
        p.data.len() <= usize::MAX,
    ensures
        p.bytes() == varint(p.data.len() as int) + p.data + varint(octets_of(p.source_addr).0)
            + octets_of(p.source_addr).1 + varint(p.source_addr.spec_port() as int) + varint(
            p.target_port as int,
        ),
        stands_at_the_front(
            p,
            p.bytes(),
            varint(p.data.len() as int),
            varint(octets_of(p.source_addr).0),
            varint(p.source_addr.spec_port() as int),
            varint(p.target_port as int),
        ),
{
    law_integer_is_written_as_its_shortest_code(p.data.len() as int, Seq::empty());
    law_integer_is_written_as_its_shortest_code(octets_of(p.source_addr).0, Seq::empty());
    law_integer_is_written_as_its_shortest_code(p.source_addr.spec_port() as int, Seq::empty());
    law_integer_is_written_as_its_shortest_code(p.target_port as int, Seq::empty());
}

/// A packet whose address has no flow information and no scope is read from `s` where it stands
/// at the front of `s`.
pub proof fn law_packet_is_read_where_it_stands(
    p: Packet,
    s: Seq<u8>,
    len: Seq<u8>,
    family: Seq<u8>,
    port: Seq<u8>,
    target_port: Seq<u8>,
)
    requires
        stands_at_the_front(p, s, len, family, port, target_port),
        p.source_addr matches SocketAddr::V6 { flowinfo, scope_id, .. } ==> flowinfo == 0
            && scope_id == 0,
    ensures
        Packet::read(s) == Some(p),
{
    let octets = octets_of(p.source_addr).1;
    let front = len + p.data + family + octets + port + target_port;
    let rest = s.skip(front.len() as int);
    let f = p.fields();
    assert(s =~= front + rest);
    let s2 = port + (target_port + rest);
    let s1 = family + (octets + s2);
    lemma_code_is_read(len, f.data.len() as int, 8, f.data + s1);
    lemma_code_is_read(family, f.family as int, 4, octets + s2);
    lemma_code_is_read(port, f.port as int, 2, target_port + rest);
    lemma_code_is_read(target_port, f.target_port as int, 2, rest);
    lemma_fields_of_pieces(f, len, family, port, target_port, rest);
    match p.source_addr {
        SocketAddr::V4 { ip, .. } => {
            assert(ip.octets =~= [f.ip[0], f.ip[1], f.ip[2], f.ip[3]]);
        },
        SocketAddr::V6 { ip, .. } => {
            lemma_family_is_read_first(s);
            assert(ip.octets =~= sixteen(f.ip));
        },
    }
}

proof fn lemma_code_is_read(code: Seq<u8>, v: int, width: nat, rest: Seq<u8>)
    requires
        spells(code, v, width),
    ensures
        read_varint(code + rest, width) == Some((v, code.len() as int)),
{
    law_integer_is_read_where_it_is_spelt(code + rest, width, v, code.len() as int);
    assert((code + rest).take(code.len() as int) =~= code);
}

/// Where a packet is read from `s`, it stands at the front of `s`, and its address has no flow
/// information and no scope.
pub proof fn law_packet_that_is_read_stands_there(s: Seq<u8>)
    ensures
        Packet::read(s) matches Some(p) ==> {
            &&& p.source_addr matches SocketAddr::V6 { flowinfo, scope_id, .. } ==> flowinfo == 0
                && scope_id == 0
            &&& exists|len: Seq<u8>, family: Seq<u8>, port: Seq<u8>, target_port: Seq<u8>|
                stands_at_the_front(p, s, len, family, port, target_port)
        },
{
    if let Some(p) = Packet::read(s) {
        let octets: nat = if p.source_addr is V4 { 4 } else { 16 };
        let f = Fields::read(s, octets)->0;
        lemma_fields_stand_there(s, octets);
        assert(octets_of(p.source_addr).1 =~= f.ip);
        let (len, family, port, target_port) = choose|
            len: Seq<u8>,
            family: Seq<u8>,
            port: Seq<u8>,
            target_port: Seq<u8>,
        | fields_stand_at_the_front(f, s, len, family, port, target_port);
        assert(stands_at_the_front(p, s, len, family, port, target_port));
    }
}

spec fn fields_stand_at_the_front(
    f: Fields,
    s: Seq<u8>,
    len: Seq<u8>,
    family: Seq<u8>,
    port: Seq<u8>,
    target_port: Seq<u8>,
) -> bool {
    &&& (len + f.data + family + f.ip + port + target_port).is_prefix_of(s)
    &&& spells(len, f.data.len() as int, 8)
    &&& spells(family, f.family as int, 4)
    &&& spells(port, f.port as int, 2)
    &&& spells(target_port, f.target_port as int, 2)
}

proof fn lemma_fields_stand_there(s: Seq<u8>, octets: nat)
    requires
        Fields::read(s, octets) is Some,
    ensures
        Fields::read(s, octets)->0.ip.len() == octets,
        exists|len: Seq<u8>, family: Seq<u8>, port: Seq<u8>, target_port: Seq<u8>|
            fields_stand_at_the_front(
                Fields::read(s, octets)->0,
                s,
                len,
                family,
                port,
                target_port,
            ),
{
    let f = Fields::read(s, octets)->0;
    let (v, n) = read_varint(s, 8)->0;
    let s1 = s.skip(n + v);
    let (v1, n1) = read_varint(s1, 4)->0;
    let s2 = s1.skip(n1 + octets);
    let (v2, n2) = read_varint(s2, 2)->0;
    let s3 = s2.skip(n2);
    let (v3, n3) = read_varint(s3, 2)->0;
    lemma_spelt(s, 8);
    lemma_spelt(s1, 4);
    lemma_spelt(s2, 2);
    lemma_spelt(s3, 2);
    lemma_front(s, n, v, n1, octets as int, n2, n3);
    assert(fields_stand_at_the_front(f, s, s.take(n), s1.take(n1), s2.take(n2), s3.take(n3)));
}

/// What is read as an integer is spelt by the bytes that it takes up, and fits its type.
proof fn lemma_spelt(s: Seq<u8>, width: nat)
    ensures
        read_varint(s, width) matches Some((v, n)) ==> {
            &&& 1 <= n <= s.len()
            &&& v >= 0
            &&& spells(s.take(n), v, width)
            &&& width == 2 ==> v <= u16::MAX
            &&& width == 4 ==> v <= u32::MAX
        },
{
    if let Some((v, n)) = read_varint(s, width) {
        law_integer_is_read_where_it_is_spelt(s, width, v, n);
    }
}

/// Pieces that follow one another from the front of `s` are the front of `s`.
proof fn lemma_front(s: Seq<u8>, n: int, v: int, n1: int, o: int, n2: int, n3: int)
    requires
        0 <= n,
        0 <= v,
        0 <= n1,
        0 <= o,
        0 <= n2,
        0 <= n3,
        n + v + n1 + o + n2 + n3 <= s.len(),
    ensures
        ({
            let s1 = s.skip(n + v);
            let s2 = s1.skip(n1 + o);
            let s3 = s2.skip(n2);
            (s.take(n) + s.subrange(n, n + v) + s1.take(n1) + s1.subrange(n1, n1 + o) + s2.take(n2)
                + s3.take(n3)).is_prefix_of(s)
        }),
{
    let s1 = s.skip(n + v);
    let s2 = s1.skip(n1 + o);
    let s3 = s2.skip(n2);
    assert(s.take(n) + s.subrange(n, n + v) =~= s.take(n + v));
    assert(s.take(n + v) + s1.take(n1) =~= s.take(n + v + n1));
    assert(s.take(n + v + n1) + s1.subrange(n1, n1 + o) =~= s.take(n + v + n1 + o));
    assert(s.take(n + v + n1 + o) + s2.take(n2) =~= s.take(n + v + n1 + o + n2));
    assert(s.take(n + v + n1 + o + n2) + s3.take(n3) =~= s.take(n + v + n1 + o + n2 + n3));
}

/// What crosses: the data, the two ports, and the IP address of the source with its family. The
/// flow information and the scope of an IPv6 source do not.
pub proof fn law_what_crosses(p: Packet, rest: Seq<u8>)
    requires
        p.data.len() <= usize::MAX,
    ensures
        Packet::read(p.bytes() + rest) matches Some(q) && {
            &&& q.data == p.data
            &&& q.target_port == p.target_port
            &&& match p.source_addr {
                SocketAddr::V4 { ip, port } => q.source_addr == (SocketAddr::V4 { ip, port }),
                SocketAddr::V6 { ip, port, .. } => q.source_addr == (SocketAddr::V6 {
                    ip,
                    port,
                    flowinfo: 0,
                    scope_id: 0,
                }),
            }
        },
{
    law_packet_read_back(p, rest);
}

/// What a packet holds is what its view says.
pub proof fn law_packet_view(p: UdpPacketWrapper)
    ensures
        p@.data == p.data@,
        p@.source_addr == p.source_addr,
        p@.target_port == p.target_port,
{
}

/// What [`UdpPacketWrapper::encode`] writes, [`UdpPacketWrapper::decode`] reads: the same data, the
/// same target port, and the same source but for its flow information and scope.
pub proof fn law_decode_undoes_encode(
    p: UdpPacketWrapper,
    bytes: Vec<u8>,
    slice: &[u8],
    read: Result<UdpPacketWrapper, Malformed>,
)
    requires
        call_ensures(UdpPacketWrapper::encode, (&p,), bytes),
        slice@ == bytes@,
        p.data@.len() <= usize::MAX,
        call_ensures(UdpPacketWrapper::decode, (slice,), read),
    ensures
        read matches Ok(q) && {
            &&& q.data@ == p.data@
            &&& q.target_port == p.target_port
            &&& match p.source_addr {
                SocketAddr::V4 { ip, port } => q.source_addr == p.source_addr,
                SocketAddr::V6 { ip, port, .. } => q.source_addr == (SocketAddr::V6 {
                    ip,
                    port,
                    flowinfo: 0,
                    scope_id: 0,
                }),
            }
        },
{
    law_what_crosses(p@, Seq::empty());
    assert(p@.bytes() + Seq::<u8>::empty() =~= p@.bytes());
}

} // verus!
