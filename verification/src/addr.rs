//! Internet addresses, and the reading of an address from a command-line argument.

use vstd::prelude::*;

use crate::bytes_le::{le_range, le_value, u32_from_le};

verus! {

/// An IPv4 address.
#[derive(Clone, Copy, Debug, PartialEq, Eq)]
pub struct Ipv4Addr {
    pub octets: [u8; 4],
}

/// An IPv6 address.
#[derive(Clone, Copy, Debug, PartialEq, Eq)]
pub struct Ipv6Addr {
    pub octets: [u8; 16],
}

/// An IP address of either family.
#[derive(Clone, Copy, Debug, PartialEq, Eq)]
pub enum IpAddr {
    V4(Ipv4Addr),
    V6(Ipv6Addr),
}

/// An IP address with a port.
#[derive(Clone, Copy, Debug, PartialEq, Eq)]
#[allow(inconsistent_fields)]
pub enum SocketAddr {
    V4 { ip: Ipv4Addr, port: u16 },
    V6 { ip: Ipv6Addr, port: u16, flowinfo: u32, scope_id: u32 },
}

/// An address as integers alone: whether it is IPv6, the address read as a number, the port, and
/// the flow information and scope of an IPv6 address.
pub type AddrKey = (bool, u128, u16, u32, u32);

impl Ipv4Addr {
    /// 0.0.0.0.
    pub fn unspecified() -> (ip: Ipv4Addr)
        ensures
            ip == (Ipv4Addr { octets: [0, 0, 0, 0] }),
    {
        Ipv4Addr { octets: [0, 0, 0, 0] }
    }

    /// 127.0.0.1.
    pub fn localhost() -> (ip: Ipv4Addr)
        ensures
            ip == (Ipv4Addr { octets: [127, 0, 0, 1] }),
    {
        Ipv4Addr { octets: [127, 0, 0, 1] }
    }
}

impl SocketAddr {
    pub open spec fn spec_new(ip: IpAddr, port: u16) -> SocketAddr {
        match ip {
            IpAddr::V4(ip) => SocketAddr::V4 { ip, port },
            IpAddr::V6(ip) => SocketAddr::V6 { ip, port, flowinfo: 0, scope_id: 0 },
        }
    }

    pub open spec fn spec_ip(self) -> IpAddr {
        match self {
            SocketAddr::V4 { ip, .. } => IpAddr::V4(ip),
            SocketAddr::V6 { ip, .. } => IpAddr::V6(ip),
        }
    }

    pub open spec fn spec_port(self) -> u16 {
        match self {
            SocketAddr::V4 { port, .. } => port,
            SocketAddr::V6 { port, .. } => port,
        }
    }

    pub open spec fn spec_key(self) -> AddrKey {
        match self {
            SocketAddr::V4 { ip, port } => (false, le_value(ip.octets@) as u128, port, 0, 0),
            SocketAddr::V6 { ip, port, flowinfo, scope_id } => (
                true,
                le_value(ip.octets@) as u128,
                port,
                flowinfo,
                scope_id,
            ),
        }
    }

    /// The address `ip` with `port`, with no flow information or scope.
    pub fn new(ip: IpAddr, port: u16) -> (addr: SocketAddr)
        ensures
            addr == Self::spec_new(ip, port),
    {
        match ip {
            IpAddr::V4(ip) => SocketAddr::V4 { ip, port },
            IpAddr::V6(ip) => SocketAddr::V6 { ip, port, flowinfo: 0, scope_id: 0 },
        }
    }

    /// The IP address.
    pub fn ip(&self) -> (ip: IpAddr)
        ensures
            ip == self.spec_ip(),
    {
        match *self {
            SocketAddr::V4 { ip, .. } => IpAddr::V4(ip),
            SocketAddr::V6 { ip, .. } => IpAddr::V6(ip),
        }
    }

    /// The port.
    pub fn port(&self) -> (port: u16)
        ensures
            port == self.spec_port(),
    {
        match *self {
            SocketAddr::V4 { port, .. } => port,
            SocketAddr::V6 { port, .. } => port,
        }
    }

    /// The address as a tuple of integers.
    pub fn key(&self) -> (key: AddrKey)
        ensures
            key == self.spec_key(),
    {
        match *self {
            SocketAddr::V4 { ip, port } => {
                let number: u32 = u32_from_le(ip.octets.as_slice(), 0);
                assert(ip.octets@.subrange(0, 4) =~= ip.octets@);
                (false, number as u128, port, 0, 0)
            },
            SocketAddr::V6 { ip, port, flowinfo, scope_id } => {
                let number: u128 = octets_number(&ip.octets);
                (true, number, port, flowinfo, scope_id)
            },
        }
    }
}

proof fn lemma_sixteen_octets()
    ensures
        le_range(16) == u128::MAX + 1,
{
    reveal_with_fuel(le_range, 17);
}

/// The number that sixteen octets spell, least significant octet first.
fn octets_number(octets: &[u8; 16]) -> (number: u128)
    ensures
        number == le_value(octets@),
{
    let mut number: u128 = 0;
    let mut i: usize = 16;
    assert(octets@.skip(16) =~= Seq::<u8>::empty());
    while i > 0
        invariant
            i <= 16,
            number == le_value(octets@.skip(i as int)),
        decreases i,
    {
        i = i - 1;
        proof {
            let tail = octets@.skip(i as int);
            assert(tail.drop_first() =~= octets@.skip(i + 1));
            crate::bytes_le::law_le_written_back(tail);
            lemma_le_range_grows((16 - i) as nat, 16);
            lemma_sixteen_octets();
        }
        number = octets[i] as u128 + 256 * number;
    }
    assert(octets@.skip(0) =~= octets@);
    number
}

proof fn lemma_le_range_grows(m: nat, n: nat)
    requires
        m <= n,
    ensures
        1 <= le_range(m) <= le_range(n),
    decreases n,
{
    if m < n {
        lemma_le_range_grows(m, (n - 1) as nat);
    } else if m > 0 {
        lemma_le_range_grows((m - 1) as nat, (n - 1) as nat);
    }
}

/// Two addresses with the same key are the same address.
pub proof fn law_key_tells_addresses_apart(a: SocketAddr, b: SocketAddr)
    ensures
        a.spec_key() == b.spec_key() <==> a == b,
{
    if a.spec_key() == b.spec_key() {
        lemma_sixteen_octets();
        crate::bytes_le::lemma_le_ranges();
        match (a, b) {
            (SocketAddr::V4 { ip: x, .. }, SocketAddr::V4 { ip: y, .. }) => {
                crate::bytes_le::law_le_written_back(x.octets@);
                crate::bytes_le::law_le_written_back(y.octets@);
                assert(x.octets =~= y.octets);
            },
            (SocketAddr::V6 { ip: x, .. }, SocketAddr::V6 { ip: y, .. }) => {
                crate::bytes_le::law_le_written_back(x.octets@);
                crate::bytes_le::law_le_written_back(y.octets@);
                assert(x.octets =~= y.octets);
            },
            _ => {},
        }
    }
}

/// Why an argument gives no address.
#[derive(Clone, Copy, Debug, PartialEq, Eq)]
pub enum AddrError {
    NotAddrOrPort,
}

impl AddrError {
    /// What to tell the user.
    pub fn message(&self) -> (text: &'static str)
        ensures
            text@ == "provided value is not an address or a port number"@,
    {
        "provided value is not an address or a port number"
    }
}

pub open spec fn is_digit(b: u8) -> bool {
    0x30 <= b <= 0x39
}

/// The number that decimal digits spell, most significant first.
pub open spec fn decimal(digits: Seq<u8>) -> int
    decreases digits.len(),
{
    if digits.len() == 0 {
        0
    } else {
        10 * decimal(digits.drop_last()) + (digits.last() - 0x30)
    }
}

/// The digits of a number that may carry a plus sign.
pub open spec fn unsigned_digits(text: Seq<u8>) -> Seq<u8> {
    if text.len() > 0 && text[0] == 0x2b {
        text.drop_first()
    } else {
        text
    }
}

/// The port that `text` spells in decimal, if it spells one.
pub open spec fn port_of(text: Seq<u8>) -> Option<u16> {
    let digits = unsigned_digits(text);
    if digits.len() > 0 && (forall|i: int| 0 <= i < digits.len() ==> is_digit(#[trigger] digits[i]))
        && decimal(digits) <= u16::MAX {
        Some(decimal(digits) as u16)
    } else {
        None
    }
}

/// The port that `text` spells in decimal: an optional plus sign, then digits alone, of a value
/// that a port can have.
pub fn parse_port(text: &[u8]) -> (port: Option<u16>)
    ensures
        port == port_of(text@),
{
    let start: usize = if text.len() > 0 && text[0] == 0x2b { 1 } else { 0 };
    let ghost digits = unsigned_digits(text@);
    assert(digits =~= text@.skip(start as int));
    if start == text.len() {
        return None;
    }
    // The value so far, held at 65536 once it is too large for a port.
    let mut value: u32 = 0;
    let mut i: usize = start;
    assert(digits.take(0) =~= Seq::<u8>::empty());
    while i < text.len()
        invariant
            start <= i <= text@.len(),
            digits == unsigned_digits(text@),
            digits == text@.skip(start as int),
            forall|j: int| 0 <= j < i - start ==> is_digit(#[trigger] digits[j]),
            0 <= decimal(digits.take(i - start)),
            value == if decimal(digits.take(i - start)) <= u16::MAX {
                decimal(digits.take(i - start))
            } else {
                0x1_0000
            },
        decreases text@.len() - i,
    {
        let b: u8 = text[i];
        assert(digits[i - start] == b);
        if b < 0x30 || b > 0x39 {
            return None;
        }
        proof {
            assert(digits.take(i + 1 - start).drop_last() =~= digits.take(i - start));
        }
        let next: u32 = 10 * value + (b - 0x30) as u32;
        value = if next <= 0xffff { next } else { 0x1_0000 };
        i = i + 1;
    }
    assert(digits.take(i - start) =~= digits);
    if value <= 0xffff { Some(value as u16) } else { None }
}

/// The socket address that `text` reads as, if it reads as one.
pub uninterp spec fn socket_addr_of(text: Seq<char>) -> Option<SocketAddr>;

/// Calls `str::parse` for a `core::net::SocketAddr`, which reads an IPv4 address and a port, or an
/// IPv6 address in brackets and a port. What it returns depends on the text alone.
#[verifier::external_body]
fn parse_socket_addr(text: &str) -> (addr: Option<SocketAddr>)
    ensures
        addr == socket_addr_of(text@),
{
    match text.parse::<core::net::SocketAddr>() {
        Ok(core::net::SocketAddr::V4(v4)) => Some(
            SocketAddr::V4 { ip: Ipv4Addr { octets: v4.ip().octets() }, port: v4.port() },
        ),
        Ok(core::net::SocketAddr::V6(v6)) => Some(
            SocketAddr::V6 {
                ip: Ipv6Addr { octets: v6.ip().octets() },
                port: v6.port(),
                flowinfo: v6.flowinfo(),
                scope_id: v6.scope_id(),
            },
        ),
        Err(_) => None,
    }
}

/// The address `as_addr` where there is one, and otherwise the port that `text` spells, at
/// `default_addr`.
pub open spec fn addr_or_port(
    as_addr: Option<SocketAddr>,
    text: Seq<u8>,
    default_addr: Ipv4Addr,
) -> Result<SocketAddr, AddrError> {
    match (as_addr, port_of(text)) {
        (Some(given), _) => Ok(given),
        (None, Some(port)) => Ok(SocketAddr::V4 { ip: default_addr, port }),
        (None, None) => Err(AddrError::NotAddrOrPort),
    }
}

/// The address that an argument gives, where it is known which socket address it reads as, if any.
pub fn port_or_given_addr(
    arg: &[u8],
    as_addr: Option<SocketAddr>,
    default_addr: Ipv4Addr,
) -> (addr: Result<SocketAddr, AddrError>)
    ensures
        addr == addr_or_port(as_addr, arg@, default_addr),
{
    match as_addr {
        Some(given) => Ok(given),
        None => match parse_port(arg) {
            Some(port) => Ok(SocketAddr::new(IpAddr::V4(default_addr), port)),
            None => Err(AddrError::NotAddrOrPort),
        },
    }
}

/// The address that an argument gives: the socket address that it reads as, or else the port that
/// it spells, at `default_addr`.
pub fn port_or_addr(arg: &str, default_addr: Ipv4Addr) -> (addr: Result<SocketAddr, AddrError>)
    ensures
        addr == addr_or_port(
            socket_addr_of(arg@),
            vstd::utf8::encode_utf8(arg@),
            default_addr,
        ),
{
    port_or_given_addr(arg.as_bytes(), parse_socket_addr(arg), default_addr)
}

/// An address is made of its IP address and its port, and has no flow information or scope unless
/// it was given some.
pub proof fn law_address_has_its_parts(ip: IpAddr, port: u16)
    ensures
        SocketAddr::spec_new(ip, port).spec_ip() == ip,
        SocketAddr::spec_new(ip, port).spec_port() == port,
        SocketAddr::spec_new(ip, port) matches SocketAddr::V6 { flowinfo, scope_id, .. } ==> flowinfo
            == 0 && scope_id == 0,
        forall|v4: Ipv4Addr| (SocketAddr::V4 { ip: v4, port }).spec_ip() == IpAddr::V4(v4),
        forall|v4: Ipv4Addr| (SocketAddr::V4 { ip: v4, port }).spec_port() == port,
        forall|v6: Ipv6Addr, flowinfo: u32, scope_id: u32|
            (SocketAddr::V6 { ip: v6, port, flowinfo, scope_id }).spec_ip() == IpAddr::V6(v6),
        forall|v6: Ipv6Addr, flowinfo: u32, scope_id: u32|
            (SocketAddr::V6 { ip: v6, port, flowinfo, scope_id }).spec_port() == port,
{
}

/// A lone byte spells a port if it is a digit; no text at all spells none.
pub proof fn law_port_of_one_digit(b: u8)
    ensures
        port_of(Seq::empty()) is None,
        port_of(seq![b]) == if 0x30 <= b <= 0x39 {
            Some((b - 0x30) as u16)
        } else {
            None
        },
{
    let text = seq![b];
    assert(text.drop_last() =~= Seq::<u8>::empty());
    if 0x30 <= b <= 0x39 {
        assert(decimal(text) == 10 * decimal(text.drop_last()) + (b - 0x30));
    } else if b == 0x2b {
        assert(unsigned_digits(text).len() == 0);
    } else {
        assert(!is_digit(unsigned_digits(text)[0]));
    }
}

/// One more digit counts ones, and what stands before it ten times as much; a text that spells no
/// port, or that is followed by what is no digit, spells none from there on.
pub proof fn law_port_of_one_digit_more(text: Seq<u8>, b: u8)
    requires
        text.len() > 0,
        text != seq![0x2bu8],
    ensures
        port_of(text.push(b)) == match port_of(text) {
            Some(port) if 0x30 <= b <= 0x39 && 10 * port + (b - 0x30) <= 65535 => Some(
                (10 * port + (b - 0x30)) as u16,
            ),
            _ => None,
        },
{
    let digits = unsigned_digits(text);
    let more = unsigned_digits(text.push(b));
    assert(text.push(b)[0] == text[0]);
    assert(digits.len() > 0) by {
        if text.len() == 1 && text[0] == 0x2b {
            assert(text =~= seq![0x2bu8]);
        }
    }
    assert(more =~= digits.push(b));
    assert(more.drop_last() =~= digits);
    assert(more.last() == b);
    if port_of(text.push(b)) is Some {
        assert forall|i: int| 0 <= i < digits.len() implies is_digit(#[trigger] digits[i]) by {
            assert(is_digit(more[i]));
        }
        assert(is_digit(more[more.len() - 1]));
        lemma_decimal_is_natural(digits);
    }
    if port_of(text) is Some && 0x30 <= b <= 0x39 {
        assert forall|i: int| 0 <= i < more.len() implies is_digit(#[trigger] more[i]) by {
            if i < digits.len() {
                assert(is_digit(digits[i]));
            }
        }
        lemma_decimal_is_natural(digits);
    }
}

proof fn lemma_decimal_is_natural(digits: Seq<u8>)
    requires
        forall|i: int| 0 <= i < digits.len() ==> is_digit(#[trigger] digits[i]),
    ensures
        decimal(digits) >= 0,
    decreases digits.len(),
{
    if digits.len() > 0 {
        let front = digits.drop_last();
        assert forall|i: int| 0 <= i < front.len() implies is_digit(#[trigger] front[i]) by {
            assert(is_digit(digits[i]));
        }
        lemma_decimal_is_natural(front);
        assert(is_digit(digits[digits.len() - 1]));
    }
}

/// A plus sign in front makes no difference, but there can be only one.
pub proof fn law_port_behind_a_plus_sign(text: Seq<u8>)
    ensures
        port_of(seq![0x2bu8] + text) == if text.len() > 0 && text[0] == 0x2b {
            None
        } else {
            port_of(text)
        },
{
    let signed = seq![0x2bu8] + text;
    assert(unsigned_digits(signed) =~= text);
    if text.len() > 0 && text[0] == 0x2b {
        assert(!is_digit(unsigned_digits(signed)[0]));
    }
}

/// A text that reads as an address gives that address, whatever the default; any other gives the
/// port that it spells, at the default, or nothing.
pub proof fn law_address_comes_before_port(
    as_addr: Option<SocketAddr>,
    text: Seq<u8>,
    default_addr: Ipv4Addr,
)
    ensures
        as_addr matches Some(given) ==> addr_or_port(as_addr, text, default_addr) == Ok::<
            SocketAddr,
            AddrError,
        >(given),
        as_addr is None ==> match addr_or_port(as_addr, text, default_addr) {
            Ok(SocketAddr::V4 { ip, port }) => ip == default_addr && port_of(text) == Some(port),
            Ok(SocketAddr::V6 { .. }) => false,
            Err(_) => port_of(text) is None,
        },
{
}

/// What [`port_or_addr`] gives for a text: the address that it reads as, or else the port that it
/// spells, at the default address, or else an error.
pub proof fn law_port_or_addr_goes_by_the_text(
    arg: &str,
    default_addr: Ipv4Addr,
    addr: Result<SocketAddr, AddrError>,
)
    requires
        call_ensures(port_or_addr, (arg, default_addr), addr),
    ensures
        socket_addr_of(arg@) matches Some(given) ==> addr == Ok::<SocketAddr, AddrError>(given),
        socket_addr_of(arg@) is None ==> match port_of(vstd::utf8::encode_utf8(arg@)) {
            Some(port) => addr == Ok::<SocketAddr, AddrError>(
                SocketAddr::V4 { ip: default_addr, port },
            ),
            None => addr is Err,
        },
{
}

} // verus!
