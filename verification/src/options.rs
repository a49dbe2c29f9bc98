//! The options of the program: which may be given, where their addresses default to, and whether
//! all that is needed was given.

use vstd::prelude::*;

use crate::addr::{
    addr_or_port, port_of, port_or_addr, socket_addr_of, AddrError, Ipv4Addr, SocketAddr,
};

verus! {

/// An option that takes an address.
#[derive(Clone, Copy, Debug, PartialEq, Eq)]
pub enum Opt {
    TcpListen,
    TcpConnect,
    UdpBind,
    UdpSendto,
}

impl Opt {
    /// 0.0.0.0 to listen or to bind, 127.0.0.1 to connect or to send to.
    pub open spec fn spec_default_addr(self) -> Ipv4Addr {
        match self {
            Opt::TcpListen | Opt::UdpBind => Ipv4Addr { octets: [0, 0, 0, 0] },
            Opt::TcpConnect | Opt::UdpSendto => Ipv4Addr { octets: [127, 0, 0, 1] },
        }
    }

    /// The address that goes with a port alone.
    pub fn default_addr(self) -> (ip: Ipv4Addr)
        ensures
            ip == self.spec_default_addr(),
    {
        match self {
            Opt::TcpListen | Opt::UdpBind => Ipv4Addr::unspecified(),
            Opt::TcpConnect | Opt::UdpSendto => Ipv4Addr::localhost(),
        }
    }
}

/// Why an option is refused.
#[derive(Clone, Copy, Debug, PartialEq, Eq)]
pub enum OptError {
    /// it, or one that excludes it, was given before
    Unexpected,
    /// its value gives no address
    Value(AddrError),
}

/// What is needed and was not given.
#[derive(Clone, Copy, Debug, PartialEq, Eq)]
pub enum Missing {
    Tcp,
    UdpBind,
    UdpSendto,
}

impl Missing {
    /// What to tell the user, where the usage of the program is not what to show.
    pub fn message(&self) -> (text: Option<&'static str>)
        ensures
            match *self {
                Missing::Tcp => text is None,
                Missing::UdpBind => text matches Some(t) && t@ == "no udp port given"@,
                Missing::UdpSendto => text matches Some(t) && t@
                    == "no udp forward destination given"@,
            },
    {
        match *self {
            Missing::Tcp => None,
            Missing::UdpBind => Some("no udp port given"),
            Missing::UdpSendto => Some("no udp forward destination given"),
        }
    }
}

/// What the program runs with.
#[derive(Clone, Copy, Debug, PartialEq, Eq)]
pub struct Settings {
    pub listen: bool,
    pub tcp_addr: SocketAddr,
    pub udp_bind: SocketAddr,
    pub udp_sendto: SocketAddr,
}

/// The options that were given so far.
#[derive(Clone, Copy, Debug, PartialEq, Eq)]
pub struct Options {
    pub listen: bool,
    pub tcp_addr: Option<SocketAddr>,
    pub udp_bind: Option<SocketAddr>,
    pub udp_sendto: Option<SocketAddr>,
}

impl Options {
    pub open spec fn spec_admits(self, opt: Opt) -> bool {
        match opt {
            Opt::TcpListen | Opt::TcpConnect => self.tcp_addr is None,
            Opt::UdpBind => self.udp_bind is None,
            Opt::UdpSendto => self.udp_sendto is None,
        }
    }

    /// The options with `opt` given as `addr`.
    pub open spec fn with(self, opt: Opt, addr: SocketAddr) -> Options {
        match opt {
            Opt::TcpListen => Options { listen: true, tcp_addr: Some(addr), ..self },
            Opt::TcpConnect => Options { listen: false, tcp_addr: Some(addr), ..self },
            Opt::UdpBind => Options { udp_bind: Some(addr), ..self },
            Opt::UdpSendto => Options { udp_sendto: Some(addr), ..self },
        }
    }

    /// No options at all.
    pub open spec fn none() -> Options {
        Options { listen: false, tcp_addr: None, udp_bind: None, udp_sendto: None }
    }

    /// No options yet.
    pub fn new() -> (options: Options)
        ensures
            options == Options::none(),
            options == (Options {
                listen: false,
                tcp_addr: None,
                udp_bind: None,
                udp_sendto: None,
            }),
    {
        Options { listen: false, tcp_addr: None, udp_bind: None, udp_sendto: None }
    }

    /// Whether `opt` may be given: each of the two UDP options once, and one of the TCP options.
    pub fn admits(&self, opt: Opt) -> (yes: bool)
        ensures
            yes == self.spec_admits(opt),
    {
        match opt {
            Opt::TcpListen | Opt::TcpConnect => self.tcp_addr.is_none(),
            Opt::UdpBind => self.udp_bind.is_none(),
            Opt::UdpSendto => self.udp_sendto.is_none(),
        }
    }

    /// What comes of an option whose value gives `addr`, and which options were given then. An
    /// option that is refused changes nothing.
    pub open spec fn spec_accept(self, opt: Opt, addr: Result<SocketAddr, AddrError>) -> (
        Options,
        Result<(), OptError>,
    ) {
        if !self.spec_admits(opt) {
            (self, Err(OptError::Unexpected))
        } else {
            match addr {
                Ok(addr) => (self.with(opt, addr), Ok(())),
                Err(e) => (self, Err(OptError::Value(e))),
            }
        }
    }

    /// Takes an option whose value gives `addr`.
    pub fn accept_addr(&mut self, opt: Opt, addr: Result<SocketAddr, AddrError>) -> (taken: Result<
        (),
        OptError,
    >)
        ensures
            (*final(self), taken) == old(self).spec_accept(opt, addr),
    {
        if !self.admits(opt) {
            return Err(OptError::Unexpected);
        }
        let addr = match addr {
            Ok(addr) => addr,
            Err(e) => return Err(OptError::Value(e)),
        };
        match opt {
            Opt::TcpListen => {
                self.listen = true;
                self.tcp_addr = Some(addr);
            },
            Opt::TcpConnect => {
                self.listen = false;
                self.tcp_addr = Some(addr);
            },
            Opt::UdpBind => {
                self.udp_bind = Some(addr);
            },
            Opt::UdpSendto => {
                self.udp_sendto = Some(addr);
            },
        }
        Ok(())
    }

    /// Takes an option with its value: a socket address, or a port at the option's default
    /// address.
    pub fn accept(&mut self, opt: Opt, arg: &str) -> (taken: Result<(), OptError>)
        ensures
            (*final(self), taken) == old(self).spec_accept(
                opt,
                addr_or_port(
                    socket_addr_of(arg@),
                    vstd::utf8::encode_utf8(arg@),
                    opt.spec_default_addr(),
                ),
            ),
    {
        let addr = port_or_addr(arg, opt.default_addr());
        self.accept_addr(opt, addr)
    }

    pub open spec fn spec_finish(self) -> Result<Settings, Missing> {
        match (self.tcp_addr, self.udp_bind, self.udp_sendto) {
            (None, _, _) => Err(Missing::Tcp),
            (Some(_), None, _) => Err(Missing::UdpBind),
            (Some(_), Some(_), None) => Err(Missing::UdpSendto),
            (Some(tcp_addr), Some(udp_bind), Some(udp_sendto)) => Ok(
                Settings { listen: self.listen, tcp_addr, udp_bind, udp_sendto },
            ),
        }
    }

    /// What the program runs with, once all options were given, or the first that is missing.
    pub fn finish(&self) -> (settings: Result<Settings, Missing>)
        ensures
            settings == self.spec_finish(),
            settings == match (self.tcp_addr, self.udp_bind, self.udp_sendto) {
                (None, _, _) => Err::<Settings, Missing>(Missing::Tcp),
                (Some(_), None, _) => Err(Missing::UdpBind),
                (Some(_), Some(_), None) => Err(Missing::UdpSendto),
                (Some(tcp_addr), Some(udp_bind), Some(udp_sendto)) => Ok(
                    Settings { listen: self.listen, tcp_addr, udp_bind, udp_sendto },
                ),
            },
    {
        match (self.tcp_addr, self.udp_bind, self.udp_sendto) {
            (None, _, _) => Err(Missing::Tcp),
            (Some(_), None, _) => Err(Missing::UdpBind),
            (Some(_), Some(_), None) => Err(Missing::UdpSendto),
            (Some(tcp_addr), Some(udp_bind), Some(udp_sendto)) => Ok(
                Settings { listen: self.listen, tcp_addr, udp_bind, udp_sendto },
            ),
        }
    }
}

/// An option is given once: after it was taken, neither it nor one that it excludes is admitted,
/// while the others are admitted as before.
pub proof fn law_options_are_given_once(options: Options, opt: Opt, addr: SocketAddr, other: Opt)
    ensures
        ({
            let tcp = |o: Opt| o is TcpListen || o is TcpConnect;
            if other == opt || tcp(other) && tcp(opt) {
                !options.with(opt, addr).spec_admits(other)
            } else {
                options.with(opt, addr).spec_admits(other) == options.spec_admits(other)
            }
        }),
{
}

/// Whether an option says how to come by the TCP connection.
pub open spec fn is_tcp(opt: Opt) -> bool {
    opt is TcpListen || opt is TcpConnect
}

/// An option changes its own setting and no other: a UDP option its address alone, a TCP option
/// the TCP address and whether to listen.
pub proof fn law_option_changes_its_own_setting(options: Options, opt: Opt, addr: SocketAddr)
    ensures
        options.spec_accept(opt, Ok(addr)).1 is Ok ==> ({
            let next = options.spec_accept(opt, Ok(addr)).0;
            &&& next.tcp_addr == if is_tcp(opt) {
                Some(addr)
            } else {
                options.tcp_addr
            }
            &&& next.listen == if is_tcp(opt) {
                opt is TcpListen
            } else {
                options.listen
            }
            &&& next.udp_bind == if opt is UdpBind {
                Some(addr)
            } else {
                options.udp_bind
            }
            &&& next.udp_sendto == if opt is UdpSendto {
                Some(addr)
            } else {
                options.udp_sendto
            }
        }),
{
}

/// An option is taken exactly where its setting is open and its value gives an address. One that
/// is not taken changes nothing, and is told why: its setting is closed, or else what is wrong
/// with its value.
pub proof fn law_option_is_taken_or_refused(
    options: Options,
    opt: Opt,
    addr: Result<SocketAddr, AddrError>,
)
    ensures
        ({
            let open = match opt {
                Opt::TcpListen => options.tcp_addr is None,
                Opt::TcpConnect => options.tcp_addr is None,
                Opt::UdpBind => options.udp_bind is None,
                Opt::UdpSendto => options.udp_sendto is None,
            };
            let (next, taken) = options.spec_accept(opt, addr);
            &&& options.spec_admits(opt) == open
            &&& taken is Ok <==> open && addr is Ok
            &&& taken is Err ==> next == options
            &&& taken == Err::<(), OptError>(OptError::Unexpected) <==> !open
            &&& open ==> (addr matches Err(e) ==> taken == Err::<(), OptError>(OptError::Value(e)))
        }),
{
}

/// A port alone goes with 0.0.0.0 where the program listens or binds, and with 127.0.0.1 where it
/// connects or sends.
pub proof fn law_port_alone_goes_with_the_default(opt: Opt, text: Seq<u8>, port: u16)
    requires
        port_of(text) == Some(port),
    ensures
        addr_or_port(None, text, opt.spec_default_addr()) matches Ok(SocketAddr::V4 {
            ip,
            port: given,
        }) && given == port && ip.octets@ == if opt is TcpListen || opt is UdpBind {
            seq![0u8, 0, 0, 0]
        } else {
            seq![127u8, 0, 0, 1]
        },
{
    assert([0u8, 0u8, 0u8, 0u8]@ =~= seq![0u8, 0, 0, 0]);
    assert([127u8, 0u8, 0u8, 1u8]@ =~= seq![127u8, 0, 0, 1]);
}

/// The program runs with the addresses that were given, each in its own place, and listens if it
/// was told to; what is missing is told in the order TCP, bind, send to.
pub proof fn law_settings_are_the_options(options: Options)
    ensures
        match options.spec_finish() {
            Ok(settings) => {
                &&& options.tcp_addr == Some(settings.tcp_addr)
                &&& options.udp_bind == Some(settings.udp_bind)
                &&& options.udp_sendto == Some(settings.udp_sendto)
                &&& options.listen == settings.listen
            },
            Err(Missing::Tcp) => options.tcp_addr is None,
            Err(Missing::UdpBind) => options.tcp_addr is Some && options.udp_bind is None,
            Err(Missing::UdpSendto) => options.tcp_addr is Some && options.udp_bind is Some
                && options.udp_sendto is None,
        },
{
}

/// The options after all of `given` were taken, one after the other.
pub open spec fn all_given(given: Seq<(Opt, SocketAddr)>) -> Options
    decreases given.len(),
{
    if given.len() == 0 {
        Options::none()
    } else {
        all_given(given.drop_last()).spec_accept(given.last().0, Ok(given.last().1)).0
    }
}

/// Whether each of `given` was taken when its turn came.
pub open spec fn all_taken(given: Seq<(Opt, SocketAddr)>) -> bool
    decreases given.len(),
{
    given.len() > 0 ==> all_taken(given.drop_last()) && all_given(given.drop_last()).spec_accept(
        given.last().0,
        Ok(given.last().1),
    ).1 is Ok
}

/// In whatever order options are given, each ends up in its setting: the program listens exactly
/// where the TCP option was the one to listen, and a setting that no option was given for stays
/// open.
pub proof fn law_settings_are_what_was_given(given: Seq<(Opt, SocketAddr)>)
    requires
        all_taken(given),
    ensures
        forall|i: int|
            0 <= i < given.len() ==> match (#[trigger] given[i]).0 {
                Opt::TcpListen => all_given(given).listen && all_given(given).tcp_addr == Some(
                    given[i].1,
                ),
                Opt::TcpConnect => !all_given(given).listen && all_given(given).tcp_addr == Some(
                    given[i].1,
                ),
                Opt::UdpBind => all_given(given).udp_bind == Some(given[i].1),
                Opt::UdpSendto => all_given(given).udp_sendto == Some(given[i].1),
            },
        all_given(given).tcp_addr is Some <==> exists|i: int|
            0 <= i < given.len() && is_tcp((#[trigger] given[i]).0),
        all_given(given).udp_bind is Some <==> exists|i: int|
            0 <= i < given.len() && (#[trigger] given[i]).0 is UdpBind,
        all_given(given).udp_sendto is Some <==> exists|i: int|
            0 <= i < given.len() && (#[trigger] given[i]).0 is UdpSendto,
        all_given(given).spec_finish() matches Ok(settings) ==> (settings.listen <==> exists|i: int|
            0 <= i < given.len() && (#[trigger] given[i]).0 is TcpListen),
    decreases given.len(),
{
    let options = all_given(given);
    if given.len() > 0 {
        let front = given.drop_last();
        let before = all_given(front);
        law_settings_are_what_was_given(front);
        assert forall|i: int| 0 <= i < given.len() implies match (#[trigger] given[i]).0 {
            Opt::TcpListen => options.listen && options.tcp_addr == Some(given[i].1),
            Opt::TcpConnect => !options.listen && options.tcp_addr == Some(given[i].1),
            Opt::UdpBind => options.udp_bind == Some(given[i].1),
            Opt::UdpSendto => options.udp_sendto == Some(given[i].1),
        } by {
            if i < front.len() {
                assert(front[i] == given[i]);
            }
        }
        let last = given[given.len() - 1];
        assert(last == given.last());
        if before.tcp_addr is Some {
            let i = choose|i: int| 0 <= i < front.len() && is_tcp((#[trigger] front[i]).0);
            assert(given[i] == front[i]);
        }
        if before.udp_bind is Some {
            let i = choose|i: int| 0 <= i < front.len() && (#[trigger] front[i]).0 is UdpBind;
            assert(given[i] == front[i]);
        }
        if before.udp_sendto is Some {
            let i = choose|i: int| 0 <= i < front.len() && (#[trigger] front[i]).0 is UdpSendto;
            assert(given[i] == front[i]);
        }
        if options.tcp_addr is Some {
            assert(exists|i: int| 0 <= i < given.len() && is_tcp((#[trigger] given[i]).0));
            let i = choose|i: int| 0 <= i < given.len() && is_tcp((#[trigger] given[i]).0);
            assert(options.listen == (given[i].0 is TcpListen));
        }
    }
}

/// What [`Options::finish`] gives is made of what was given: with a TCP option, an address to bind
/// and one to send to, it is settings with these; without one of them it is an error.
pub proof fn law_finish_gives_what_was_given(
    options: Options,
    settings: Result<Settings, Missing>,
)
    requires
        call_ensures(Options::finish, (&options,), settings),
    ensures
        settings is Ok <==> options.tcp_addr is Some && options.udp_bind is Some
            && options.udp_sendto is Some,
        settings matches Ok(s) ==> s.listen == options.listen && Some(s.tcp_addr)
            == options.tcp_addr && Some(s.udp_bind) == options.udp_bind && Some(s.udp_sendto)
            == options.udp_sendto,
{
}

/// What [`Options::accept`] does with a text: an option whose setting is open takes the address
/// that the text reads as, or else the port that it spells at the default address of the option;
/// its own setting holds that address then, and no other setting has changed. In any other case
/// nothing has changed.
pub proof fn law_accept_takes_what_the_text_gives(opt: Opt, arg: &str)
    ensures
        forall|options: &mut Options, taken: Result<(), OptError>|
            #[trigger] call_ensures(Options::accept, (options, opt, arg), taken) ==> {
                let was = *options;
                let is = *final(options);
                let addr = match (
                    socket_addr_of(arg@),
                    port_of(vstd::utf8::encode_utf8(arg@)),
                ) {
                    (Some(given), _) => Some(given),
                    (None, Some(port)) => Some(
                        SocketAddr::V4 { ip: opt.spec_default_addr(), port },
                    ),
                    (None, None) => None,
                };
                let open = match opt {
                    Opt::TcpListen => was.tcp_addr is None,
                    Opt::TcpConnect => was.tcp_addr is None,
                    Opt::UdpBind => was.udp_bind is None,
                    Opt::UdpSendto => was.udp_sendto is None,
                };
                &&& taken is Ok <==> open && addr is Some
                &&& taken is Err ==> is == was
                &&& taken is Ok ==> {
                    &&& is.tcp_addr == if is_tcp(opt) { addr } else { was.tcp_addr }
                    &&& is.listen == if is_tcp(opt) { opt is TcpListen } else { was.listen }
                    &&& is.udp_bind == if opt is UdpBind { addr } else { was.udp_bind }
                    &&& is.udp_sendto == if opt is UdpSendto { addr } else { was.udp_sendto }
                }
            },
{
}

} // verus!
