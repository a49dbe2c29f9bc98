//! Forwards UDP datagrams over a TCP connection.
//!
//! The crate decides and the program around it does: [`UdpToTcp`] takes what has happened at the
//! sockets and says what to do next, [`Options`] takes the arguments of the program.

pub mod addr;
pub mod bytes_le;
pub mod events;
pub mod forward;
pub mod frame;
pub mod laws;
pub mod options;
pub mod packet;
pub mod runs;
pub mod tables;
pub mod varint;

pub use crate::addr::{port_or_addr, AddrError, IpAddr, Ipv4Addr, Ipv6Addr, SocketAddr};
pub use crate::forward::{Action, Connect, Event, UdpToTcp, Waits};
pub use crate::options::{Missing, Opt, OptError, Options, Settings};
pub use crate::packet::{Malformed, UdpPacketWrapper};
