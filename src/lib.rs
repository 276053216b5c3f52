//! A user-space IPv6-to-IPv4 tunnel: packet codecs, a minimal TCP responder
//! and the relay protocol, with the decisions of both dispatchers, under
//! contracts.

pub mod bytes;
pub mod checksum;
pub mod ip;
pub mod icmp;
pub mod udp;
pub mod tcp_options;
pub mod tcp_header;
pub mod tcp_connection;
pub mod stupid;
pub mod client;
pub mod server;
pub mod ifreq;

pub use checksum::Checksum;
pub use client::{ClientState, Output};
pub use icmp::{ICMPv6Header, RawHeaderError};
pub use ifreq::{IfReq, NewIfReqError};
pub use ip::{IPv6Header, Ipv4Endpoint, Ipv6Endpoint};
pub use server::{ServerAction, ServerState};
pub use stupid::{InvalidType, StupidDataHeader, StupidType};
pub use tcp_connection::{Response, Tcp6Connection, accept_ipv6};
pub use tcp_header::{Flags, TcpHeader};
pub use tcp_options::{OptionData, Options, OptionsIter, SACK};
pub use udp::UDPHeader;
