use vstd::prelude::*;

verus! {

/// What a client asks the proxy to do with the destination.
#[derive(Debug, Clone, Copy, PartialEq, Eq, Structural)]
pub enum Verb {
    Connect,
    Bind,
    UDP,
}

/// A destination host as SOCKS5 carries it: an IPv4 address, a domain
/// name (raw bytes, at most 255 of them), or an IPv6 address.
#[derive(Debug, Clone, PartialEq, Eq)]
pub enum Address {
    Ipv4([u8; 4]),
    Domain(Vec<u8>),
    Ipv6([u8; 16]),
}

/// The mathematical value of an [`Address`].
pub enum AddressModel {
    Ipv4(Seq<u8>),
    Domain(Seq<u8>),
    Ipv6(Seq<u8>),
}

impl View for Address {
    type V = AddressModel;

    open spec fn view(&self) -> AddressModel {
        match self {
            Address::Ipv4(a) => AddressModel::Ipv4(a@),
            Address::Domain(d) => AddressModel::Domain(d@),
            Address::Ipv6(a) => AddressModel::Ipv6(a@),
        }
    }
}

/// A host together with a port.
#[derive(Debug, Clone, PartialEq, Eq)]
pub struct SocketAddr {
    pub addr: Address,
    pub port: u16,
}

/// The mathematical value of a [`SocketAddr`].
pub struct SocketAddrModel {
    pub addr: AddressModel,
    pub port: u16,
}

impl View for SocketAddr {
    type V = SocketAddrModel;

    open spec fn view(&self) -> SocketAddrModel {
        SocketAddrModel { addr: self.addr@, port: self.port }
    }
}

/// Where a relayed connection goes: a `host:port` name to resolve, or a
/// socket address.
#[derive(Debug, Clone, PartialEq, Eq)]
pub enum Destination {
    Domain(String),
    Socket(SocketAddr),
}

/// A verb together with its destination.
#[derive(Debug, Clone)]
pub struct Command {
    pub v: Verb,
    pub dst: Destination,
}

/// The header that opens a stream of the ONE protocol.
#[derive(Debug, Clone)]
pub struct Meta {
    pub cmd: Command,
}

} // verus!
