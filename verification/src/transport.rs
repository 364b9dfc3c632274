//! Where a server can be reached.

use vstd::prelude::*;

use crate::digits::{encode_hex, hex_text, hex_value};
use crate::table::TableKey;
use crate::text::{
    is_blank, is_white_space, joined3, lemma_trimmed_between, lemma_trimmed_plain, trim, trimmed,
};

verus! {

/// The port of a server where none is given.
pub const DEFAULT_PORT: u16 = 12398;

/// An IP address, as a number.
#[derive(Debug, Clone, Copy, PartialEq, Eq, Structural)]
pub enum IpAddress {
    V4(u32),
    V6(u128),
}

/// An IP address, as a number, with a port.
#[derive(Debug, Clone, Copy, PartialEq, Eq, Structural)]
pub enum SocketAddress {
    V4 { ip: u32, port: u16 },
    V6 { ip: u128, port: u16, flowinfo: u32, scope_id: u32 },
}

impl View for SocketAddress {
    type V = SocketAddress;

    open spec fn view(&self) -> SocketAddress {
        *self
    }
}

impl TableKey for SocketAddress {
    fn same_key(&self, other: &Self) -> (r: bool) {
        *self == *other
    }
}

/// The address with the given port, outside any flow or scope.
pub open spec fn at_port(ip: IpAddress, port: u16) -> SocketAddress {
    match ip {
        IpAddress::V4(ip) => SocketAddress::V4 { ip, port },
        IpAddress::V6(ip) => SocketAddress::V6 { ip, port, flowinfo: 0, scope_id: 0 },
    }
}

impl SocketAddress {
    /// The address with the given port, outside any flow or scope.
    pub fn new(ip: IpAddress, port: u16) -> (r: Self)
        ensures
            r == at_port(ip, port),
    {
        match ip {
            IpAddress::V4(ip) => SocketAddress::V4 { ip, port },
            IpAddress::V6(ip) => SocketAddress::V6 { ip, port, flowinfo: 0, scope_id: 0 },
        }
    }
}

/// Represents either a Direct IP socket address or an Iroh Node ID (the bytes of its public key).
#[derive(Debug, Clone, Copy, PartialEq, Eq)]
pub enum TargetAddress {
    Ip(SocketAddress),
    Iroh([u8; 32]),
}

/// What a [`TargetAddress`] holds.
pub enum TargetView {
    Ip(SocketAddress),
    Iroh(Seq<u8>),
}

impl View for TargetAddress {
    type V = TargetView;

    open spec fn view(&self) -> TargetView {
        match *self {
            TargetAddress::Ip(addr) => TargetView::Ip(addr),
            TargetAddress::Iroh(node) => TargetView::Iroh(node@),
        }
    }
}

/// The text is neither an address nor a Node ID. Holds the text without surrounding white space.
#[derive(Debug, PartialEq, Eq)]
pub struct InvalidTarget(pub String);

impl InvalidTarget {
    /// The text for the user.
    pub open spec fn text(&self) -> Seq<char> {
        "Invalid target address '"@ + self.0@
            + "'. Must be either a valid IP address (e.g., 192.168.1.50:12398) or a valid iroh Node ID."@
    }

    /// The text for the user.
    pub fn message(&self) -> (r: String)
        ensures
            r@ == self.text(),
    {
        joined3(
            "Invalid target address '",
            &self.0,
            "'. Must be either a valid IP address (e.g., 192.168.1.50:12398) or a valid iroh Node ID.",
        )
    }
}

/// The socket address that the standard library reads from a text.
pub uninterp spec fn socket_of(s: Seq<char>) -> Option<SocketAddress>;

/// The IP address that the standard library reads from a text.
pub uninterp spec fn ip_of(s: Seq<char>) -> Option<IpAddress>;

/// The bytes of the public key that `iroh` reads from a text.
pub uninterp spec fn node_of(s: Seq<char>) -> Option<Seq<u8>>;

/// `str::parse::<SocketAddr>`: the result is a function of the text alone. An address is written
/// with a colon before its port.
#[verifier::external_body]
fn parse_socket(s: &str) -> (r: Option<SocketAddress>)
    ensures
        r == socket_of(s@),
        r is Some ==> s@.contains(':'),
{
    match s.parse::<core::net::SocketAddr>() {
        Ok(core::net::SocketAddr::V4(a)) => Some(
            SocketAddress::V4 { ip: u32::from(*a.ip()), port: a.port() },
        ),
        Ok(core::net::SocketAddr::V6(a)) => Some(
            SocketAddress::V6 {
                ip: u128::from(*a.ip()),
                port: a.port(),
                flowinfo: a.flowinfo(),
                scope_id: a.scope_id(),
            },
        ),
        Err(_) => None,
    }
}

/// `str::parse::<IpAddr>`: the result is a function of the text alone. The parts of an address
/// are divided by dots or colons.
#[verifier::external_body]
fn parse_ip(s: &str) -> (r: Option<IpAddress>)
    ensures
        r == ip_of(s@),
        r is Some ==> s@.contains('.') || s@.contains(':'),
{
    match s.parse::<core::net::IpAddr>() {
        Ok(core::net::IpAddr::V4(a)) => Some(IpAddress::V4(u32::from(a))),
        Ok(core::net::IpAddr::V6(a)) => Some(IpAddress::V6(u128::from(a))),
        Err(_) => None,
    }
}

/// `iroh::PublicKey::from_str`: the result is a function of the text alone. The 64 lower-case
/// hexadecimal digits of a key that was read are read as that key.
#[verifier::external_body]
fn parse_node(s: &str) -> (r: Option<[u8; 32]>)
    ensures
        match r {
            Some(node) => node_of(s@) == Some(node@) && node_of(hex_text(node@)) == Some(node@),
            None => node_of(s@) is None,
        },
{
    match s.parse::<iroh::PublicKey>() {
        Ok(node) => Some(*node.as_bytes()),
        Err(_) => None,
    }
}

/// The text in which the standard library writes a socket address.
pub uninterp spec fn address_text(addr: SocketAddress) -> Seq<char>;

/// The address is in no flow and no scope.
pub open spec fn is_bare(addr: SocketAddress) -> bool {
    match addr {
        SocketAddress::V4 { .. } => true,
        SocketAddress::V6 { flowinfo, scope_id, .. } => flowinfo == 0 && scope_id == 0,
    }
}

/// `to_string` on a `SocketAddr`: the result is a function of the address alone. It has no white
/// space, and where the address is in no flow and no scope, parsing it gives the address back.
#[verifier::external_body]
fn write_address(addr: SocketAddress) -> (r: String)
    ensures
        r@ == address_text(addr),
        forall|i: int| 0 <= i < r@.len() ==> !is_white_space(#[trigger] r@[i]),
        is_bare(addr) ==> socket_of(r@) == Some(addr),
{
    match addr {
        SocketAddress::V4 { ip, port } => {
            core::net::SocketAddrV4::new(core::net::Ipv4Addr::from(ip), port).to_string()
        },
        SocketAddress::V6 { ip, port, flowinfo, scope_id } => core::net::SocketAddrV6::new(
            core::net::Ipv6Addr::from(ip),
            port,
            flowinfo,
            scope_id,
        ).to_string(),
    }
}

/// The target that is meant when a text reads as the given socket address, IP address and Node
/// ID: the first of them that there is, an IP address with the default port.
pub open spec fn first_reading(
    socket: Option<SocketAddress>,
    ip: Option<IpAddress>,
    node: Option<Seq<u8>>,
) -> Option<TargetView> {
    match socket {
        Some(addr) => Some(TargetView::Ip(addr)),
        None => match ip {
            Some(ip) => Some(TargetView::Ip(at_port(ip, DEFAULT_PORT))),
            None => match node {
                Some(node) => Some(TargetView::Iroh(node)),
                None => None,
            },
        },
    }
}

/// The target that a text means, without regard to surrounding white space.
pub open spec fn target_of(s: Seq<char>) -> Option<TargetView> {
    let t = trimmed(s);
    first_reading(socket_of(t), ip_of(t), node_of(t))
}

/// A text without dots and colons is never taken for an address.
pub open spec fn reads_plainly(s: Seq<char>) -> bool {
    !trimmed(s).contains('.') && !trimmed(s).contains(':') ==> target_of(s) == first_reading(
        None,
        None,
        node_of(trimmed(s)),
    )
}

/// `r` is what reading a target from `s` gives. The digits of a Node ID that was read are a
/// Node ID.
pub open spec fn reads_target(s: Seq<char>, r: Result<TargetAddress, InvalidTarget>) -> bool {
    &&& match r {
        Ok(t) => target_of(s) == Some(t@),
        Err(e) => target_of(s) is None && e.0@ == trimmed(s),
    }
    &&& reads_plainly(s)
    &&& r matches Ok(TargetAddress::Iroh(node)) ==> node_of(hex_text(node@)) == Some(node@)
}

impl TargetAddress {
    /// Returns a human-readable display of the target.
    pub fn display_type(&self) -> (r: &'static str)
        ensures
            r@ == match *self {
                TargetAddress::Ip(_) => "Direct IP"@,
                TargetAddress::Iroh(_) => "Iroh P2P"@,
            },
    {
        match self {
            TargetAddress::Ip(_) => "Direct IP",
            TargetAddress::Iroh(_) => "Iroh P2P",
        }
    }

    /// The target that is meant when a text reads as the given socket address, IP address and
    /// Node ID.
    pub fn from_readings(
        socket: Option<SocketAddress>,
        ip: Option<IpAddress>,
        node: Option<[u8; 32]>,
    ) -> (r: Option<TargetAddress>)
        ensures
            match r {
                Some(t) => Some(t@),
                None => None,
            } == first_reading(
                socket,
                ip,
                match node {
                    Some(n) => Some(n@),
                    None => None,
                },
            ),
    {
        match socket {
            Some(addr) => Some(TargetAddress::Ip(addr)),
            None => match ip {
                Some(ip) => Some(TargetAddress::Ip(SocketAddress::new(ip, DEFAULT_PORT))),
                None => match node {
                    Some(node) => Some(TargetAddress::Iroh(node)),
                    None => None,
                },
            },
        }
    }

    /// Reads a target: a socket address, an IP address (with the default port) or a Node ID. A
    /// text without dots and colons is never taken for an address. The digits of a Node ID that
    /// was read are a target text for the same Node ID.
    pub fn from_str(s: &str) -> (r: Result<TargetAddress, InvalidTarget>)
        ensures
            reads_target(s@, r),
    {
        let t = trim(s);
        let socket = parse_socket(t);
        let ip = parse_ip(t);
        let node = parse_node(t);
        match TargetAddress::from_readings(socket, ip, node) {
            Some(target) => Ok(target),
            None => Err(InvalidTarget(t.to_owned())),
        }
    }

    /// The text of the target: its address, or its Node ID. The text of an address in no flow and
    /// no scope reads back as that address.
    pub fn text(&self) -> (r: String)
        ensures
            r@ == match *self {
                TargetAddress::Ip(addr) => address_text(addr),
                TargetAddress::Iroh(node) => hex_text(node@),
            },
            *self matches TargetAddress::Ip(addr) && is_bare(addr) ==> target_of(r@) == Some(self@),
    {
        match self {
            TargetAddress::Ip(addr) => {
                let text = write_address(*addr);
                proof {
                    lemma_trimmed_plain(text@);
                }
                text
            },
            TargetAddress::Iroh(node) => TargetAddress::node_text(node),
        }
    }

    /// The text of a Node ID.
    pub fn node_text(node: &[u8; 32]) -> (r: String)
        ensures
            r@ == hex_text(node@),
    {
        encode_hex(node)
    }
}

impl core::str::FromStr for TargetAddress {
    type Err = InvalidTarget;

    fn from_str(s: &str) -> (r: Result<TargetAddress, InvalidTarget>)
        ensures
            reads_target(s@, r),
    {
        TargetAddress::from_str(s)
    }
}

/// The text of a Node ID has no white space to be trimmed, no dot and no colon, so it is read as
/// a Node ID and as nothing else.
pub proof fn law_node_text_is_plain(node: Seq<u8>)
    ensures
        trimmed(hex_text(node)) == hex_text(node),
        !hex_text(node).contains('.'),
        !hex_text(node).contains(':'),
{
    let s = hex_text(node);
    crate::digits::law_hex_round_trip(node);
    assert forall|i: int| 0 <= i < s.len() implies s[i] != '.' && s[i] != ':' && !is_white_space(
        #[trigger] s[i],
    ) by {
        assert(hex_value(s[i]) is Some);
    }
    lemma_trimmed_plain(s);
}

/// The text of a Node ID is read as that Node ID.
pub proof fn law_node_text_is_read(node: Seq<u8>)
    requires
        node_of(hex_text(node)) == Some(node),
        reads_plainly(hex_text(node)),
    ensures
        target_of(hex_text(node)) == Some(TargetView::Iroh(node)),
{
    law_node_text_is_plain(node);
}

/// A Node ID that was read is read again from its text.
pub proof fn law_read_node_is_read_again(
    s: Seq<char>,
    node: [u8; 32],
    again: Result<TargetAddress, InvalidTarget>,
)
    requires
        reads_target(s, Ok(TargetAddress::Iroh(node))),
        reads_target(hex_text(node@), again),
    ensures
        again matches Ok(t) && t@ == TargetView::Iroh(node@),
{
    law_node_text_is_read(node@);
}

/// White space around a text makes no difference to the target that it means.
pub proof fn law_white_space_around_target(front: Seq<char>, s: Seq<char>, back: Seq<char>)
    requires
        is_blank(front),
        is_blank(back),
    ensures
        target_of(front + s + back) == target_of(s),
{
    lemma_trimmed_between(front, s, back);
}

/// A port that is given is kept; the default port is used for an IP address alone; and a text is
/// refused exactly where it is no socket address, no IP address and no Node ID.
pub proof fn law_ports_of_targets(s: Seq<char>)
    ensures
        socket_of(trimmed(s)) matches Some(addr) ==> target_of(s) == Some(TargetView::Ip(addr)),
        socket_of(trimmed(s)) is None ==> (ip_of(trimmed(s)) matches Some(ip) ==> target_of(s)
            == Some(TargetView::Ip(at_port(ip, DEFAULT_PORT)))),
        target_of(s) is None <==> socket_of(trimmed(s)) is None && ip_of(trimmed(s)) is None
            && node_of(trimmed(s)) is None,
{
}

/// An address keeps its number and its port.
pub proof fn law_address_keeps_number_and_port(v4: u32, v6: u128, port: u16)
    ensures
        at_port(IpAddress::V4(v4), port) == (SocketAddress::V4 { ip: v4, port }),
        at_port(IpAddress::V6(v6), port) matches SocketAddress::V6 { ip, port: p, .. } && ip == v6 && p
            == port,
        is_bare(at_port(IpAddress::V6(v6), port)),
        DEFAULT_PORT == 12398,
{
}

/// A Node ID is meant only by a text that is no address.
pub proof fn law_addresses_go_first(s: Seq<char>)
    ensures
        target_of(s) matches Some(TargetView::Iroh(node)) ==> node_of(trimmed(s)) == Some(node)
            && socket_of(trimmed(s)) is None && ip_of(trimmed(s)) is None,
        socket_of(trimmed(s)) is None && ip_of(trimmed(s)) is None ==> (node_of(trimmed(s)) matches Some(
            node,
        ) ==> target_of(s) == Some(TargetView::Iroh(node))),
{
}

} // verus!
