//! Addresses, and route addresses: an address tagged with the protocol that is
//! spoken to reach it.
//!
//! How an ordinary address is spelled (`1.2.3.4:80`, `[::1]:80`, `host:80`) is
//! left to the caller, who passes the function that reads or writes it.

use vstd::prelude::*;

verus! {

pub const REVERSE_TUNNEL_TCP_PROTOCOL: &'static str = "revtuntcp";

pub const REVERSE_TUNNEL_RTP_PROTOCOL: &'static str = "revtunrtp";

/// The protocol tag of UDP routes.
pub const UDP_PROTOCOL: &'static str = "udp";

/// What stands between the protocol tag and the address.
pub const PROTOCOL_SEPARATOR: &'static str = "://";

/// The longest reverse tunnel name, in bytes.
pub const MAX_REVERSE_TUNNEL_NAME_LEN: usize = 128;

/// An IP address and a port.
#[derive(Debug, Clone, Copy, PartialEq, Eq, PartialOrd, Ord, Hash, Structural)]
pub enum SocketAddr {
    V4 { ip: u32, port: u16 },
    V6 { ip6: u128, port: u16, flowinfo: u32, scope_id: u32 },
}

/// A host to reach: a socket address, or a name to look up and a port.
#[derive(Debug, PartialEq, Eq, Hash)]
pub enum InternetAddr {
    SocketAddr(SocketAddr),
    DomainName { addr: String, port: u16 },
}

pub enum InternetAddrView {
    SocketAddr(SocketAddr),
    DomainName { addr: Seq<char>, port: u16 },
}

/// The text is not an address.
#[derive(Debug, Clone, Copy, PartialEq, Eq, Structural)]
pub struct ParseInternetAddrError;

impl View for InternetAddr {
    type V = InternetAddrView;

    open spec fn view(&self) -> InternetAddrView {
        match self {
            InternetAddr::SocketAddr(addr) => InternetAddrView::SocketAddr(*addr),
            InternetAddr::DomainName { addr, port } => InternetAddrView::DomainName {
                addr: addr@,
                port: *port,
            },
        }
    }
}

impl Clone for InternetAddr {
    fn clone(&self) -> (r: Self)
        ensures
            r@ == self@,
    {
        match self {
            InternetAddr::SocketAddr(addr) => InternetAddr::SocketAddr(*addr),
            InternetAddr::DomainName { addr, port } => InternetAddr::DomainName {
                addr: addr.clone(),
                port: *port,
            },
        }
    }
}

impl SocketAddr {
    pub fn port(&self) -> (p: u16)
        ensures
            p == (match *self {
                SocketAddr::V4 { port, .. } => port,
                SocketAddr::V6 { port, .. } => port,
            }),
    {
        match self {
            SocketAddr::V4 { port, .. } => *port,
            SocketAddr::V6 { port, .. } => *port,
        }
    }
}

impl InternetAddr {
    /// Whether the two addresses are the same.
    pub fn same(&self, other: &InternetAddr) -> (r: bool)
        ensures
            r == (self@ == other@),
    {
        match (self, other) {
            (InternetAddr::SocketAddr(a), InternetAddr::SocketAddr(b)) => *a == *b,
            (
                InternetAddr::DomainName { addr: a, port: p },
                InternetAddr::DomainName { addr: b, port: q },
            ) => *a == *b && *p == *q,
            _ => false,
        }
    }

    pub fn port(&self) -> (p: u16)
        ensures
            match self@ {
                InternetAddrView::SocketAddr(SocketAddr::V4 { port, .. }) => p == port,
                InternetAddrView::SocketAddr(SocketAddr::V6 { port, .. }) => p == port,
                InternetAddrView::DomainName { port, .. } => p == port,
            },
    {
        match self {
            InternetAddr::SocketAddr(addr) => addr.port(),
            InternetAddr::DomainName { port, .. } => *port,
        }
    }
}

/// The transport that carries a reverse tunnel.
#[derive(Debug, Clone, Copy, PartialEq, Eq, Hash, Structural)]
pub enum ReverseTunnelTransport {
    Tcp,
    Rtp,
}

impl ReverseTunnelTransport {
    /// The tag that the transport is written as.
    pub open spec fn spec_protocol(self) -> Seq<char> {
        match self {
            ReverseTunnelTransport::Tcp => REVERSE_TUNNEL_TCP_PROTOCOL@,
            ReverseTunnelTransport::Rtp => REVERSE_TUNNEL_RTP_PROTOCOL@,
        }
    }

    /// The transport that a tag stands for.
    pub open spec fn spec_from_protocol(protocol: Seq<char>) -> Option<ReverseTunnelTransport> {
        if protocol == REVERSE_TUNNEL_TCP_PROTOCOL@ {
            Some(ReverseTunnelTransport::Tcp)
        } else if protocol == REVERSE_TUNNEL_RTP_PROTOCOL@ {
            Some(ReverseTunnelTransport::Rtp)
        } else {
            None
        }
    }

    pub fn from_protocol(protocol: &str) -> (r: Option<Self>)
        ensures
            r == Self::spec_from_protocol(protocol@),
    {
        let protocol: String = protocol.to_owned();
        if protocol == REVERSE_TUNNEL_TCP_PROTOCOL.to_owned() {
            Some(ReverseTunnelTransport::Tcp)
        } else if protocol == REVERSE_TUNNEL_RTP_PROTOCOL.to_owned() {
            Some(ReverseTunnelTransport::Rtp)
        } else {
            None
        }
    }

    pub fn protocol(self) -> (r: &'static str)
        ensures
            r@ == self.spec_protocol(),
    {
        match self {
            ReverseTunnelTransport::Tcp => REVERSE_TUNNEL_TCP_PROTOCOL,
            ReverseTunnelTransport::Rtp => REVERSE_TUNNEL_RTP_PROTOCOL,
        }
    }
}

/// Each transport's tag stands for that transport and no other.
pub proof fn transport_protocol_round_trip(transport: ReverseTunnelTransport)
    ensures
        ReverseTunnelTransport::spec_from_protocol(transport.spec_protocol()) == Some(transport),
{
    lemma_protocol_literals();
}

/// What the protocol tags and the separator are made of.
proof fn lemma_protocol_literals()
    ensures
        REVERSE_TUNNEL_TCP_PROTOCOL@ != REVERSE_TUNNEL_RTP_PROTOCOL@,
        REVERSE_TUNNEL_TCP_PROTOCOL@.len() == 9,
        REVERSE_TUNNEL_RTP_PROTOCOL@.len() == 9,
        forall|i: int| 0 <= i < 9 ==> REVERSE_TUNNEL_TCP_PROTOCOL@[i] != ':',
        forall|i: int| 0 <= i < 9 ==> REVERSE_TUNNEL_RTP_PROTOCOL@[i] != ':',
        PROTOCOL_SEPARATOR@ == seq![':', '/', '/'],
{
    reveal_strlit("revtuntcp");
    reveal_strlit("revtunrtp");
    reveal_strlit("://");
    assert(REVERSE_TUNNEL_TCP_PROTOCOL@[6] == 't');
    assert(REVERSE_TUNNEL_RTP_PROTOCOL@[6] == 'r');
    assert(PROTOCOL_SEPARATOR@ =~= seq![':', '/', '/']);
}

/// The characters of a reverse tunnel name: ASCII letters, digits and `._-`.
pub open spec fn is_tunnel_name_char(c: char) -> bool {
    ||| 'a' <= c <= 'z'
    ||| 'A' <= c <= 'Z'
    ||| '0' <= c <= '9'
    ||| c == '.'
    ||| c == '_'
    ||| c == '-'
}

/// A reverse tunnel name is not empty, not too long, and plain.
pub open spec fn is_tunnel_name(name: Seq<char>) -> bool {
    &&& 1 <= name.len() <= MAX_REVERSE_TUNNEL_NAME_LEN
    &&& forall|i: int| 0 <= i < name.len() ==> is_tunnel_name_char(#[trigger] name[i])
}

pub fn validate_reverse_tunnel_name(name: &str) -> (r: Result<(), ParseInternetAddrError>)
    ensures
        r is Ok <==> is_tunnel_name(name@),
{
    // Every character of a name takes one byte, so counting characters bounds
    // the bytes.
    let len: usize = name.unicode_len();
    if len == 0 || len > MAX_REVERSE_TUNNEL_NAME_LEN {
        return Err(ParseInternetAddrError);
    }
    let mut i: usize = 0;
    while i < len
        invariant
            i <= len,
            len == name@.len(),
            forall|j: int| 0 <= j < i ==> is_tunnel_name_char(#[trigger] name@[j]),
        decreases len - i,
    {
        let c: char = name.get_char(i);
        let plain = ('a' <= c && c <= 'z') || ('A' <= c && c <= 'Z') || ('0' <= c && c <= '9')
            || c == '.' || c == '_' || c == '-';
        if !plain {
            assert(!is_tunnel_name_char(name@[i as int]));
            return Err(ParseInternetAddrError);
        }
        i += 1;
    }
    Ok(())
}

/// An address tagged with the protocol that is spoken to reach it. A reverse
/// tunnel is reached by name: its address is that name with port 0.
#[derive(Debug, PartialEq, Eq, Hash)]
pub struct RouteAddr {
    pub address: InternetAddr,
    pub protocol: String,
}

pub struct RouteAddrView {
    pub address: InternetAddrView,
    pub protocol: Seq<char>,
}

impl View for RouteAddr {
    type V = RouteAddrView;

    open spec fn view(&self) -> RouteAddrView {
        RouteAddrView { address: self.address@, protocol: self.protocol@ }
    }
}

impl Clone for RouteAddr {
    fn clone(&self) -> (r: Self)
        ensures
            r@ == self@,
    {
        RouteAddr { address: self.address.clone(), protocol: self.protocol.clone() }
    }
}

impl RouteAddrView {
    /// The reverse tunnel that the address names, if it names one.
    pub open spec fn reverse_tunnel(self) -> Option<(ReverseTunnelTransport, Seq<char>)> {
        match (ReverseTunnelTransport::spec_from_protocol(self.protocol), self.address) {
            (Some(transport), InternetAddrView::DomainName { addr, port: 0 }) => Some(
                (transport, addr),
            ),
            _ => None,
        }
    }

    /// The address of the reverse tunnel with that name.
    pub open spec fn of_reverse_tunnel(
        transport: ReverseTunnelTransport,
        name: Seq<char>,
    ) -> RouteAddrView {
        RouteAddrView {
            address: InternetAddrView::DomainName { addr: name, port: 0 },
            protocol: transport.spec_protocol(),
        }
    }
}

/// Whether the separator stands at `i`.
pub open spec fn separator_at(s: Seq<char>, i: int) -> bool {
    &&& 0 <= i
    &&& i + 3 <= s.len()
    &&& s[i] == ':'
    &&& s[i + 1] == '/'
    &&& s[i + 2] == '/'
}

/// Whether the first separator stands at `i`.
pub open spec fn first_separator_at(s: Seq<char>, i: int) -> bool {
    &&& separator_at(s, i)
    &&& forall|j: int| 0 <= j < i ==> !#[trigger] separator_at(s, j)
}

/// What the text of a route address asks for.
pub enum RouteAddrText {
    /// A reverse tunnel.
    Tunnel { transport: ReverseTunnelTransport, name: Seq<char> },
    /// A reverse tunnel with a name that none can have.
    BadTunnelName,
    /// An ordinary address, still to be read.
    Plain { protocol: Seq<char>, address: Seq<char> },
}

/// The text before and after the first separator, if there is one.
pub open spec fn protocol_and_rest(s: Seq<char>) -> Option<(Seq<char>, Seq<char>)> {
    if exists|i: int| first_separator_at(s, i) {
        let i = choose|i: int| first_separator_at(s, i);
        Some((s.subrange(0, i), s.subrange(i + 3, s.len() as int)))
    } else {
        None
    }
}

/// The text before the first separator is the protocol; text without a
/// separator is a UDP address.
pub open spec fn route_addr_text(s: Seq<char>) -> RouteAddrText {
    match protocol_and_rest(s) {
        Some((protocol, address)) => match ReverseTunnelTransport::spec_from_protocol(protocol) {
            Some(transport) => if is_tunnel_name(address) {
                RouteAddrText::Tunnel { transport, name: address }
            } else {
                RouteAddrText::BadTunnelName
            },
            None => RouteAddrText::Plain { protocol, address },
        },
        None => RouteAddrText::Plain { protocol: UDP_PROTOCOL@, address: s },
    }
}

/// Whether `parse` may answer `r` to the address text.
pub open spec fn parses_to<F: Fn(&str) -> Result<InternetAddr, ParseInternetAddrError>>(
    parse: F,
    text: Seq<char>,
    r: Result<InternetAddr, ParseInternetAddrError>,
) -> bool {
    exists|t: &str| t@ == text && #[trigger] call_ensures(parse, (t,), r)
}

impl RouteAddr {
    /// Tags an address with the protocol of UDP routes.
    pub fn udp(address: InternetAddr) -> (r: Self)
        ensures
            r.address == address,
            r.protocol@ == UDP_PROTOCOL@,
    {
        RouteAddr { address, protocol: UDP_PROTOCOL.to_owned() }
    }

    /// Whether the two route addresses are the same.
    pub fn same(&self, other: &RouteAddr) -> (r: bool)
        ensures
            r == (self@ == other@),
    {
        self.address.same(&other.address) && self.protocol == other.protocol
    }

    pub fn reverse_tunnel(&self) -> (r: Option<(ReverseTunnelTransport, &str)>)
        ensures
            match r {
                Some((transport, name)) => self@.reverse_tunnel() == Some((transport, name@)),
                None => self@.reverse_tunnel() is None,
            },
    {
        match ReverseTunnelTransport::from_protocol(self.protocol.as_str()) {
            None => None,
            Some(transport) => match &self.address {
                InternetAddr::DomainName { addr, port } => if *port == 0 {
                    Some((transport, addr.as_str()))
                } else {
                    None
                },
                InternetAddr::SocketAddr(_) => None,
            },
        }
    }

    /// Reads a route address; `parse` reads the ordinary address in it.
    pub fn from_str<F: Fn(&str) -> Result<InternetAddr, ParseInternetAddrError>>(
        s: &str,
        parse: F,
    ) -> (r: Result<Self, ParseInternetAddrError>)
        requires
            forall|t: &str| call_requires(parse, (t,)),
        ensures
            match route_addr_text(s@) {
                RouteAddrText::Tunnel { transport, name } => r matches Ok(addr)
                    && addr@ == RouteAddrView::of_reverse_tunnel(transport, name),
                RouteAddrText::BadTunnelName => r is Err,
                RouteAddrText::Plain { protocol, address } => match r {
                    Ok(addr) => addr@.protocol == protocol && parses_to(
                        parse,
                        address,
                        Ok(addr.address),
                    ),
                    Err(e) => parses_to(parse, address, Err(e)),
                },
            },
    {
        match split_protocol(s) {
            Some((protocol, address)) => {
                let transport = ReverseTunnelTransport::from_protocol(protocol);
                if transport.is_some() {
                    match validate_reverse_tunnel_name(address) {
                        Ok(()) => {},
                        Err(e) => {
                            return Err(e);
                        },
                    }
                    return Ok(
                        RouteAddr {
                            address: InternetAddr::DomainName { addr: address.to_owned(), port: 0 },
                            protocol: protocol.to_owned(),
                        },
                    );
                }
                match parse(address) {
                    Ok(parsed) => {
                        assert(parses_to(parse, address@, Ok(parsed)));
                        Ok(RouteAddr { address: parsed, protocol: protocol.to_owned() })
                    },
                    Err(e) => {
                        assert(parses_to(parse, address@, Err(e)));
                        Err(e)
                    },
                }
            },
            None => match parse(s) {
                Ok(parsed) => {
                    assert(parses_to(parse, s@, Ok(parsed)));
                    Ok(RouteAddr::udp(parsed))
                },
                Err(e) => {
                    assert(parses_to(parse, s@, Err(e)));
                    Err(e)
                },
            },
        }
    }

    /// Writes a route address; `render` writes the ordinary address in it.
    pub fn to_text<F: Fn(&InternetAddr) -> String>(&self, render: F) -> (text: String)
        requires
            call_requires(render, (&self.address,)),
        ensures
            match self@.reverse_tunnel() {
                Some((_, name)) => text@ == self@.protocol + PROTOCOL_SEPARATOR@ + name,
                None => exists|address: String| #[trigger]
                    call_ensures(render, (&self.address,), address) && text@ == self@.protocol
                        + PROTOCOL_SEPARATOR@ + address@,
            },
    {
        let mut text: String = self.protocol.clone();
        text.append(PROTOCOL_SEPARATOR);
        if let Some((_, name)) = self.reverse_tunnel() {
            text.append(name);
            return text;
        }
        let address: String = render(&self.address);
        text.append(address.as_str());
        text
    }
}

proof fn lemma_first_separator_unique(s: Seq<char>, i: int)
    requires
        first_separator_at(s, i),
    ensures
        forall|k: int| #[trigger] first_separator_at(s, k) ==> k == i,
{
    assert forall|k: int| #[trigger] first_separator_at(s, k) implies k == i by {
        if k < i {
            assert(!separator_at(s, k));
        } else if k > i {
            assert(!separator_at(s, i));
        }
    }
}

/// Splits off the protocol at the first separator.
fn split_protocol(s: &str) -> (r: Option<(&str, &str)>)
    ensures
        match r {
            Some((protocol, address)) => protocol_and_rest(s@) == Some((protocol@, address@)),
            None => protocol_and_rest(s@) is None,
        },
{
    let len: usize = s.unicode_len();
    let mut i: usize = 0;
    while len - i >= 3
        invariant
            i <= len,
            len == s@.len(),
            forall|j: int| 0 <= j < i ==> !#[trigger] separator_at(s@, j),
        decreases len - i,
    {
        if s.get_char(i) == ':' && s.get_char(i + 1) == '/' && s.get_char(i + 2) == '/' {
            assert(first_separator_at(s@, i as int));
            proof {
                lemma_first_separator_unique(s@, i as int);
            }
            return Some((s.substring_char(0, i), s.substring_char(i + 3, len)));
        }
        i += 1;
    }
    None
}

/// The text of a reverse tunnel address reads back as that tunnel: the name
/// survives the round trip and no port is made up.
pub proof fn reverse_tunnel_text_round_trip(transport: ReverseTunnelTransport, name: Seq<char>)
    requires
        is_tunnel_name(name),
    ensures
        ({
            let addr = RouteAddrView::of_reverse_tunnel(transport, name);
            &&& addr.reverse_tunnel() == Some((transport, name))
            &&& route_addr_text(addr.protocol + PROTOCOL_SEPARATOR@ + name) == (
            RouteAddrText::Tunnel { transport, name })
        }),
{
    lemma_protocol_literals();
    let protocol = transport.spec_protocol();
    let s = protocol + PROTOCOL_SEPARATOR@ + name;
    assert(separator_at(s, 9));
    assert forall|j: int| 0 <= j < 9 implies !#[trigger] separator_at(s, j) by {
        assert(s[j] == protocol[j]);
    }
    assert(first_separator_at(s, 9));
    lemma_first_separator_unique(s, 9);
    assert(s.subrange(0, 9) =~= protocol);
    assert(s.subrange(12, s.len() as int) =~= name);
}

/// The parts of a route address as a metrics column holds them.
#[derive(Debug)]
pub struct RouteAddrHdv {
    pub addr: InternetAddr,
    pub ty: String,
}

impl RouteAddrHdv {
    pub fn from_route_addr(value: &RouteAddr) -> (r: Self)
        ensures
            r.addr@ == value@.address,
            r.ty@ == value@.protocol,
    {
        RouteAddrHdv { addr: value.address.clone(), ty: value.protocol.clone() }
    }
}

/// A route address that configuration files spell as one string.
#[derive(Debug)]
pub struct RouteAddrStr(pub RouteAddr);

/// A reverse tunnel's name has 1 to 128 characters, all of them ASCII letters,
/// digits, dots, underscores or hyphens, told here by their codes.
pub proof fn a_tunnel_name_is_short_and_plain(name: Seq<char>)
    ensures
        is_tunnel_name(name) <==> {
            &&& name.len() >= 1
            &&& name.len() <= 128
            &&& forall|i: int|
                0 <= i < name.len() ==> {
                    let code = (#[trigger] name[i]) as int;
                    ||| 48 <= code <= 57
                    ||| 65 <= code <= 90
                    ||| 97 <= code <= 122
                    ||| code == 45
                    ||| code == 46
                    ||| code == 95
                }
        },
{
}

/// The two tags of reverse tunnels stand for their transports, and no other text
/// does.
pub proof fn two_tags_stand_for_transports(protocol: Seq<char>)
    ensures
        protocol == "revtuntcp"@ <==> ReverseTunnelTransport::spec_from_protocol(protocol) == Some(
            ReverseTunnelTransport::Tcp,
        ),
        protocol == "revtunrtp"@ <==> ReverseTunnelTransport::spec_from_protocol(protocol) == Some(
            ReverseTunnelTransport::Rtp,
        ),
        ReverseTunnelTransport::Tcp.spec_protocol() == "revtuntcp"@,
        ReverseTunnelTransport::Rtp.spec_protocol() == "revtunrtp"@,
{
    lemma_protocol_literals();
}

/// An address is that of a reverse tunnel exactly if its tag is a transport's
/// and it is a name with port zero, which is then the tunnel's name.
pub proof fn a_reverse_tunnel_is_a_name_with_port_zero(
    addr: RouteAddrView,
    transport: ReverseTunnelTransport,
    name: Seq<char>,
)
    ensures
        addr.reverse_tunnel() == Some((transport, name)) <==> addr.address == (
        InternetAddrView::DomainName { addr: name, port: 0 }) && (match transport {
            ReverseTunnelTransport::Tcp => addr.protocol == "revtuntcp"@,
            ReverseTunnelTransport::Rtp => addr.protocol == "revtunrtp"@,
        }),
{
    lemma_protocol_literals();
}

/// Text is split where `://` first stands: what is before it is the protocol,
/// and what is behind it the address. The name of a reverse tunnel must be one;
/// any other address is read as it stands.
pub proof fn text_is_split_at_the_first_separator(
    protocol: Seq<char>,
    address: Seq<char>,
    text: Seq<char>,
)
    requires
        text == protocol + seq![':', '/', '/'] + address,
        forall|j: int|
            0 <= j < protocol.len() ==> !((#[trigger] text[j]) == ':' && text[j + 1] == '/' && text[j
                + 2] == '/'),
    ensures
        match ReverseTunnelTransport::spec_from_protocol(protocol) {
            Some(transport) => if is_tunnel_name(address) {
                route_addr_text(text) == (RouteAddrText::Tunnel { transport, name: address })
            } else {
                route_addr_text(text) is BadTunnelName
            },
            None => route_addr_text(text) == (RouteAddrText::Plain { protocol, address }),
        },
{
    let i = protocol.len() as int;
    assert(separator_at(text, i));
    assert forall|j: int| 0 <= j < i implies !#[trigger] separator_at(text, j) by {
        let c = text[j];
    }
    assert(first_separator_at(text, i));
    lemma_first_separator_unique(text, i);
    assert(text.subrange(0, i) =~= protocol);
    assert(text.subrange(i + 3, text.len() as int) =~= address);
}

/// Text without a separator is the address of a UDP route, all of it.
pub proof fn text_without_a_separator_is_a_udp_address(text: Seq<char>)
    requires
        forall|j: int|
            0 <= j < text.len() - 2 ==> !((#[trigger] text[j]) == ':' && text[j + 1] == '/' && text[j
                + 2] == '/'),
    ensures
        route_addr_text(text) == (RouteAddrText::Plain { protocol: "udp"@, address: text }),
{
    assert forall|i: int| !#[trigger] first_separator_at(text, i) by {
        if separator_at(text, i) {
            let c = text[i];
        }
    }
}

/// An address is read by the reader, from that very text.
pub proof fn an_address_is_what_the_reader_answered<
    F: Fn(&str) -> Result<InternetAddr, ParseInternetAddrError>,
>(parse: F, text: Seq<char>, r: Result<InternetAddr, ParseInternetAddrError>)
    ensures
        parses_to(parse, text, r) <==> exists|t: &str|
            t@ == text && #[trigger] call_ensures(parse, (t,), r),
{
}

/// Two addresses are the same only if their hosts, their ports and their
/// protocols are.
pub proof fn addresses_are_told_apart(a: RouteAddr, b: RouteAddr)
    ensures
        a@ == b@ <==> a.protocol@ == b.protocol@ && match (a.address, b.address) {
            (InternetAddr::SocketAddr(x), InternetAddr::SocketAddr(y)) => x == y,
            (
                InternetAddr::DomainName { addr: x, port: p },
                InternetAddr::DomainName { addr: y, port: q },
            ) => x@ == y@ && p == q,
            _ => false,
        },
{
}

} // verus!
