//! Finding the connector for a route.

use vstd::prelude::*;
use vstd::string::*;
use crate::addr::{RouteAddr, SocketAddr};
use crate::io::{ErrorKind, IoError};
use crate::key_map::{KeyMap, TextKey};

verus! {

/// What a reverse tunnel is registered under.
#[derive(Debug, PartialEq, Eq)]
pub struct TunnelKey {
    pub protocol: String,
    pub name: String,
}

pub struct TunnelKeyView {
    pub protocol: Seq<char>,
    pub name: Seq<char>,
}

impl View for TunnelKey {
    type V = TunnelKeyView;

    open spec fn view(&self) -> TunnelKeyView {
        TunnelKeyView { protocol: self.protocol@, name: self.name@ }
    }
}

impl Clone for TunnelKey {
    fn clone(&self) -> (r: Self)
        ensures
            r@ == self@,
    {
        TunnelKey { protocol: self.protocol.clone(), name: self.name.clone() }
    }
}

impl TextKey for TunnelKey {
    fn same(&self, other: &Self) -> (r: bool) {
        self.protocol == other.protocol && self.name == other.name
    }
}

/// A registered connector. The generation tells it from those that were
/// registered under the same name before or after.
#[derive(Debug)]
pub struct NamedEntry<C> {
    pub generation: u64,
    pub connector: C,
}

/// The connectors of the reverse tunnels that are up. Whoever waits for a
/// tunnel watches `changed`.
#[derive(Debug)]
pub struct NamedRegistry<C> {
    pub entries: KeyMap<TunnelKey, NamedEntry<C>>,
    pub next_generation: u64,
    pub changed: u64,
}

/// The registry of stream tunnels.
pub type NamedStreamRegistry<C> = NamedRegistry<C>;

/// The registry of datagram tunnels.
pub type NamedUdpRegistry<C> = NamedRegistry<C>;

/// A registration, to be taken back when the tunnel goes down.
#[derive(Debug)]
pub struct NamedRegistration {
    pub key: TunnelKey,
    pub generation: u64,
}

/// The registration of a stream tunnel.
pub type NamedStreamRegistration = NamedRegistration;

/// The registration of a datagram tunnel.
pub type NamedUdpRegistration = NamedRegistration;

impl<C> NamedRegistry<C> {
    pub open spec fn wf(self) -> bool {
        self.entries.wf()
    }

    pub fn new() -> (r: Self)
        ensures
            r.wf(),
            r.entries@ == Map::<TunnelKeyView, NamedEntry<C>>::empty(),
            r.next_generation == 1,
            r.changed == 0,
    {
        NamedRegistry { entries: KeyMap::new(), next_generation: 1, changed: 0 }
    }

    /// Whether registering the connector turns this registry into `after`, and
    /// gives out the registration.
    pub open spec fn registers(
        self,
        after: Self,
        protocol: Seq<char>,
        name: Seq<char>,
        connector: C,
        registration: NamedRegistration,
    ) -> bool {
        &&& registration.key@ == (TunnelKeyView { protocol, name })
        &&& registration.generation == self.next_generation
        &&& after.entries@ == self.entries@.insert(
            registration.key@,
            NamedEntry { generation: registration.generation, connector },
        )
        &&& after.next_generation == self.next_generation.wrapping_add(1)
        &&& after.changed == self.changed.wrapping_add(1)
    }

    /// Registers a connector, in place of any that has the name.
    pub fn register(&mut self, protocol: String, name: String, connector: C) -> (r:
        NamedRegistration)
        requires
            old(self).wf(),
        ensures
            final(self).wf(),
            old(self).registers(*final(self), protocol@, name@, connector, r),
    {
        let generation: u64 = self.next_generation;
        self.next_generation = generation.wrapping_add(1);
        let key = TunnelKey { protocol, name };
        self.entries.insert(key.clone(), NamedEntry { generation, connector });
        self.changed = self.changed.wrapping_add(1);
        NamedRegistration { key, generation }
    }

    /// Whether the registration is the one that its name stands for now.
    pub open spec fn current(self, registration: NamedRegistration) -> bool {
        self.entries@.dom().contains(registration.key@)
            && self.entries@[registration.key@].generation == registration.generation
    }

    /// Takes a registration back, unless another has taken its name since.
    pub fn unregister(&mut self, registration: &NamedRegistration) -> (removed: bool)
        requires
            old(self).wf(),
        ensures
            final(self).wf(),
            removed == old(self).current(*registration),
            final(self).next_generation == old(self).next_generation,
            if removed {
                final(self).entries@ == old(self).entries@.remove(registration.key@)
                    && final(self).changed == old(self).changed.wrapping_add(1)
            } else {
                *final(self) == *old(self)
            },
    {
        let current = match self.entries.get(&registration.key) {
            Some(entry) => entry.generation == registration.generation,
            None => false,
        };
        if current {
            let _ = self.entries.remove(&registration.key);
            self.changed = self.changed.wrapping_add(1);
        }
        current
    }

    /// The connector that a name stands for now. Without one, the caller waits
    /// until the registry changes and asks again.
    pub fn find(&self, protocol: &str, name: &str) -> (r: Option<&C>)
        requires
            self.wf(),
        ensures
            ({
                let key = TunnelKeyView { protocol: protocol@, name: name@ };
                match r {
                    Some(connector) => self.entries@.dom().contains(key) && *connector
                        == self.entries@[key].connector,
                    None => !self.entries@.dom().contains(key),
                }
            }),
    {
        let key = TunnelKey { protocol: protocol.to_owned(), name: name.to_owned() };
        match self.entries.get(&key) {
            Some(entry) => Some(&entry.connector),
            None => None,
        }
    }
    /// What the connector that a name stands for tells of its session.
    pub fn session_stats<F: Fn(&C) -> Option<String>>(
        &self,
        protocol: &str,
        name: &str,
        stats: &F,
    ) -> (r: Option<String>)
        requires
            self.wf(),
            forall|connector: &C| call_requires(*stats, (connector,)),
        ensures
            ({
                let key = TunnelKeyView { protocol: protocol@, name: name@ };
                if self.entries@.dom().contains(key) {
                    call_ensures(*stats, (&self.entries@[key].connector,), r)
                } else {
                    r is None
                }
            }),
    {
        match self.find(protocol, name) {
            Some(connector) => stats(connector),
            None => None,
        }
    }
}

/// A registration that was replaced cannot remove its replacement: the name
/// keeps standing for the new connector.
pub proof fn stale_registration_cannot_remove_its_replacement<C>(
    before: NamedRegistry<C>,
    after: NamedRegistry<C>,
    protocol: Seq<char>,
    name: Seq<char>,
    connector: C,
    stale: NamedRegistration,
    replacement: NamedRegistration,
)
    requires
        before.registers(after, protocol, name, connector, replacement),
        stale.key@ == replacement.key@,
        stale.generation != before.next_generation,
    ensures
        !after.current(stale),
        after.current(replacement),
        after.entries@[replacement.key@].connector == connector,
{
}

/// Two registrations in a row never have the same generation.
pub proof fn generations_in_a_row_differ<C>(
    before: NamedRegistry<C>,
    between: NamedRegistry<C>,
    after: NamedRegistry<C>,
    first_key: TunnelKeyView,
    first_connector: C,
    first: NamedRegistration,
    second_key: TunnelKeyView,
    second_connector: C,
    second: NamedRegistration,
)
    requires
        before.registers(
            between,
            first_key.protocol,
            first_key.name,
            first_connector,
            first,
        ),
        between.registers(
            after,
            second_key.protocol,
            second_key.name,
            second_connector,
            second,
        ),
    ensures
        first.generation != second.generation,
{
}

/// How to open a datagram connection to a route.
#[derive(Debug)]
pub enum UdpRoutePlan<'a, D> {
    /// Through the reverse tunnel of that name.
    Named { protocol: &'a str, name: &'a str },
    /// Through a dialer that carries datagrams over a stream.
    Dial(&'a D),
    /// By a socket of its own.
    Socket,
}

/// The ways to open datagram connections: reverse tunnels by name, and the
/// dialers that carry datagrams over streams by protocol.
#[derive(Debug)]
pub struct UdpConnector<D, N> {
    pub named: NamedUdpRegistry<N>,
    pub dialers: KeyMap<String, D>,
}

impl<D, N> UdpConnector<D, N> {
    pub open spec fn wf(self) -> bool {
        self.named.wf() && self.dialers.wf()
    }

    pub fn new() -> (r: Self)
        ensures
            r.wf(),
            r.named.entries@ == Map::<TunnelKeyView, NamedEntry<N>>::empty(),
            r.named.next_generation == 1,
            r.named.changed == 0,
            r.dialers@ == Map::<Seq<char>, D>::empty(),
    {
        UdpConnector { named: NamedRegistry::new(), dialers: KeyMap::new() }
    }

    /// Registers a dialer, in place of any that the protocol has.
    pub fn register_dialer(&mut self, protocol: String, dialer: D)
        requires
            old(self).wf(),
        ensures
            final(self).wf(),
            final(self).named == old(self).named,
            final(self).dialers@ == old(self).dialers@.insert(protocol@, dialer),
    {
        self.dialers.insert(protocol, dialer);
    }

    /// Registers a reverse tunnel, in place of any that has the name.
    pub fn register_named(&mut self, protocol: String, name: String, connector: N) -> (r:
        NamedUdpRegistration)
        requires
            old(self).wf(),
        ensures
            final(self).wf(),
            final(self).dialers == old(self).dialers,
            old(self).named.registers(final(self).named, protocol@, name@, connector, r),
    {
        self.named.register(protocol, name, connector)
    }

    /// Decides how to open a connection to a route: a reverse tunnel goes by
    /// name, a protocol with a dialer by its dialer, anything else by socket.
    pub fn connect_route<'a>(&'a self, addr: &'a RouteAddr) -> (r: UdpRoutePlan<'a, D>)
        requires
            self.wf(),
        ensures
            match r {
                UdpRoutePlan::Named { protocol, name } => {
                    &&& protocol@ == addr@.protocol
                    &&& addr@.reverse_tunnel() matches Some((_, tunnel))
                    &&& name@ == tunnel
                },
                UdpRoutePlan::Dial(dialer) => {
                    &&& addr@.reverse_tunnel() is None
                    &&& self.dialers@.dom().contains(addr@.protocol)
                    &&& *dialer == self.dialers@[addr@.protocol]
                },
                UdpRoutePlan::Socket => {
                    &&& addr@.reverse_tunnel() is None
                    &&& !self.dialers@.dom().contains(addr@.protocol)
                },
            },
    {
        if let Some((_, name)) = addr.reverse_tunnel() {
            return UdpRoutePlan::Named { protocol: addr.protocol.as_str(), name };
        }
        match self.dialers.get(&addr.protocol) {
            Some(dialer) => UdpRoutePlan::Dial(dialer),
            None => UdpRoutePlan::Socket,
        }
    }

    /// What the tunnel of that name tells of its session.
    pub fn named_session_stats<F: Fn(&N) -> Option<String>>(
        &self,
        protocol: &str,
        name: &str,
        stats: &F,
    ) -> (r: Option<String>)
        requires
            self.wf(),
            forall|connector: &N| call_requires(*stats, (connector,)),
        ensures
            ({
                let key = TunnelKeyView { protocol: protocol@, name: name@ };
                if self.named.entries@.dom().contains(key) {
                    call_ensures(*stats, (&self.named.entries@[key].connector,), r)
                } else {
                    r is None
                }
            }),
    {
        self.named.session_stats(protocol, name, stats)
    }
}

/// The connectors of a process, by stream type.
#[derive(Debug)]
pub struct StreamConnectorTable<C, N> {
    pub connectors: KeyMap<String, C>,
    pub named: NamedRegistry<N>,
}

impl<C, N> StreamConnectorTable<C, N> {
    pub open spec fn wf(self) -> bool {
        self.connectors.wf() && self.named.wf()
    }

    pub fn new(connectors: KeyMap<String, C>) -> (r: Self)
        requires
            connectors.wf(),
        ensures
            r.wf(),
            r.connectors == connectors,
            r.named.entries@ == Map::<TunnelKeyView, NamedEntry<N>>::empty(),
            r.named.next_generation == 1,
            r.named.changed == 0,
    {
        StreamConnectorTable { connectors, named: NamedRegistry::new() }
    }

    /// The connector for a stream type.
    pub fn connector(&self, stream_type: &str) -> (r: Result<&C, IoError>)
        requires
            self.wf(),
        ensures
            match r {
                Ok(connector) => self.connectors@.dom().contains(stream_type@) && *connector
                    == self.connectors@[stream_type@],
                Err(e) => !self.connectors@.dom().contains(stream_type@) && e.kind
                    == ErrorKind::InvalidInput && e.message@ == "invalid stream type: `"@
                    + stream_type@ + "`"@,
            },
    {
        match self.connectors.get(&stream_type.to_owned()) {
            Some(connector) => Ok(connector),
            None => {
                let mut message: String = "invalid stream type: `".to_owned();
                message.append(stream_type);
                message.append("`");
                Err(IoError { kind: ErrorKind::InvalidInput, message })
            },
        }
    }

    /// What the connector for a stream type tells of its session with an
    /// address.
    pub fn session_stats<F: Fn(&C, SocketAddr) -> Option<String>>(
        &self,
        stream_type: &str,
        addr: SocketAddr,
        stats: &F,
    ) -> (r: Option<String>)
        requires
            self.wf(),
            forall|connector: &C| call_requires(*stats, (connector, addr)),
        ensures
            if self.connectors@.dom().contains(stream_type@) {
                call_ensures(*stats, (&self.connectors@[stream_type@], addr), r)
            } else {
                r is None
            },
    {
        match self.connectors.get(&stream_type.to_owned()) {
            Some(connector) => stats(connector, addr),
            None => None,
        }
    }

    /// Whether there is a connector for a stream type that tells of its
    /// sessions.
    pub fn reports_session_stats<F: Fn(&C) -> bool>(&self, stream_type: &str, reports: &F) -> (r:
        bool)
        requires
            self.wf(),
            forall|connector: &C| call_requires(*reports, (connector,)),
        ensures
            if self.connectors@.dom().contains(stream_type@) {
                call_ensures(*reports, (&self.connectors@[stream_type@],), r)
            } else {
                !r
            },
    {
        match self.connectors.get(&stream_type.to_owned()) {
            Some(connector) => reports(connector),
            None => false,
        }
    }

    /// Registers a reverse tunnel, in place of any that has the name.
    pub fn register_named(&mut self, stream_type: String, name: String, connector: N) -> (r:
        NamedStreamRegistration)
        requires
            old(self).wf(),
        ensures
            final(self).wf(),
            final(self).connectors == old(self).connectors,
            old(self).named.registers(final(self).named, stream_type@, name@, connector, r),
    {
        self.named.register(stream_type, name, connector)
    }

    /// What the tunnel of that name tells of its session.
    pub fn named_session_stats<F: Fn(&N) -> Option<String>>(
        &self,
        stream_type: &str,
        name: &str,
        stats: &F,
    ) -> (r: Option<String>)
        requires
            self.wf(),
            forall|connector: &N| call_requires(*stats, (connector,)),
        ensures
            ({
                let key = TunnelKeyView { protocol: stream_type@, name: name@ };
                if self.named.entries@.dom().contains(key) {
                    call_ensures(*stats, (&self.named.entries@[key].connector,), r)
                } else {
                    r is None
                }
            }),
    {
        self.named.session_stats(stream_type, name, stats)
    }
}

/// Any address of the peer's family, and any port.
pub open spec fn any_addr(peer: SocketAddr) -> SocketAddr {
    match peer {
        SocketAddr::V4 { .. } => SocketAddr::V4 { ip: 0, port: 0 },
        SocketAddr::V6 { .. } => SocketAddr::V6 { ip6: 0, port: 0, flowinfo: 0, scope_id: 0 },
    }
}

/// The address to connect to the peer from: the one that is configured for the
/// peer, or any. The port is left open.
pub fn bind_addr_for(configured: Option<SocketAddr>, peer: SocketAddr) -> (r: SocketAddr)
    ensures
        r == (match configured {
            Some(SocketAddr::V4 { ip, .. }) => SocketAddr::V4 { ip, port: 0 },
            Some(SocketAddr::V6 { ip6, .. }) => SocketAddr::V6 {
                ip6,
                port: 0,
                flowinfo: 0,
                scope_id: 0,
            },
            None => any_addr(peer),
        }),
{
    match configured {
        Some(SocketAddr::V4 { ip, .. }) => SocketAddr::V4 { ip, port: 0 },
        Some(SocketAddr::V6 { ip6, .. }) => {
            SocketAddr::V6 { ip6, port: 0, flowinfo: 0, scope_id: 0 }
        },
        None => match peer {
            SocketAddr::V4 { .. } => SocketAddr::V4 { ip: 0, port: 0 },
            SocketAddr::V6 { .. } => {
                SocketAddr::V6 { ip6: 0, port: 0, flowinfo: 0, scope_id: 0 }
            },
        },
    }
}

/// Trying several addresses in turn.
#[derive(Debug)]
pub struct ConnectAny {
    pub last_error: Option<IoError>,
}

impl ConnectAny {
    pub fn new() -> (r: Self)
        ensures
            r.last_error is None,
    {
        ConnectAny { last_error: None }
    }

    /// Takes note of an attempt. The first success ends the search; a failure
    /// of any kind leads on to the next address.
    pub fn tried<T>(&mut self, outcome: Result<T, IoError>, addr: SocketAddr) -> (r: Option<
        (T, SocketAddr),
    >)
        ensures
            match outcome {
                Ok(conn) => r == Some((conn, addr)) && *final(self) == *old(self),
                Err(e) => r is None && final(self).last_error == Some(e),
            },
    {
        match outcome {
            Ok(conn) => Some((conn, addr)),
            Err(e) => {
                self.last_error = Some(e);
                None
            },
        }
    }

    /// The error once all addresses failed: that of the last one.
    pub fn exhausted(self) -> (e: IoError)
        ensures
            match self.last_error {
                Some(last) => e == last,
                None => e.kind == ErrorKind::Other && e.message@ == "no addrs"@,
            },
    {
        match self.last_error {
            Some(last) => last,
            None => IoError::new(ErrorKind::Other, "no addrs"),
        }
    }
}

/// Tries the addresses in turn, where connecting does not have to wait.
pub fn connect_any<T, F: Fn(SocketAddr) -> Result<T, IoError>>(
    addrs: &[SocketAddr],
    connect: &F,
) -> (r: Result<(T, SocketAddr), IoError>)
    requires
        forall|addr: SocketAddr| call_requires(*connect, (addr,)),
    ensures
        match r {
            Ok((conn, addr)) => exists|i: int|
                {
                    &&& 0 <= i < addrs@.len()
                    &&& #[trigger] addrs@[i] == addr
                    &&& call_ensures(*connect, (addr,), Ok(conn))
                    &&& forall|j: int|
                        0 <= j < i ==> attempt_failed(*connect, #[trigger] addrs@[j])
                },
            Err(e) => {
                &&& forall|j: int|
                    0 <= j < addrs@.len() ==> attempt_failed(*connect, #[trigger] addrs@[j])
                &&& addrs@.len() == 0 ==> e.kind == ErrorKind::Other && e.message@ == "no addrs"@
                &&& addrs@.len() > 0 ==> call_ensures(*connect, (addrs@.last(),), Err(e))
            },
        },
{
    let mut search = ConnectAny::new();
    let mut i: usize = 0;
    while i < addrs.len()
        invariant
            i <= addrs@.len(),
            forall|addr: SocketAddr| call_requires(*connect, (addr,)),
            forall|j: int| 0 <= j < i ==> attempt_failed(*connect, #[trigger] addrs@[j]),
            i == 0 ==> search.last_error is None,
            i > 0 ==> (search.last_error matches Some(e) && call_ensures(
                *connect,
                (addrs@[i - 1],),
                Err::<T, IoError>(e),
            )),
        decreases addrs@.len() - i,
    {
        let addr = addrs[i];
        let outcome = connect(addr);
        if let Some((conn, addr)) = search.tried(outcome, addr) {
            return Ok((conn, addr));
        }
        assert(attempt_failed(*connect, addrs@[i as int]));
        i += 1;
    }
    Err(search.exhausted())
}

/// Whether an attempt at the address may fail.
pub open spec fn attempt_failed<T, F: Fn(SocketAddr) -> Result<T, IoError>>(
    connect: F,
    addr: SocketAddr,
) -> bool {
    exists|e: IoError| #[trigger] call_ensures(connect, (addr,), Err::<T, IoError>(e))
}

/// What a step comes to that was given a time limit: `None` if it took too
/// long, which is told in the words of `late`.
pub fn timed<T>(outcome: Option<Result<T, IoError>>, late: &str) -> (r: Result<T, IoError>)
    ensures
        match outcome {
            Some(in_time) => r == in_time,
            None => r matches Err(e) && e.kind == ErrorKind::TimedOut && e.message@ == late@,
        },
{
    match outcome {
        Some(in_time) => in_time,
        None => Err(IoError::new(ErrorKind::TimedOut, late)),
    }
}

/// A connector that is registered is the one that its name stands for from then
/// on; all other names stand for what they stood for, and whoever waits for a
/// change sees one.
pub proof fn a_registration_changes_its_own_name<C>(
    before: NamedRegistry<C>,
    after: NamedRegistry<C>,
    protocol: Seq<char>,
    name: Seq<char>,
    connector: C,
    registration: NamedRegistration,
    other: TunnelKeyView,
)
    requires
        before.registers(after, protocol, name, connector, registration),
    ensures
        registration.key.protocol@ == protocol,
        registration.key.name@ == name,
        after.entries@.contains_key(TunnelKeyView { protocol, name }),
        after.entries@[TunnelKeyView { protocol, name }].connector == connector,
        after.entries@[TunnelKeyView { protocol, name }].generation == registration.generation,
        other.protocol != protocol || other.name != name ==> {
            &&& after.entries@.contains_key(other) <==> before.entries@.contains_key(other)
            &&& before.entries@.contains_key(other) ==> after.entries@[other]
                == before.entries@[other]
        },
        after.changed != before.changed,
        after.next_generation != before.next_generation,
        registration.generation == before.next_generation,
{
}

/// A registration is current exactly while its name stands for the connector of
/// its own generation.
pub proof fn a_registration_is_current_by_its_generation<C>(
    registry: NamedRegistry<C>,
    registration: NamedRegistration,
)
    ensures
        registry.entries@.contains_key(registration.key@) ==> (registry.current(registration)
            <==> registry.entries@[registration.key@].generation == registration.generation),
        !registry.entries@.contains_key(registration.key@) ==> !registry.current(registration),
{
}

/// Any address is one of the peer's family: all zeros, and the port left open.
pub proof fn any_address_is_of_the_peers_family(peer: SocketAddr)
    ensures
        peer is V4 ==> any_addr(peer) == (SocketAddr::V4 { ip: 0, port: 0 }),
        peer is V6 ==> any_addr(peer) == (SocketAddr::V6 {
            ip6: 0,
            port: 0,
            flowinfo: 0,
            scope_id: 0,
        }),
{
}

/// An address that can only be connected is never passed over.
pub proof fn an_attempt_that_cannot_fail_did_not<T, F: Fn(SocketAddr) -> Result<T, IoError>>(
    connect: F,
    addr: SocketAddr,
)
    requires
        forall|outcome: Result<T, IoError>| #[trigger]
            call_ensures(connect, (addr,), outcome) ==> outcome is Ok,
    ensures
        !attempt_failed::<T, F>(connect, addr),
{
}

/// A tunnel goes by its protocol and its name together.
pub proof fn tunnels_are_told_apart(a: TunnelKey, b: TunnelKey)
    ensures
        a@ == b@ <==> a.protocol@ == b.protocol@ && a.name@ == b.name@,
{
}

} // verus!
