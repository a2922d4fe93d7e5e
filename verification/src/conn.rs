//! What names a connection: datagram flows and their identifiers.

use vstd::prelude::*;
use vstd::string::*;
use crate::addr::{InternetAddr, RouteAddr, RouteAddrView, SocketAddr};
use crate::random::random_flow_id_bytes;

verus! {

/// The length of a flow identifier, in bytes.
pub const UDP_FLOW_ID_LEN: usize = 16;

/// The identifier that a client puts on every datagram of one flow.
#[derive(Debug, Clone, Copy, PartialEq, Eq, Hash)]
pub struct UdpFlowId([u8; UDP_FLOW_ID_LEN]);

impl View for UdpFlowId {
    type V = Seq<u8>;

    closed spec fn view(&self) -> Seq<u8> {
        self.0@
    }
}

impl UdpFlowId {
    /// A fresh identifier, drawn at random.
    pub fn random() -> (id: Self)
        ensures
            id@.len() == UDP_FLOW_ID_LEN,
    {
        UdpFlowId::from_bytes(random_flow_id_bytes())
    }

    pub fn from_bytes(bytes: [u8; UDP_FLOW_ID_LEN]) -> (id: Self)
        ensures
            id@ == bytes@,
            id@.len() == UDP_FLOW_ID_LEN,
    {
        UdpFlowId(bytes)
    }

    pub fn as_bytes(&self) -> (bytes: &[u8; UDP_FLOW_ID_LEN])
        ensures
            bytes@ == self@,
            self@.len() == UDP_FLOW_ID_LEN,
    {
        &self.0
    }

    /// Whether the two identifiers are the same.
    pub fn same(&self, other: &UdpFlowId) -> (r: bool)
        ensures
            r == (self@ == other@),
    {
        let mut i: usize = 0;
        while i < UDP_FLOW_ID_LEN
            invariant
                i <= UDP_FLOW_ID_LEN,
                self@.len() == UDP_FLOW_ID_LEN,
                other@.len() == UDP_FLOW_ID_LEN,
                forall|j: int| 0 <= j < i ==> self@[j] == other@[j],
            decreases UDP_FLOW_ID_LEN - i,
        {
            if self.0[i] != other.0[i] {
                assert(self@[i as int] != other@[i as int]);
                return false;
            }
            i += 1;
        }
        assert(self@ =~= other@);
        true
    }
}

/// Where the datagrams of a flow come from.
#[derive(Debug, Clone, Copy, PartialEq, Eq, Hash, Structural)]
pub struct DownstreamAddr(pub SocketAddr);

/// Where the datagrams of a flow go to.
#[derive(Debug, PartialEq, Eq, Hash)]
pub struct UpstreamAddr(pub RouteAddr);

impl View for UpstreamAddr {
    type V = RouteAddrView;

    open spec fn view(&self) -> RouteAddrView {
        self.0@
    }
}

impl Clone for UpstreamAddr {
    fn clone(&self) -> (r: Self)
        ensures
            r@ == self@,
    {
        UpstreamAddr(self.0.clone())
    }
}

/// The view of an upstream that may be missing.
pub open spec fn upstream_view(upstream: Option<UpstreamAddr>) -> Option<RouteAddrView> {
    match upstream {
        Some(upstream) => Some(upstream@),
        None => None,
    }
}

/// Whether two upstreams, each of which may be missing, are the same.
pub fn same_upstream(a: &Option<UpstreamAddr>, b: &Option<UpstreamAddr>) -> (r: bool)
    ensures
        r == (upstream_view(*a) == upstream_view(*b)),
{
    match (a, b) {
        (Some(a), Some(b)) => a.0.same(&b.0),
        (None, None) => true,
        _ => false,
    }
}

/// A copy of an upstream that may be missing.
pub fn clone_upstream(a: &Option<UpstreamAddr>) -> (r: Option<UpstreamAddr>)
    ensures
        upstream_view(r) == upstream_view(*a),
{
    match a {
        Some(a) => Some(a.clone()),
        None => None,
    }
}

/// A datagram flow between two ends. Without an upstream it is an echo flow.
#[derive(Debug, PartialEq, Eq, Hash)]
pub struct Flow {
    pub upstream: Option<UpstreamAddr>,
    pub downstream: DownstreamAddr,
}

pub struct FlowView {
    pub upstream: Option<RouteAddrView>,
    pub downstream: SocketAddr,
}

impl View for Flow {
    type V = FlowView;

    open spec fn view(&self) -> FlowView {
        FlowView { upstream: upstream_view(self.upstream), downstream: self.downstream.0 }
    }
}

impl Clone for Flow {
    fn clone(&self) -> (r: Self)
        ensures
            r@ == self@,
    {
        Flow { upstream: clone_upstream(&self.upstream), downstream: self.downstream }
    }
}

impl Flow {
    /// Names both ends: `up:<upstream>,dn:<downstream>`, or the downstream
    /// alone for an echo flow. The two functions write the ends.
    pub fn to_text<U: Fn(&RouteAddr) -> String, D: Fn(&SocketAddr) -> String>(
        &self,
        render_upstream: U,
        render_downstream: D,
    ) -> (text: String)
        requires
            forall|a: &RouteAddr| call_requires(render_upstream, (a,)),
            call_requires(render_downstream, (&self.downstream.0,)),
        ensures
            exists|dn: String| #[trigger]
                call_ensures(render_downstream, (&self.downstream.0,), dn) && match self.upstream {
                    Some(upstream) => exists|up: String| #[trigger]
                        call_ensures(render_upstream, (&upstream.0,), up) && text@ == "up:"@ + up@
                            + ","@ + "dn:"@ + dn@,
                    None => text@ == "dn:"@ + dn@,
                },
    {
        let mut text: String = String::new();
        if let Some(up) = &self.upstream {
            let up: String = render_upstream(&up.0);
            text.append("up:");
            text.append(up.as_str());
            text.append(",");
            text.append("dn:");
            let dn: String = render_downstream(&self.downstream.0);
            text.append(dn.as_str());
            assert(text@ =~= "up:"@ + up@ + ","@ + "dn:"@ + dn@);
            return text;
        }
        text.append("dn:");
        let dn: String = render_downstream(&self.downstream.0);
        text.append(dn.as_str());
        assert(text@ =~= "dn:"@ + dn@);
        text
    }
}

/// What the datagrams of one flow have in common, as the listener sees it.
#[derive(Debug, PartialEq, Eq, Hash)]
pub enum FlowKey {
    Routed(Flow),
    Identified { downstream: DownstreamAddr, flow_id: UdpFlowId },
}

impl FlowKey {
    pub fn downstream(&self) -> (r: DownstreamAddr)
        ensures
            match *self {
                FlowKey::Routed(flow) => r == flow.downstream,
                FlowKey::Identified { downstream, .. } => r == downstream,
            },
    {
        match self {
            FlowKey::Routed(flow) => flow.downstream,
            FlowKey::Identified { downstream, .. } => *downstream,
        }
    }

    pub fn routed_flow(&self) -> (r: Option<&Flow>)
        ensures
            match *self {
                FlowKey::Routed(flow) => r == Some(&flow),
                FlowKey::Identified { .. } => r is None,
            },
    {
        match self {
            FlowKey::Routed(flow) => Some(flow),
            FlowKey::Identified { .. } => None,
        }
    }
}

/// The ends of a flow as a metrics column holds them.
#[derive(Debug)]
pub struct FlowHdv {
    pub upstream: Option<InternetAddr>,
    pub downstream: InternetAddr,
}

impl FlowHdv {
    pub fn from_flow(value: &Flow) -> (r: Self)
        ensures
            match (r.upstream, value@.upstream) {
                (Some(a), Some(b)) => a@ == b.address,
                (None, None) => true,
                _ => false,
            },
            r.downstream == InternetAddr::SocketAddr(value@.downstream),
    {
        let upstream = match &value.upstream {
            Some(x) => Some(x.0.address.clone()),
            None => None,
        };
        FlowHdv { upstream, downstream: InternetAddr::SocketAddr(value.downstream.0) }
    }
}

/// Two flows are the same only if both their ends are; a flow with an upstream
/// is never one without.
pub proof fn flows_are_told_apart(a: Flow, b: Flow)
    ensures
        a@ == b@ <==> a.downstream.0 == b.downstream.0 && match (a.upstream, b.upstream) {
            (Some(x), Some(y)) => x.0@ == y.0@,
            (None, None) => true,
            _ => false,
        },
        upstream_view(a.upstream) == upstream_view(b.upstream) <==> match (a.upstream, b.upstream) {
            (Some(x), Some(y)) => x.0@ == y.0@,
            (None, None) => true,
            _ => false,
        },
{
}

} // verus!
