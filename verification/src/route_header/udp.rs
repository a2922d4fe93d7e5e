//! The front of every datagram that a client sends to a proxy.
//!
//! A datagram starts with its kind and the identifier of its flow. A routed
//! datagram goes on with an encrypted header that names the upstream; a
//! compact one does not, and belongs to a flow that was routed before.

use vstd::prelude::*;
use vstd::string::*;
use crate::conn::{upstream_view, UdpFlowId, UpstreamAddr, UDP_FLOW_ID_LEN};
use crate::io::{ErrorKind, IoError};
use crate::route_header::CodecError;
use crate::text::{decimal, decimal_text};

verus! {

/// The kind of a datagram that names its upstream.
pub const ROUTED_REQUEST: u8 = 0;

/// The kind of a datagram that relies on an earlier routed one.
pub const COMPACT_REQUEST: u8 = 1;

/// The length of the kind and the flow identifier, in bytes.
pub const REQUEST_PREFIX_LEN: usize = 17;

/// The front of a datagram: its kind and its flow.
pub open spec fn request_prefix(kind: u8, flow_id: Seq<u8>) -> Seq<u8> {
    seq![kind] + flow_id
}

impl UdpFlowId {
    /// Appends the front of a routed datagram.
    pub fn write_routed(self, output: &mut Vec<u8>)
        ensures
            final(output)@ == old(output)@ + request_prefix(ROUTED_REQUEST, self@),
    {
        output.push(ROUTED_REQUEST);
        output.extend_from_slice(self.as_bytes());
        assert(output@ =~= old(output)@ + request_prefix(ROUTED_REQUEST, self@));
    }

    /// Appends the front of a compact datagram.
    pub fn write_compact(self, output: &mut Vec<u8>)
        ensures
            final(output)@ == old(output)@ + request_prefix(COMPACT_REQUEST, self@),
    {
        output.push(COMPACT_REQUEST);
        output.extend_from_slice(self.as_bytes());
        assert(output@ =~= old(output)@ + request_prefix(COMPACT_REQUEST, self@));
    }

    /// Reads the identifier that starts at `start`.
    fn read(input: &[u8], start: usize) -> (r: Result<Self, CodecError>)
        requires
            start <= input@.len(),
        ensures
            if input@.len() - start < UDP_FLOW_ID_LEN {
                r matches Err(CodecError::Io(e)) && e.kind == ErrorKind::UnexpectedEof
            } else {
                r matches Ok(id) && id@ == input@.subrange(start as int, start + UDP_FLOW_ID_LEN)
            },
    {
        if input.len() - start < UDP_FLOW_ID_LEN {
            return Err(
                CodecError::Io(
                    IoError::new(ErrorKind::UnexpectedEof, "failed to fill whole buffer"),
                ),
            );
        }
        let mut id: [u8; UDP_FLOW_ID_LEN] = [0; UDP_FLOW_ID_LEN];
        let mut i: usize = 0;
        while i < UDP_FLOW_ID_LEN
            invariant
                i <= UDP_FLOW_ID_LEN,
                start + UDP_FLOW_ID_LEN <= input.len(),
                id@.len() == UDP_FLOW_ID_LEN,
                forall|j: int| 0 <= j < i ==> id@[j] == input@[start + j],
            decreases UDP_FLOW_ID_LEN - i,
        {
            id[i] = input[start + i];
            i += 1;
        }
        assert(id@ =~= input@.subrange(start as int, start + UDP_FLOW_ID_LEN));
        Ok(UdpFlowId::from_bytes(id))
    }
}

/// What the front of a datagram asks for.
#[derive(Debug, PartialEq, Eq)]
pub enum UdpRequestRoute {
    Routed { flow_id: UdpFlowId, upstream: Option<UpstreamAddr> },
    Compact { flow_id: UdpFlowId },
}

/// Whether `read_header` may answer `out` to the bytes.
pub open spec fn reads_request_header<
    H: Fn(&[u8]) -> Result<(Option<UpstreamAddr>, usize), CodecError>,
>(
    read_header: H,
    bytes: Seq<u8>,
    out: Result<(Option<UpstreamAddr>, usize), CodecError>,
) -> bool {
    exists|b: &[u8]| b@ == bytes && #[trigger] call_ensures(read_header, (b,), out)
}

/// Whether decoding the front of the datagram may end in `r`.
pub open spec fn decodes_to<H: Fn(&[u8]) -> Result<(Option<UpstreamAddr>, usize), CodecError>>(
    read_header: H,
    buf: Seq<u8>,
    r: Result<(UdpRequestRoute, usize), CodecError>,
) -> bool {
    if buf.len() < REQUEST_PREFIX_LEN {
        r matches Err(CodecError::Io(e)) && e.kind == ErrorKind::UnexpectedEof
    } else {
        let flow = buf.subrange(1, REQUEST_PREFIX_LEN as int);
        let rest = buf.subrange(REQUEST_PREFIX_LEN as int, buf.len() as int);
        if buf[0] == ROUTED_REQUEST {
            match r {
                Ok((UdpRequestRoute::Routed { flow_id, upstream }, consumed)) => {
                    &&& flow_id@ == flow
                    &&& consumed >= REQUEST_PREFIX_LEN
                    &&& reads_request_header(
                        read_header,
                        rest,
                        Ok((upstream, (consumed - REQUEST_PREFIX_LEN) as usize)),
                    )
                },
                Ok((UdpRequestRoute::Compact { .. }, _)) => false,
                Err(e) => reads_request_header(read_header, rest, Err(e)),
            }
        } else if buf[0] == COMPACT_REQUEST {
            r matches Ok((UdpRequestRoute::Compact { flow_id }, consumed)) && flow_id@ == flow
                && consumed == REQUEST_PREFIX_LEN
        } else {
            r matches Err(CodecError::Io(e)) && e.kind == ErrorKind::InvalidData && e.message@
                == "unsupported UDP request kind "@ + decimal_text(buf[0] as nat)
        }
    }
}

/// Decodes the front of a datagram. `read_header` reads the encrypted header
/// of a routed one and tells how many bytes it took; so does this function.
pub fn decode_request_route<H: Fn(&[u8]) -> Result<(Option<UpstreamAddr>, usize), CodecError>>(
    buf: &[u8],
    read_header: &H,
) -> (r: Result<(UdpRequestRoute, usize), CodecError>)
    requires
        forall|b: &[u8]| call_requires(*read_header, (b,)),
        forall|b: &[u8], upstream: Option<UpstreamAddr>, n: usize| #[trigger]
            call_ensures(*read_header, (b,), Ok((upstream, n))) ==> n <= b@.len(),
    ensures
        decodes_to(*read_header, buf@, r),
        r matches Ok((_, consumed)) ==> consumed <= buf@.len(),
{
    if buf.len() == 0 {
        return Err(
            CodecError::Io(IoError::new(ErrorKind::UnexpectedEof, "failed to fill whole buffer")),
        );
    }
    let kind: u8 = buf[0];
    let flow_id = match UdpFlowId::read(buf, 1) {
        Ok(flow_id) => flow_id,
        Err(e) => {
            return Err(e);
        },
    };
    if kind == ROUTED_REQUEST {
        let rest = vstd::slice::slice_subrange(buf, REQUEST_PREFIX_LEN, buf.len());
        let header = read_header(rest);
        assert(reads_request_header(*read_header, rest@, header));
        match header {
            Ok((upstream, consumed)) => {
                let taken: usize = REQUEST_PREFIX_LEN + consumed;
                Ok((UdpRequestRoute::Routed { flow_id, upstream }, taken))
            },
            Err(e) => Err(e),
        }
    } else if kind == COMPACT_REQUEST {
        Ok((UdpRequestRoute::Compact { flow_id }, REQUEST_PREFIX_LEN))
    } else {
        let mut message: String = "unsupported UDP request kind ".to_owned();
        let number: String = decimal(kind as u64);
        message.append(number.as_str());
        Err(CodecError::Io(IoError { kind: ErrorKind::InvalidData, message }))
    }
}

/// A compact datagram decodes to the flow that wrote it, whatever the header
/// reader is, and what follows the front is left as it is.
pub proof fn compact_request_round_trip<
    H: Fn(&[u8]) -> Result<(Option<UpstreamAddr>, usize), CodecError>,
>(
    read_header: H,
    flow_id: UdpFlowId,
    payload: Seq<u8>,
    r: Result<(UdpRequestRoute, usize), CodecError>,
)
    requires
        flow_id@.len() == UDP_FLOW_ID_LEN,
        decodes_to(read_header, request_prefix(COMPACT_REQUEST, flow_id@) + payload, r),
    ensures
        ({
            let packet = request_prefix(COMPACT_REQUEST, flow_id@) + payload;
            &&& r matches Ok((UdpRequestRoute::Compact { flow_id: id }, consumed))
            &&& id@ == flow_id@
            &&& packet.subrange(consumed as int, packet.len() as int) == payload
        }),
{
    let packet = request_prefix(COMPACT_REQUEST, flow_id@) + payload;
    assert(packet.subrange(1, REQUEST_PREFIX_LEN as int) =~= flow_id@);
    assert(packet.subrange(REQUEST_PREFIX_LEN as int, packet.len() as int) =~= payload);
}

/// A routed datagram decodes to the flow that wrote it and to the upstream in
/// its header, and what follows the header is left as it is: as long as the
/// header reader takes exactly the header and finds the upstream in it.
pub proof fn routed_request_round_trip<
    H: Fn(&[u8]) -> Result<(Option<UpstreamAddr>, usize), CodecError>,
>(
    read_header: H,
    flow_id: UdpFlowId,
    header: Seq<u8>,
    upstream: Option<UpstreamAddr>,
    payload: Seq<u8>,
    r: Result<(UdpRequestRoute, usize), CodecError>,
)
    requires
        flow_id@.len() == UDP_FLOW_ID_LEN,
        forall|out: Result<(Option<UpstreamAddr>, usize), CodecError>| #[trigger]
            reads_request_header(read_header, header + payload, out) ==> (out matches Ok((u, n))
                && upstream_view(u) == upstream_view(upstream) && n == header.len()),
        decodes_to(read_header, request_prefix(ROUTED_REQUEST, flow_id@) + header + payload, r),
    ensures
        ({
            let packet = request_prefix(ROUTED_REQUEST, flow_id@) + header + payload;
            &&& r matches Ok((UdpRequestRoute::Routed { flow_id: id, upstream: u }, consumed))
            &&& id@ == flow_id@
            &&& upstream_view(u) == upstream_view(upstream)
            &&& packet.subrange(consumed as int, packet.len() as int) == payload
        }),
{
    let packet = request_prefix(ROUTED_REQUEST, flow_id@) + header + payload;
    assert(packet.subrange(1, REQUEST_PREFIX_LEN as int) =~= flow_id@);
    assert(packet.subrange(REQUEST_PREFIX_LEN as int, packet.len() as int) =~= header + payload);
    assert(packet.subrange(
        REQUEST_PREFIX_LEN + header.len(),
        packet.len() as int,
    ) =~= payload);
}

/// A datagram of any other kind is rejected.
pub proof fn unknown_request_kind_is_rejected<
    H: Fn(&[u8]) -> Result<(Option<UpstreamAddr>, usize), CodecError>,
>(read_header: H, buf: Seq<u8>, r: Result<(UdpRequestRoute, usize), CodecError>)
    requires
        buf.len() > 0,
        buf[0] != ROUTED_REQUEST,
        buf[0] != COMPACT_REQUEST,
        decodes_to(read_header, buf, r),
    ensures
        r is Err,
{
}

/// A datagram is decoded by its first byte: one for a compact datagram, whose
/// front is that byte and the sixteen of its flow; zero for a routed one, whose
/// header follows these, and whose upstream is the one that is read there. A
/// datagram that is shorter, or that starts with any other byte, is refused.
pub proof fn a_datagram_is_decoded_by_its_first_byte<
    H: Fn(&[u8]) -> Result<(Option<UpstreamAddr>, usize), CodecError>,
>(read_header: H, buf: Seq<u8>, r: Result<(UdpRequestRoute, usize), CodecError>)
    requires
        decodes_to(read_header, buf, r),
    ensures
        buf.len() < 17 ==> (r matches Err(CodecError::Io(e)) && e.kind is UnexpectedEof),
        buf.len() >= 17 && buf[0] > 1 ==> (r matches Err(CodecError::Io(e)) && e.kind is
            InvalidData),
        buf.len() >= 17 && buf[0] == 1 ==> (r matches Ok(
            (UdpRequestRoute::Compact { flow_id }, n),
        ) && flow_id@ == buf.subrange(1, 17) && n == 17),
        buf.len() >= 17 && buf[0] == 0 ==> exists|
            b: &[u8],
            out: Result<(Option<UpstreamAddr>, usize), CodecError>,
        |
            {
                &&& b@ == buf.skip(17)
                &&& #[trigger] call_ensures(read_header, (b,), out)
                &&& match out {
                    Ok((upstream, taken)) => r matches Ok(
                        (UdpRequestRoute::Routed { flow_id, upstream: u }, n),
                    ) && flow_id@ == buf.subrange(1, 17) && u == upstream && n == 17 + taken,
                    Err(e) => r == Err::<(UdpRequestRoute, usize), CodecError>(e),
                }
            },
{
    if buf.len() >= 17 && buf[0] == 0 {
        let rest = buf.subrange(REQUEST_PREFIX_LEN as int, buf.len() as int);
        assert(rest =~= buf.skip(17));
        let out: Result<(Option<UpstreamAddr>, usize), CodecError> = match r {
            Ok((UdpRequestRoute::Routed { upstream, .. }, n)) => Ok((upstream, (n - 17) as usize)),
            Ok((UdpRequestRoute::Compact { .. }, _)) => arbitrary(),
            Err(e) => Err(e),
        };
        let b = choose|b: &[u8]| b@ == rest && #[trigger] call_ensures(read_header, (b,), out);
        assert(call_ensures(read_header, (b,), out));
    }
}

} // verus!
