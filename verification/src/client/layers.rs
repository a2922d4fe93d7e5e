//! The layers of a datagram that travels a chain of proxies.
//!
//! A request is wrapped from the last proxy to the first, so that the first
//! proxy finds its own layer outermost. A response comes with the first
//! proxy's layer outermost and is peeled in chain order.

use vstd::prelude::*;
use vstd::slice::slice_subrange;
use vstd::string::*;
use crate::crypto::{
    bytes_of, ciphers_to, decrypt_packet_payload, decrypting_hands_on_what_the_cipher_read,
    decrypts_to, encrypt_packet_payload, encrypts_to, reads_back, CryptoConfig, Encrypted, X_NONCE_BYTES,
};
use crate::io::{ErrorKind, IoError};
use crate::route::hop_config::HopConfig;
use crate::route_header::{CodecError, RouteError, RouteResponse};

verus! {

/// One layer of a request: the bytes in front, and the key, if any, that what
/// is inside is encrypted by.
#[derive(Debug)]
pub struct RequestLayer {
    pub prefix: Vec<u8>,
    pub payload_crypto: Option<CryptoConfig>,
}

#[verifier::ext_equal]
pub struct RequestLayerView {
    pub prefix: Seq<u8>,
    pub payload_crypto: Option<CryptoConfig>,
}

impl View for RequestLayer {
    type V = RequestLayerView;

    open spec fn view(&self) -> RequestLayerView {
        RequestLayerView { prefix: self.prefix@, payload_crypto: self.payload_crypto }
    }
}

/// The views of a stack of layers.
pub open spec fn layers_view(layers: Seq<RequestLayer>) -> Seq<RequestLayerView> {
    layers.map_values(|layer: RequestLayer| layer@)
}

/// Whether the inside of a layer may become `body`.
pub open spec fn seals_to<E: Fn(&[u8], &CryptoConfig) -> Result<Encrypted, IoError>>(
    cipher: E,
    payload_crypto: Option<CryptoConfig>,
    capacity: usize,
    packet: Seq<u8>,
    body: Result<Seq<u8>, IoError>,
) -> bool {
    match payload_crypto {
        Some(crypto) => encrypts_to(cipher, packet, capacity, crypto, body),
        None => body == Ok::<Seq<u8>, IoError>(packet),
    }
}

/// Whether putting one layer around the packet may end in `r`: the inside is
/// encrypted if the layer has a key, and the whole must fit.
pub open spec fn wraps_to<E: Fn(&[u8], &CryptoConfig) -> Result<Encrypted, IoError>>(
    cipher: E,
    layer: RequestLayerView,
    capacity: usize,
    too_large: Seq<char>,
    packet: Seq<u8>,
    r: Result<Seq<u8>, IoError>,
) -> bool {
    exists|body: Result<Seq<u8>, IoError>| #[trigger]
        seals_to(cipher, layer.payload_crypto, capacity, packet, body) && match body {
            Err(e) => r == Err::<Seq<u8>, IoError>(e),
            Ok(body) => if layer.prefix.len() + body.len() > usize::MAX {
                r matches Err(e) && e.kind == ErrorKind::InvalidInput && e.message@
                    == "UDP packet length overflow"@
            } else if layer.prefix.len() + body.len() > capacity {
                r matches Err(e) && e.kind == ErrorKind::InvalidInput && e.message@ == too_large
            } else {
                r == Ok::<Seq<u8>, IoError>(layer.prefix + body)
            },
        }
}

/// Whether putting all layers around the payload, the last one first, may end
/// in `r`.
pub open spec fn encodes_to<E: Fn(&[u8], &CryptoConfig) -> Result<Encrypted, IoError>>(
    cipher: E,
    layers: Seq<RequestLayerView>,
    capacity: usize,
    too_large: Seq<char>,
    payload: Seq<u8>,
    r: Result<Seq<u8>, IoError>,
) -> bool
    decreases layers.len(),
{
    if layers.len() == 0 {
        r == Ok::<Seq<u8>, IoError>(payload)
    } else {
        exists|inner: Result<Seq<u8>, IoError>| #[trigger]
            wraps_to(cipher, layers.last(), capacity, too_large, payload, inner) && match inner {
                Err(e) => r == Err::<Seq<u8>, IoError>(e),
                Ok(packet) => encodes_to(
                    cipher,
                    layers.drop_last(),
                    capacity,
                    too_large,
                    packet,
                    r,
                ),
            }
    }
}

/// Puts one layer around the packet.
fn wrap_layer<E: Fn(&[u8], &CryptoConfig) -> Result<Encrypted, IoError>>(
    packet: Vec<u8>,
    layer: &RequestLayer,
    capacity: usize,
    too_large: &str,
    cipher: &E,
) -> (r: Result<Vec<u8>, IoError>)
    requires
        forall|p: &[u8], k: &CryptoConfig| call_requires(*cipher, (p, k)),
    ensures
        wraps_to(*cipher, layer@, capacity, too_large@, packet@, bytes_of(r)),
{
    let body: Vec<u8> = match &layer.payload_crypto {
        Some(crypto) => {
            let sealed = encrypt_packet_payload(packet.as_slice(), capacity, crypto, cipher);
            assert(seals_to(
                *cipher,
                layer.payload_crypto,
                capacity,
                packet@,
                bytes_of(sealed),
            ));
            match sealed {
                Ok(body) => body,
                Err(e) => {
                    return Err(e);
                },
            }
        },
        None => packet,
    };
    assert(seals_to(*cipher, layer.payload_crypto, capacity, packet@, Ok(body@)));
    let encoded_len: usize = match layer.prefix.len().checked_add(body.len()) {
        Some(len) => len,
        None => {
            return Err(IoError::new(ErrorKind::InvalidInput, "UDP packet length overflow"));
        },
    };
    if encoded_len > capacity {
        return Err(IoError::new(ErrorKind::InvalidInput, too_large));
    }
    let mut out: Vec<u8> = Vec::new();
    out.extend_from_slice(layer.prefix.as_slice());
    out.extend_from_slice(body.as_slice());
    assert(out@ =~= layer.prefix@ + body@);
    Ok(out)
}

/// Puts all layers around the payload, the last one first. No packet on the
/// way may be longer than `capacity`.
pub fn encode_layers<E: Fn(&[u8], &CryptoConfig) -> Result<Encrypted, IoError>>(
    payload: &[u8],
    layers: &[RequestLayer],
    capacity: usize,
    too_large: &str,
    cipher: &E,
) -> (r: Result<Vec<u8>, IoError>)
    requires
        forall|p: &[u8], k: &CryptoConfig| call_requires(*cipher, (p, k)),
    ensures
        encodes_to(
            *cipher,
            layers_view(layers@),
            capacity,
            too_large@,
            payload@,
            bytes_of(r),
        ),
{
    let mut packet: Vec<u8> = Vec::new();
    packet.extend_from_slice(payload);
    assert(packet@ =~= payload@);
    let ghost all = layers_view(layers@);
    let mut i: usize = layers.len();
    assert(all.take(i as int) =~= all);
    while i > 0
        invariant
            i <= layers@.len(),
            all == layers_view(layers@),
            forall|p: &[u8], k: &CryptoConfig| call_requires(*cipher, (p, k)),
            forall|r: Result<Seq<u8>, IoError>| #[trigger]
                encodes_to(*cipher, all.take(i as int), capacity, too_large@, packet@, r)
                    ==> encodes_to(*cipher, all, capacity, too_large@, payload@, r),
        decreases i,
    {
        let ghost before = packet@;
        let ghost rest = all.take(i as int);
        let wrapped = wrap_layer(packet, &layers[i - 1], capacity, too_large, cipher);
        proof {
            assert(rest.last() == layers@[i - 1]@);
            assert(rest.drop_last() =~= all.take(i - 1));
        }
        match wrapped {
            Err(e) => {
                assert(wraps_to(
                    *cipher,
                    rest.last(),
                    capacity,
                    too_large@,
                    before,
                    Err(e),
                ));
                assert(encodes_to(*cipher, rest, capacity, too_large@, before, Err(e)));
                return Err(e);
            },
            Ok(next) => {
                packet = next;
            },
        }
        proof {
            assert forall|r: Result<Seq<u8>, IoError>| #[trigger]
                encodes_to(
                    *cipher,
                    all.take(i - 1),
                    capacity,
                    too_large@,
                    packet@,
                    r,
                ) implies encodes_to(*cipher, all, capacity, too_large@, payload@, r) by {
                assert(wraps_to(
                    *cipher,
                    rest.last(),
                    capacity,
                    too_large@,
                    before,
                    Ok(packet@),
                ));
                assert(encodes_to(*cipher, rest, capacity, too_large@, before, r));
            }
        }
        i -= 1;
    }
    assert(encodes_to(*cipher, all.take(0), capacity, too_large@, packet@, Ok(packet@)));
    Ok(packet)
}

/// Each proxy removes exactly its own layer: what the first proxy finds behind
/// its front, and under its key if it has one, is what the rest of the chain
/// would have been sent.
pub proof fn outermost_layer_is_the_first_proxys<
    E: Fn(&[u8], &CryptoConfig) -> Result<Encrypted, IoError>,
>(
    cipher: E,
    layers: Seq<RequestLayerView>,
    capacity: usize,
    too_large: Seq<char>,
    payload: Seq<u8>,
    packet: Seq<u8>,
)
    requires
        layers.len() > 0,
        encodes_to(cipher, layers, capacity, too_large, payload, Ok(packet)),
    ensures
        exists|inner: Seq<u8>|
            {
                &&& #[trigger] encodes_to(
                    cipher,
                    layers.drop_first(),
                    capacity,
                    too_large,
                    payload,
                    Ok(inner),
                )
                &&& wraps_to(cipher, layers.first(), capacity, too_large, inner, Ok(packet))
            },
    decreases layers.len(),
{
    let step = choose|step: Result<Seq<u8>, IoError>| #[trigger]
        wraps_to(cipher, layers.last(), capacity, too_large, payload, step) && match step {
            Err(e) => Ok::<Seq<u8>, IoError>(packet) == Err::<Seq<u8>, IoError>(e),
            Ok(next) => encodes_to(
                cipher,
                layers.drop_last(),
                capacity,
                too_large,
                next,
                Ok(packet),
            ),
        };
    assert(step is Ok);
    let next = step->Ok_0;
    if layers.len() == 1 {
        assert(layers.drop_first() =~= Seq::<RequestLayerView>::empty());
        assert(encodes_to(cipher, layers.drop_first(), capacity, too_large, payload, Ok(payload)));
        assert(layers.drop_last().len() == 0);
        assert(next == packet);
    } else {
        let front = layers.drop_last();
        outermost_layer_is_the_first_proxys(cipher, front, capacity, too_large, next, packet);
        let inner = choose|inner: Seq<u8>|
            {
                &&& #[trigger] encodes_to(
                    cipher,
                    front.drop_first(),
                    capacity,
                    too_large,
                    next,
                    Ok(inner),
                )
                &&& wraps_to(cipher, front.first(), capacity, too_large, inner, Ok(packet))
            };
        let rest = layers.drop_first();
        assert(rest.last() == layers.last());
        assert(rest.drop_last() =~= front.drop_first());
        assert(front.first() == layers.first());
        assert(wraps_to(cipher, rest.last(), capacity, too_large, payload, step));
        assert(encodes_to(cipher, rest, capacity, too_large, payload, Ok(inner)));
    }
}

/// Without payload keys a request is the fronts of all proxies in chain order,
/// followed by the payload.
pub proof fn request_without_keys_is_fronts_and_payload<
    E: Fn(&[u8], &CryptoConfig) -> Result<Encrypted, IoError>,
>(
    cipher: E,
    layers: Seq<RequestLayerView>,
    capacity: usize,
    too_large: Seq<char>,
    payload: Seq<u8>,
    packet: Seq<u8>,
)
    requires
        forall|i: int|
            0 <= i < layers.len() ==> (#[trigger] layers[i]).payload_crypto is None,
        encodes_to(cipher, layers, capacity, too_large, payload, Ok(packet)),
    ensures
        packet == layers.fold_left(
            Seq::<u8>::empty(),
            |front: Seq<u8>, layer: RequestLayerView| front + layer.prefix,
        ) + payload,
    decreases layers.len(),
{
    let fronts = |front: Seq<u8>, layer: RequestLayerView| front + layer.prefix;
    if layers.len() == 0 {
        assert(Seq::<u8>::empty() + payload =~= payload);
    } else {
        let step = choose|step: Result<Seq<u8>, IoError>| #[trigger]
            wraps_to(cipher, layers.last(), capacity, too_large, payload, step) && match step {
                Err(e) => Ok::<Seq<u8>, IoError>(packet) == Err::<Seq<u8>, IoError>(e),
                Ok(next) => encodes_to(
                    cipher,
                    layers.drop_last(),
                    capacity,
                    too_large,
                    next,
                    Ok(packet),
                ),
            };
        assert(step is Ok);
        let next = step->Ok_0;
        assert(layers.last() == layers[layers.len() - 1]);
        assert(layers.last().payload_crypto is None);
        assert(next == layers.last().prefix + payload);
        request_without_keys_is_fronts_and_payload(
            cipher,
            layers.drop_last(),
            capacity,
            too_large,
            next,
            packet,
        );
        let inner_fronts = layers.drop_last().fold_left(Seq::<u8>::empty(), fronts);
        assert(layers.fold_left(Seq::<u8>::empty(), fronts) == inner_fronts
            + layers.last().prefix);
        assert(inner_fronts + (layers.last().prefix + payload) =~= (inner_fronts
            + layers.last().prefix) + payload);
    }
}

/// Why a response could not be peeled, and at which hop of the chain.
#[derive(Debug)]
pub enum PeelError {
    /// The hop's response header could not be read.
    Header(CodecError),
    /// What the hop encrypted could not be decrypted.
    Payload { source: IoError, hop: usize },
    /// The hop answered with an error.
    Response { err: RouteError, hop: usize },
}

/// Whether `read` may answer `out` to the bytes.
pub open spec fn reads_response<
    R: Fn(&[u8], &CryptoConfig) -> Result<(RouteResponse, usize), CodecError>,
>(
    read: R,
    bytes: Seq<u8>,
    crypto: CryptoConfig,
    out: Result<(RouteResponse, usize), CodecError>,
) -> bool {
    exists|b: &[u8]| b@ == bytes && #[trigger] call_ensures(read, (b, &crypto), out)
}

/// The key of the payload behind the `hop`th response header. The last proxy
/// answers an echo itself, so its own key is left aside for a probe.
pub open spec fn payload_key(
    nodes: Seq<HopConfig>,
    through_last: bool,
    hop: int,
) -> Option<CryptoConfig> {
    if hop + 1 < nodes.len() || through_last {
        nodes[hop].payload_crypto
    } else {
        None
    }
}

/// Whether peeling the layers of the hops from `hop` on may end in `r`.
pub open spec fn peels_to<
    R: Fn(&[u8], &CryptoConfig) -> Result<(RouteResponse, usize), CodecError>,
    D: Fn(&[u8], &CryptoConfig, usize) -> Result<Vec<u8>, IoError>,
>(
    read: R,
    decipher: D,
    nodes: Seq<HopConfig>,
    through_last: bool,
    capacity: usize,
    hop: int,
    packet: Seq<u8>,
    r: Result<Seq<u8>, PeelError>,
) -> bool
    decreases nodes.len() - hop,
{
    if hop >= nodes.len() {
        r == Ok::<Seq<u8>, PeelError>(packet)
    } else {
        exists|out: Result<(RouteResponse, usize), CodecError>| #[trigger]
            reads_response(read, packet, nodes[hop].header_crypto, out) && match out {
                Err(e) => r == Err::<Seq<u8>, _>(PeelError::Header(e)),
                Ok((response, consumed)) => match response.result {
                    Err(err) => r == Err::<Seq<u8>, _>(
                        PeelError::Response { err, hop: hop as usize },
                    ),
                    Ok(()) => {
                        let rest = packet.subrange(consumed as int, packet.len() as int);
                        match payload_key(nodes, through_last, hop) {
                            None => peels_to(
                                read,
                                decipher,
                                nodes,
                                through_last,
                                capacity,
                                hop + 1,
                                rest,
                                r,
                            ),
                            Some(crypto) => exists|plain: Result<Seq<u8>, IoError>| #[trigger]
                                decrypts_to(decipher, rest, capacity, crypto, plain)
                                    && match plain {
                                    Err(e) => r == Err::<Seq<u8>, _>(
                                        PeelError::Payload { source: e, hop: hop as usize },
                                    ),
                                    Ok(inner) => peels_to(
                                        read,
                                        decipher,
                                        nodes,
                                        through_last,
                                        capacity,
                                        hop + 1,
                                        inner,
                                        r,
                                    ),
                                },
                        }
                    },
                },
            }
    }
}

/// The bytes of a peeled response.
pub open spec fn peeled_of(r: Result<Vec<u8>, PeelError>) -> Result<Seq<u8>, PeelError> {
    match r {
        Ok(bytes) => Ok(bytes@),
        Err(e) => Err(e),
    }
}

/// Peels the layer of every hop off a response, in chain order: reads the
/// hop's header, gives up if it reports an error, and decrypts what follows if
/// the hop has a key.
pub fn peel_response<
    R: Fn(&[u8], &CryptoConfig) -> Result<(RouteResponse, usize), CodecError>,
    D: Fn(&[u8], &CryptoConfig, usize) -> Result<Vec<u8>, IoError>,
>(
    packet: &[u8],
    nodes: &[HopConfig],
    through_last: bool,
    capacity: usize,
    read: &R,
    decipher: &D,
) -> (r: Result<Vec<u8>, PeelError>)
    requires
        forall|b: &[u8], k: &CryptoConfig| call_requires(*read, (b, k)),
        forall|b: &[u8], k: &CryptoConfig, response: RouteResponse, n: usize| #[trigger]
            call_ensures(*read, (b, k), Ok((response, n))) ==> n <= b@.len(),
        forall|p: &[u8], k: &CryptoConfig, len: usize| call_requires(*decipher, (p, k, len)),
    ensures
        peels_to(
            *read,
            *decipher,
            nodes@,
            through_last,
            capacity,
            0,
            packet@,
            peeled_of(r),
        ),
        r matches Err(PeelError::Payload { hop, .. }) ==> hop < nodes@.len(),
        r matches Err(PeelError::Response { hop, .. }) ==> hop < nodes@.len(),
{
    let mut rest: Vec<u8> = Vec::new();
    rest.extend_from_slice(packet);
    assert(rest@ =~= packet@);
    let mut hop: usize = 0;
    while hop < nodes.len()
        invariant
            hop <= nodes.len(),
            forall|b: &[u8], k: &CryptoConfig| call_requires(*read, (b, k)),
            forall|b: &[u8], k: &CryptoConfig, response: RouteResponse, n: usize| #[trigger]
                call_ensures(*read, (b, k), Ok((response, n))) ==> n <= b@.len(),
            forall|p: &[u8], k: &CryptoConfig, len: usize| call_requires(*decipher, (p, k, len)),
            forall|r: Result<Seq<u8>, PeelError>| #[trigger]
                peels_to(
                    *read,
                    *decipher,
                    nodes@,
                    through_last,
                    capacity,
                    hop as int,
                    rest@,
                    r,
                ) ==> peels_to(
                    *read,
                    *decipher,
                    nodes@,
                    through_last,
                    capacity,
                    0,
                    packet@,
                    r,
                ),
        decreases nodes.len() - hop,
    {
        let ghost before = rest@;
        let node = &nodes[hop];
        let out = read(rest.as_slice(), &node.header_crypto);
        assert(reads_response(*read, before, nodes@[hop as int].header_crypto, out));
        let (response, consumed) = match out {
            Ok(out) => out,
            Err(e) => {
                let r: Result<Vec<u8>, PeelError> = Err(PeelError::Header(e));
                assert(peels_to(
                    *read,
                    *decipher,
                    nodes@,
                    through_last,
                    capacity,
                    hop as int,
                    before,
                    peeled_of(r),
                ));
                return r;
            },
        };
        if let Err(err) = response.result {
            let r: Result<Vec<u8>, PeelError> = Err(PeelError::Response { err, hop });
            assert(peels_to(
                *read,
                *decipher,
                nodes@,
                through_last,
                capacity,
                hop as int,
                before,
                peeled_of(r),
            ));
            return r;
        }
        let remaining = slice_subrange(rest.as_slice(), consumed, rest.len());
        let applies = hop + 1 < nodes.len() || through_last;
        let mut next: Vec<u8> = Vec::new();
        match (applies, &node.payload_crypto) {
            (true, Some(crypto)) => {
                let plain = decrypt_packet_payload(remaining, capacity, crypto, decipher);
                match plain {
                    Ok(inner) => {
                        next = inner;
                    },
                    Err(e) => {
                        let r: Result<Vec<u8>, PeelError> = Err(
                            PeelError::Payload { source: e, hop },
                        );
                        assert(decrypts_to(*decipher, remaining@, capacity, *crypto, Err(e)));
                        assert(peels_to(
                            *read,
                            *decipher,
                            nodes@,
                            through_last,
                            capacity,
                            hop as int,
                            before,
                            peeled_of(r),
                        ));
                        return r;
                    },
                }
                assert(decrypts_to(*decipher, remaining@, capacity, *crypto, Ok(next@)));
            },
            _ => {
                next.extend_from_slice(remaining);
                assert(next@ =~= remaining@);
            },
        }
        proof {
            assert forall|r: Result<Seq<u8>, PeelError>| #[trigger]
                peels_to(
                    *read,
                    *decipher,
                    nodes@,
                    through_last,
                    capacity,
                    hop + 1,
                    next@,
                    r,
                ) implies peels_to(
                *read,
                *decipher,
                nodes@,
                through_last,
                capacity,
                0,
                packet@,
                r,
            ) by {
                assert(peels_to(
                    *read,
                    *decipher,
                    nodes@,
                    through_last,
                    capacity,
                    hop as int,
                    before,
                    r,
                ));
            }
        }
        rest = next;
        hop += 1;
    }
    assert(peels_to(
        *read,
        *decipher,
        nodes@,
        through_last,
        capacity,
        nodes@.len() as int,
        rest@,
        Ok(rest@),
    ));
    Ok(rest)
}

/// Whether the header reader finds in front of the body exactly the header,
/// and in it the answer that the proxy relays.
pub open spec fn header_agrees<
    R: Fn(&[u8], &CryptoConfig) -> Result<(RouteResponse, usize), CodecError>,
>(read: R, crypto: CryptoConfig, header: Seq<u8>, body: Seq<u8>) -> bool {
    forall|out: Result<(RouteResponse, usize), CodecError>| #[trigger]
        reads_response(read, header + body, crypto, out) ==> (out matches Ok((response, n))
            && response.result is Ok && n == header.len())
}

/// Whether one proxy answers with the packet, relaying `inner`: its header,
/// and behind it what it relays, under its key if it has one.
pub open spec fn hop_answers<
    R: Fn(&[u8], &CryptoConfig) -> Result<(RouteResponse, usize), CodecError>,
    E: Fn(&[u8], &CryptoConfig) -> Result<Encrypted, IoError>,
    D: Fn(&[u8], &CryptoConfig, usize) -> Result<Vec<u8>, IoError>,
>(
    read: R,
    cipher: E,
    decipher: D,
    header_crypto: CryptoConfig,
    payload_crypto: Option<CryptoConfig>,
    capacity: usize,
    inner: Seq<u8>,
    packet: Seq<u8>,
) -> bool {
    exists|header: Seq<u8>, body: Seq<u8>| #[trigger]
        header_agrees(read, header_crypto, header, body) && packet == header + body && seals_to(
            cipher,
            payload_crypto,
            capacity,
            inner,
            Ok(body),
        ) && match payload_crypto {
            Some(crypto) => reads_back(cipher, decipher, inner, crypto),
            None => true,
        }
}

/// Whether the hops from `hop` on answer with the packet to the payload.
pub open spec fn answers_as<
    R: Fn(&[u8], &CryptoConfig) -> Result<(RouteResponse, usize), CodecError>,
    E: Fn(&[u8], &CryptoConfig) -> Result<Encrypted, IoError>,
    D: Fn(&[u8], &CryptoConfig, usize) -> Result<Vec<u8>, IoError>,
>(
    read: R,
    cipher: E,
    decipher: D,
    nodes: Seq<HopConfig>,
    through_last: bool,
    capacity: usize,
    hop: int,
    payload: Seq<u8>,
    packet: Seq<u8>,
) -> bool
    decreases nodes.len() - hop,
{
    if hop >= nodes.len() {
        packet == payload
    } else {
        exists|inner: Seq<u8>| #[trigger]
            hop_answers(
                read,
                cipher,
                decipher,
                nodes[hop].header_crypto,
                payload_key(nodes, through_last, hop),
                capacity,
                inner,
                packet,
            ) && answers_as(
                read,
                cipher,
                decipher,
                nodes,
                through_last,
                capacity,
                hop + 1,
                payload,
                inner,
            )
    }
}

/// The client gets back the payload that the far end answered with: peeling
/// undoes what all proxies of the chain put around it.
pub proof fn response_round_trips<
    R: Fn(&[u8], &CryptoConfig) -> Result<(RouteResponse, usize), CodecError>,
    E: Fn(&[u8], &CryptoConfig) -> Result<Encrypted, IoError>,
    D: Fn(&[u8], &CryptoConfig, usize) -> Result<Vec<u8>, IoError>,
>(
    read: R,
    cipher: E,
    decipher: D,
    nodes: Seq<HopConfig>,
    through_last: bool,
    capacity: usize,
    hop: int,
    payload: Seq<u8>,
    packet: Seq<u8>,
    r: Result<Seq<u8>, PeelError>,
)
    requires
        answers_as(
            read,
            cipher,
            decipher,
            nodes,
            through_last,
            capacity,
            hop,
            payload,
            packet,
        ),
        peels_to(read, decipher, nodes, through_last, capacity, hop, packet, r),
    ensures
        r == Ok::<Seq<u8>, PeelError>(payload),
    decreases nodes.len() - hop,
{
    if hop < nodes.len() {
        let node = nodes[hop];
        let key = payload_key(nodes, through_last, hop);
        let inner = choose|inner: Seq<u8>| #[trigger]
            hop_answers(
                read,
                cipher,
                decipher,
                node.header_crypto,
                key,
                capacity,
                inner,
                packet,
            ) && answers_as(
                read,
                cipher,
                decipher,
                nodes,
                through_last,
                capacity,
                hop + 1,
                payload,
                inner,
            );
        let (header, body) = choose|header: Seq<u8>, body: Seq<u8>| #[trigger]
            header_agrees(read, node.header_crypto, header, body) && packet == header + body
                && seals_to(cipher, key, capacity, inner, Ok(body)) && match key {
                Some(crypto) => reads_back(cipher, decipher, inner, crypto),
                None => true,
            };
        assert(packet.subrange(header.len() as int, packet.len() as int) =~= body);
        match key {
            None => {
                response_round_trips(
                    read,
                    cipher,
                    decipher,
                    nodes,
                    through_last,
                    capacity,
                    hop + 1,
                    payload,
                    inner,
                    r,
                );
            },
            Some(crypto) => {
                assert forall|plain: Result<Seq<u8>, IoError>| #[trigger]
                    decrypts_to(decipher, body, capacity, crypto, plain) implies plain == Ok::<
                    Seq<u8>,
                    IoError,
                >(inner) by {
                    let sealed = choose|out: Result<Encrypted, IoError>| #[trigger]
                        ciphers_to(cipher, inner, crypto, out) && match out {
                            Err(e) => Ok::<Seq<u8>, IoError>(body) == Err::<Seq<u8>, IoError>(e),
                            Ok(done) => if done.consumed == inner.len() {
                                Ok::<Seq<u8>, IoError>(body) == Ok::<Seq<u8>, IoError>(
                                    done.output@,
                                )
                            } else {
                                false
                            },
                        };
                    assert(ciphers_to(cipher, inner, crypto, Ok(sealed->Ok_0)));
                    assert(body.len() == inner.len() + X_NONCE_BYTES);
                }
                response_round_trips(
                    read,
                    cipher,
                    decipher,
                    nodes,
                    through_last,
                    capacity,
                    hop + 1,
                    payload,
                    inner,
                    r,
                );
            },
        }
    }
}

/// Whether the `hop`th proxy answered that it relays.
pub open spec fn hop_agreed<
    R: Fn(&[u8], &CryptoConfig) -> Result<(RouteResponse, usize), CodecError>,
>(read: R, nodes: Seq<HopConfig>, hop: int) -> bool {
    exists|bytes: Seq<u8>, response: RouteResponse, n: usize| #[trigger]
        reads_response(read, bytes, nodes[hop].header_crypto, Ok((response, n)))
            && response.result is Ok
}

/// A response is peeled to its payload only if every proxy of the chain
/// answered that it relays.
pub proof fn peeled_response_was_agreed_by_every_hop<
    R: Fn(&[u8], &CryptoConfig) -> Result<(RouteResponse, usize), CodecError>,
    D: Fn(&[u8], &CryptoConfig, usize) -> Result<Vec<u8>, IoError>,
>(
    read: R,
    decipher: D,
    nodes: Seq<HopConfig>,
    through_last: bool,
    capacity: usize,
    hop: int,
    packet: Seq<u8>,
    r: Result<Seq<u8>, PeelError>,
)
    requires
        0 <= hop,
        peels_to(read, decipher, nodes, through_last, capacity, hop, packet, r),
        r is Ok,
    ensures
        forall|i: int| hop <= i < nodes.len() ==> #[trigger] hop_agreed(read, nodes, i),
    decreases nodes.len() - hop,
{
    if hop < nodes.len() {
        let out = choose|out: Result<(RouteResponse, usize), CodecError>| #[trigger]
            reads_response(read, packet, nodes[hop].header_crypto, out) && match out {
                Err(e) => false,
                Ok((response, consumed)) => match response.result {
                    Err(err) => false,
                    Ok(()) => {
                        let rest = packet.subrange(consumed as int, packet.len() as int);
                        match payload_key(nodes, through_last, hop) {
                            None => peels_to(
                                read,
                                decipher,
                                nodes,
                                through_last,
                                capacity,
                                hop + 1,
                                rest,
                                r,
                            ),
                            Some(crypto) => exists|plain: Result<Seq<u8>, IoError>| #[trigger]
                                decrypts_to(decipher, rest, capacity, crypto, plain)
                                    && match plain {
                                    Err(e) => false,
                                    Ok(inner) => peels_to(
                                        read,
                                        decipher,
                                        nodes,
                                        through_last,
                                        capacity,
                                        hop + 1,
                                        inner,
                                        r,
                                    ),
                                },
                        }
                    },
                },
            };
        let (response, consumed) = out->Ok_0;
        assert(reads_response(read, packet, nodes[hop].header_crypto, Ok((response, consumed))));
        assert(hop_agreed(read, nodes, hop));
        let rest = packet.subrange(consumed as int, packet.len() as int);
        match payload_key(nodes, through_last, hop) {
            None => {
                peeled_response_was_agreed_by_every_hop(
                    read,
                    decipher,
                    nodes,
                    through_last,
                    capacity,
                    hop + 1,
                    rest,
                    r,
                );
            },
            Some(crypto) => {
                let plain = choose|plain: Result<Seq<u8>, IoError>| #[trigger]
                    decrypts_to(decipher, rest, capacity, crypto, plain) && match plain {
                        Err(e) => false,
                        Ok(inner) => peels_to(
                            read,
                            decipher,
                            nodes,
                            through_last,
                            capacity,
                            hop + 1,
                            inner,
                            r,
                        ),
                    };
                peeled_response_was_agreed_by_every_hop(
                    read,
                    decipher,
                    nodes,
                    through_last,
                    capacity,
                    hop + 1,
                    plain->Ok_0,
                    r,
                );
            },
        }
    }
}

/// Whether the key opens the sealed bytes, which are a nonce longer, to the
/// plain ones and to nothing else.
pub open spec fn opens_to<D: Fn(&[u8], &CryptoConfig, usize) -> Result<Vec<u8>, IoError>>(
    decipher: D,
    crypto: CryptoConfig,
    sealed: Seq<u8>,
    plain: Seq<u8>,
) -> bool {
    &&& sealed.len() == plain.len() + X_NONCE_BYTES
    &&& forall|p: &[u8], len: usize, out: Result<Vec<u8>, IoError>|
        p@ == sealed && len == plain.len() && #[trigger] call_ensures(
            decipher,
            (p, &crypto, len),
            out,
        ) ==> (out matches Ok(bytes) && bytes@ == plain)
}

/// Whether a hop put this header, with its consent, in front of the body, and
/// the body is what it relayed, under the key if there is one.
spec fn hop_relayed<
    R: Fn(&[u8], &CryptoConfig) -> Result<(RouteResponse, usize), CodecError>,
    D: Fn(&[u8], &CryptoConfig, usize) -> Result<Vec<u8>, IoError>,
>(
    read: R,
    decipher: D,
    capacity: usize,
    header_crypto: CryptoConfig,
    payload_crypto: Option<CryptoConfig>,
    header: Seq<u8>,
    body: Seq<u8>,
    packet: Seq<u8>,
    inner: Seq<u8>,
) -> bool {
    &&& packet == header + body
    &&& header_agrees(read, header_crypto, header, body)
    &&& match payload_crypto {
        None => body == inner,
        Some(crypto) => inner.len() <= capacity && opens_to(decipher, crypto, body, inner),
    }
}

proof fn lemma_opened<D: Fn(&[u8], &CryptoConfig, usize) -> Result<Vec<u8>, IoError>>(
    decipher: D,
    capacity: usize,
    crypto: CryptoConfig,
    body: Seq<u8>,
    inner: Seq<u8>,
    plain: Result<Seq<u8>, IoError>,
)
    requires
        inner.len() <= capacity,
        opens_to(decipher, crypto, body, inner),
        decrypts_to(decipher, body, capacity, crypto, plain),
    ensures
        plain == Ok::<Seq<u8>, IoError>(inner),
{
}

/// Peeling goes on, hop by hop, with what each hop relayed.
proof fn lemma_peeling_gets_to<
    R: Fn(&[u8], &CryptoConfig) -> Result<(RouteResponse, usize), CodecError>,
    D: Fn(&[u8], &CryptoConfig, usize) -> Result<Vec<u8>, IoError>,
>(
    read: R,
    decipher: D,
    nodes: Seq<HopConfig>,
    through_last: bool,
    capacity: usize,
    packets: Seq<Seq<u8>>,
    headers: Seq<Seq<u8>>,
    bodies: Seq<Seq<u8>>,
    h: int,
    r: Result<Seq<u8>, PeelError>,
)
    requires
        0 <= h <= nodes.len(),
        forall|i: int|
            0 <= i < h ==> hop_relayed(
                read,
                decipher,
                capacity,
                nodes[i].header_crypto,
                if i + 1 < nodes.len() || through_last {
                    nodes[i].payload_crypto
                } else {
                    None
                },
                #[trigger] headers[i],
                bodies[i],
                packets[i],
                packets[i + 1],
            ),
        peels_to(read, decipher, nodes, through_last, capacity, 0, packets[0], r),
    ensures
        peels_to(read, decipher, nodes, through_last, capacity, h, packets[h], r),
    decreases h,
{
    if h > 0 {
        let i = h - 1;
        lemma_peeling_gets_to(
            read,
            decipher,
            nodes,
            through_last,
            capacity,
            packets,
            headers,
            bodies,
            i,
            r,
        );
        let header = headers[i];
        let packet = packets[i];
        assert(packet.subrange(header.len() as int, packet.len() as int) =~= bodies[i]);
        if nodes[i].payload_crypto is Some && (i + 1 < nodes.len() || through_last) {
            let crypto = nodes[i].payload_crypto->0;
            assert forall|plain: Result<Seq<u8>, IoError>| #[trigger]
                decrypts_to(decipher, bodies[i], capacity, crypto, plain) implies plain == Ok::<
                Seq<u8>,
                IoError,
            >(packets[h]) by {
                lemma_opened(decipher, capacity, crypto, bodies[i], packets[h], plain);
            }
        }
    }
}

/// A client's flow gets the payload that the far end sent: behind the header of
/// every proxy, the last one included, lies what that proxy relayed, under the
/// payload key that is configured for that very proxy, and all of these come
/// off. `packets` are the datagram as it leaves each proxy, and the payload
/// behind the last.
pub proof fn a_flow_gets_the_payload_behind_every_key<
    R: Fn(&[u8], &CryptoConfig) -> Result<(RouteResponse, usize), CodecError>,
    D: Fn(&[u8], &CryptoConfig, usize) -> Result<Vec<u8>, IoError>,
>(
    read: R,
    decipher: D,
    nodes: Seq<HopConfig>,
    capacity: usize,
    packets: Seq<Seq<u8>>,
    headers: Seq<Seq<u8>>,
    bodies: Seq<Seq<u8>>,
    r: Result<Seq<u8>, PeelError>,
)
    requires
        packets.len() == nodes.len() + 1,
        forall|i: int|
            0 <= i < nodes.len() ==> {
                &&& packets[i] == (#[trigger] headers[i]) + bodies[i]
                &&& header_agrees(read, nodes[i].header_crypto, headers[i], bodies[i])
                &&& match nodes[i].payload_crypto {
                    None => bodies[i] == packets[i + 1],
                    Some(crypto) => packets[i + 1].len() <= capacity && opens_to(
                        decipher,
                        crypto,
                        bodies[i],
                        packets[i + 1],
                    ),
                }
            },
        peels_to(read, decipher, nodes, true, capacity, 0, packets[0], r),
    ensures
        r == Ok::<Seq<u8>, PeelError>(packets.last()),
{
    lemma_peeling_gets_to(
        read,
        decipher,
        nodes,
        true,
        capacity,
        packets,
        headers,
        bodies,
        nodes.len() as int,
        r,
    );
}

/// The last proxy of a probe answers by itself: what is behind its header is
/// under no key of its own, while the keys of all proxies before it come off.
pub proof fn a_probe_gets_the_answer_of_the_last_proxy<
    R: Fn(&[u8], &CryptoConfig) -> Result<(RouteResponse, usize), CodecError>,
    D: Fn(&[u8], &CryptoConfig, usize) -> Result<Vec<u8>, IoError>,
>(
    read: R,
    decipher: D,
    nodes: Seq<HopConfig>,
    capacity: usize,
    packets: Seq<Seq<u8>>,
    headers: Seq<Seq<u8>>,
    bodies: Seq<Seq<u8>>,
    r: Result<Seq<u8>, PeelError>,
)
    requires
        nodes.len() > 0,
        packets.len() == nodes.len() + 1,
        forall|i: int|
            0 <= i < nodes.len() ==> {
                &&& packets[i] == (#[trigger] headers[i]) + bodies[i]
                &&& header_agrees(read, nodes[i].header_crypto, headers[i], bodies[i])
                &&& match nodes[i].payload_crypto {
                    Some(crypto) if i < nodes.len() - 1 => packets[i + 1].len() <= capacity
                        && opens_to(decipher, crypto, bodies[i], packets[i + 1]),
                    _ => bodies[i] == packets[i + 1],
                }
            },
        peels_to(read, decipher, nodes, false, capacity, 0, packets[0], r),
    ensures
        r == Ok::<Seq<u8>, PeelError>(packets.last()),
{
    lemma_peeling_gets_to(
        read,
        decipher,
        nodes,
        false,
        capacity,
        packets,
        headers,
        bodies,
        nodes.len() as int,
        r,
    );
}

/// A response in which the header of some proxy cannot be read is refused with
/// the reader's error, whatever lies behind that header.
pub proof fn an_unreadable_header_is_refused<
    R: Fn(&[u8], &CryptoConfig) -> Result<(RouteResponse, usize), CodecError>,
    D: Fn(&[u8], &CryptoConfig, usize) -> Result<Vec<u8>, IoError>,
>(
    read: R,
    decipher: D,
    nodes: Seq<HopConfig>,
    capacity: usize,
    packets: Seq<Seq<u8>>,
    headers: Seq<Seq<u8>>,
    bodies: Seq<Seq<u8>>,
    h: int,
    e: CodecError,
    r: Result<Seq<u8>, PeelError>,
)
    requires
        nodes.len() <= usize::MAX,
        0 <= h < nodes.len(),
        forall|i: int|
            0 <= i < h ==> {
                &&& packets[i] == (#[trigger] headers[i]) + bodies[i]
                &&& header_agrees(read, nodes[i].header_crypto, headers[i], bodies[i])
                &&& match nodes[i].payload_crypto {
                    None => bodies[i] == packets[i + 1],
                    Some(crypto) => packets[i + 1].len() <= capacity && opens_to(
                        decipher,
                        crypto,
                        bodies[i],
                        packets[i + 1],
                    ),
                }
            },
        forall|out: Result<(RouteResponse, usize), CodecError>| #[trigger]
            reads_response(read, packets[h], nodes[h].header_crypto, out) ==> out == Err::<
                (RouteResponse, usize),
                CodecError,
            >(e),
        peels_to(read, decipher, nodes, true, capacity, 0, packets[0], r),
    ensures
        r == Err::<Seq<u8>, PeelError>(PeelError::Header(e)),
{
    lemma_peeling_gets_to(
        read,
        decipher,
        nodes,
        true,
        capacity,
        packets,
        headers,
        bodies,
        h,
        r,
    );
}

/// A proxy that answers with an error is named, with its error, once the headers
/// of the proxies before it agreed.
pub proof fn the_first_hop_that_refuses_is_named<
    R: Fn(&[u8], &CryptoConfig) -> Result<(RouteResponse, usize), CodecError>,
    D: Fn(&[u8], &CryptoConfig, usize) -> Result<Vec<u8>, IoError>,
>(
    read: R,
    decipher: D,
    nodes: Seq<HopConfig>,
    capacity: usize,
    packets: Seq<Seq<u8>>,
    headers: Seq<Seq<u8>>,
    bodies: Seq<Seq<u8>>,
    h: int,
    err: RouteError,
    r: Result<Seq<u8>, PeelError>,
)
    requires
        nodes.len() <= usize::MAX,
        0 <= h < nodes.len(),
        forall|i: int|
            0 <= i < h ==> {
                &&& packets[i] == (#[trigger] headers[i]) + bodies[i]
                &&& header_agrees(read, nodes[i].header_crypto, headers[i], bodies[i])
                &&& match nodes[i].payload_crypto {
                    None => bodies[i] == packets[i + 1],
                    Some(crypto) => packets[i + 1].len() <= capacity && opens_to(
                        decipher,
                        crypto,
                        bodies[i],
                        packets[i + 1],
                    ),
                }
            },
        forall|out: Result<(RouteResponse, usize), CodecError>| #[trigger]
            reads_response(read, packets[h], nodes[h].header_crypto, out) ==> (out matches Ok(
                (response, _),
            ) && response.result == Err::<(), RouteError>(err)),
        peels_to(read, decipher, nodes, true, capacity, 0, packets[0], r),
    ensures
        r == Err::<Seq<u8>, PeelError>(PeelError::Response { err, hop: h as usize }),
{
    lemma_peeling_gets_to(
        read,
        decipher,
        nodes,
        true,
        capacity,
        packets,
        headers,
        bodies,
        h,
        r,
    );
}

/// A proxy whose payload its key does not open is named: the sealed bytes are
/// shorter than a nonce, or they are not what the cipher takes.
pub proof fn the_first_hop_that_cannot_be_opened_is_named<
    R: Fn(&[u8], &CryptoConfig) -> Result<(RouteResponse, usize), CodecError>,
    D: Fn(&[u8], &CryptoConfig, usize) -> Result<Vec<u8>, IoError>,
>(
    read: R,
    decipher: D,
    nodes: Seq<HopConfig>,
    capacity: usize,
    packets: Seq<Seq<u8>>,
    headers: Seq<Seq<u8>>,
    bodies: Seq<Seq<u8>>,
    h: int,
    crypto: CryptoConfig,
    header: Seq<u8>,
    body: Seq<u8>,
    r: Result<Seq<u8>, PeelError>,
)
    requires
        nodes.len() <= usize::MAX,
        0 <= h < nodes.len(),
        forall|i: int|
            0 <= i < h ==> {
                &&& packets[i] == (#[trigger] headers[i]) + bodies[i]
                &&& header_agrees(read, nodes[i].header_crypto, headers[i], bodies[i])
                &&& match nodes[i].payload_crypto {
                    None => bodies[i] == packets[i + 1],
                    Some(crypto) => packets[i + 1].len() <= capacity && opens_to(
                        decipher,
                        crypto,
                        bodies[i],
                        packets[i + 1],
                    ),
                }
            },
        nodes[h].payload_crypto == Some(crypto),
        packets[h] == header + body,
        header_agrees(read, nodes[h].header_crypto, header, body),
        body.len() <= capacity,
        forall|p: &[u8], len: usize, out: Result<Vec<u8>, IoError>|
            p@ == body && #[trigger] call_ensures(decipher, (p, &crypto, len), out) ==> out is Err,
        peels_to(read, decipher, nodes, true, capacity, 0, packets[0], r),
    ensures
        r matches Err(PeelError::Payload { hop, .. }) && hop == h,
        body.len() < X_NONCE_BYTES ==> (r->Err_0->Payload_source).kind is UnexpectedEof,
        body.len() >= X_NONCE_BYTES ==> exists|p: &[u8], len: usize|
            p@ == body && len + X_NONCE_BYTES == body.len() && #[trigger] call_ensures(
                decipher,
                (p, &crypto, len),
                Err::<Vec<u8>, IoError>(r->Err_0->Payload_source),
            ),
{
    lemma_peeling_gets_to(
        read,
        decipher,
        nodes,
        true,
        capacity,
        packets,
        headers,
        bodies,
        h,
        r,
    );
    let packet = packets[h];
    assert(packet.subrange(header.len() as int, packet.len() as int) =~= body);
    let plain = choose|plain: Result<Seq<u8>, IoError>| #[trigger]
        decrypts_to(decipher, body, capacity, crypto, plain) && plain == Err::<Seq<u8>, IoError>(
            r->Err_0->Payload_source,
        );
    decrypting_hands_on_what_the_cipher_read(decipher, body, capacity, crypto, plain);
}

/// Around the payload lie the layers of all proxies, the first outermost. Each
/// is its front, and behind it what the layers inside it come to: as it is
/// where the layer has no key, and otherwise as the cipher writes the whole of
/// it under that key.
pub proof fn a_layer_is_its_front_and_what_the_cipher_wrote<
    E: Fn(&[u8], &CryptoConfig) -> Result<Encrypted, IoError>,
>(
    cipher: E,
    layers: Seq<RequestLayerView>,
    capacity: usize,
    too_large: Seq<char>,
    payload: Seq<u8>,
    packet: Seq<u8>,
)
    requires
        encodes_to(cipher, layers, capacity, too_large, payload, Ok(packet)),
    ensures
        layers.len() == 0 ==> packet == payload,
        layers.len() > 0 ==> exists|inner: Seq<u8>, body: Seq<u8>|
            {
                &&& #[trigger] encodes_to(
                    cipher,
                    layers.skip(1),
                    capacity,
                    too_large,
                    payload,
                    Ok(inner),
                )
                &&& packet == #[trigger] (layers[0].prefix + body)
                &&& match layers[0].payload_crypto {
                    None => body == inner,
                    Some(crypto) => exists|p: &[u8], done: Encrypted|
                        {
                            &&& #[trigger] call_ensures(cipher, (p, &crypto), Ok(done))
                            &&& p@ == inner
                            &&& done.consumed == inner.len()
                            &&& done.output@ == body
                        },
                }
            },
{
    if layers.len() > 0 {
        outermost_layer_is_the_first_proxys(cipher, layers, capacity, too_large, payload, packet);
        let inner = choose|inner: Seq<u8>|
            {
                &&& #[trigger] encodes_to(
                    cipher,
                    layers.drop_first(),
                    capacity,
                    too_large,
                    payload,
                    Ok(inner),
                )
                &&& wraps_to(cipher, layers.first(), capacity, too_large, inner, Ok(packet))
            };
        assert(layers.drop_first() =~= layers.skip(1));
        let sealed = choose|sealed: Result<Seq<u8>, IoError>| #[trigger]
            seals_to(cipher, layers.first().payload_crypto, capacity, inner, sealed)
                && match sealed {
                Err(e) => Ok::<Seq<u8>, IoError>(packet) == Err::<Seq<u8>, IoError>(e),
                Ok(body) => packet == layers.first().prefix + body,
            };
        let body = sealed->Ok_0;
        assert(packet == layers[0].prefix + body);
        if layers[0].payload_crypto is Some {
            let crypto = layers[0].payload_crypto->0;
            let out = choose|out: Result<Encrypted, IoError>| #[trigger]
                ciphers_to(cipher, inner, crypto, out) && match out {
                    Err(e) => sealed == Err::<Seq<u8>, IoError>(e),
                    Ok(done) => done.consumed == inner.len() && sealed == Ok::<Seq<u8>, IoError>(
                        done.output@,
                    ),
                };
            let p = choose|p: &[u8]|
                p@ == inner && #[trigger] call_ensures(cipher, (p, &crypto), out);
            assert(call_ensures(cipher, (p, &crypto), Ok(out->Ok_0)));
        }
    }
}

/// How long a request is: the payload, the fronts of all layers, and a nonce
/// for each layer that has a key.
pub open spec fn request_len(layers: Seq<RequestLayerView>, payload_len: nat) -> nat
    decreases layers.len(),
{
    if layers.len() == 0 {
        payload_len
    } else {
        request_len(layers.skip(1), payload_len) + layers[0].prefix.len()
            + if layers[0].payload_crypto is Some {
            X_NONCE_BYTES as nat
        } else {
            0
        }
    }
}

proof fn lemma_request_len_from_behind(layers: Seq<RequestLayerView>, payload_len: nat)
    requires
        layers.len() > 0,
    ensures
        request_len(layers, payload_len) == request_len(
            layers.drop_last(),
            payload_len + layers.last().prefix.len() + if layers.last().payload_crypto is Some {
                X_NONCE_BYTES as nat
            } else {
                0
            },
        ),
    decreases layers.len(),
{
    reveal_with_fuel(request_len, 2);
    if layers.len() == 1 {
        assert(layers.skip(1) =~= Seq::<RequestLayerView>::empty());
        assert(layers.drop_last() =~= Seq::<RequestLayerView>::empty());
    } else {
        lemma_request_len_from_behind(layers.skip(1), payload_len);
        assert(layers.skip(1).drop_last() =~= layers.drop_last().skip(1));
        assert(layers.skip(1).last() == layers.last());
    }
}

proof fn lemma_request_len_grows(layers: Seq<RequestLayerView>, payload_len: nat)
    ensures
        request_len(layers, payload_len) >= payload_len,
    decreases layers.len(),
{
    if layers.len() > 0 {
        lemma_request_len_grows(layers.skip(1), payload_len);
    }
}

/// Whether the cipher takes any packet in whole, and writes a nonce and as many
/// bytes.
pub open spec fn writes_a_nonce_more<E: Fn(&[u8], &CryptoConfig) -> Result<Encrypted, IoError>>(
    cipher: E,
) -> bool {
    forall|p: &[u8], crypto: &CryptoConfig, out: Result<Encrypted, IoError>| #[trigger]
        call_ensures(cipher, (p, crypto), out) ==> (out matches Ok(done) && done.consumed
            == p@.len() && done.output@.len() == p@.len() + X_NONCE_BYTES)
}

/// A request is encoded exactly if it is not longer than may be, and is then as
/// long as its payload, its fronts and its nonces are together.
pub proof fn a_request_is_encoded_exactly_if_it_fits<
    E: Fn(&[u8], &CryptoConfig) -> Result<Encrypted, IoError>,
>(
    cipher: E,
    layers: Seq<RequestLayerView>,
    capacity: usize,
    too_large: Seq<char>,
    payload: Seq<u8>,
    r: Result<Seq<u8>, IoError>,
)
    requires
        layers.len() > 0,
        writes_a_nonce_more(cipher),
        encodes_to(cipher, layers, capacity, too_large, payload, r),
    ensures
        match r {
            Ok(packet) => packet.len() == request_len(layers, payload.len()) && packet.len()
                <= capacity,
            Err(_) => request_len(layers, payload.len()) > capacity,
        },
    decreases layers.len(),
{
    let last = layers.last();
    let rest = layers.drop_last();
    let nonce: nat = if last.payload_crypto is Some {
        X_NONCE_BYTES as nat
    } else {
        0
    };
    lemma_request_len_from_behind(layers, payload.len());
    lemma_request_len_grows(rest, payload.len() + last.prefix.len() + nonce);
    let step = choose|step: Result<Seq<u8>, IoError>| #[trigger]
        wraps_to(cipher, last, capacity, too_large, payload, step) && match step {
            Err(e) => r == Err::<Seq<u8>, IoError>(e),
            Ok(next) => encodes_to(cipher, rest, capacity, too_large, next, r),
        };
    if step is Ok {
        if rest.len() > 0 {
            a_request_is_encoded_exactly_if_it_fits(
                cipher,
                rest,
                capacity,
                too_large,
                step->Ok_0,
                r,
            );
        }
    }
}

/// What is taken for the header of a hop is what the reader answered to the
/// bytes themselves, under that hop's key.
pub proof fn a_header_is_what_the_reader_answered<
    R: Fn(&[u8], &CryptoConfig) -> Result<(RouteResponse, usize), CodecError>,
>(
    read: R,
    bytes: Seq<u8>,
    crypto: CryptoConfig,
    out: Result<(RouteResponse, usize), CodecError>,
)
    ensures
        reads_response(read, bytes, crypto, out) <==> exists|b: &[u8]|
            b@ == bytes && #[trigger] call_ensures(read, (b, &crypto), out),
{
}

/// A cipher that fails on the payload fails the request, with the cipher's own
/// error.
pub proof fn a_cipher_that_fails_fails_the_request<
    E: Fn(&[u8], &CryptoConfig) -> Result<Encrypted, IoError>,
>(
    cipher: E,
    layers: Seq<RequestLayerView>,
    capacity: usize,
    too_large: Seq<char>,
    payload: Seq<u8>,
    crypto: CryptoConfig,
    e: IoError,
    r: Result<Seq<u8>, IoError>,
)
    requires
        layers.len() > 0,
        layers.last().payload_crypto == Some(crypto),
        payload.len() + X_NONCE_BYTES <= capacity,
        forall|p: &[u8], out: Result<Encrypted, IoError>|
            p@ == payload && #[trigger] call_ensures(cipher, (p, &crypto), out) ==> out == Err::<
                Encrypted,
                IoError,
            >(e),
        encodes_to(cipher, layers, capacity, too_large, payload, r),
    ensures
        r == Err::<Seq<u8>, IoError>(e),
{
}

/// A request without payload keys that is longer than may be is refused in the
/// caller's words.
pub proof fn an_oversized_request_is_refused_in_words<
    E: Fn(&[u8], &CryptoConfig) -> Result<Encrypted, IoError>,
>(
    cipher: E,
    layers: Seq<RequestLayerView>,
    capacity: usize,
    too_large: Seq<char>,
    payload: Seq<u8>,
    r: Result<Seq<u8>, IoError>,
)
    requires
        layers.len() > 0,
        forall|i: int| 0 <= i < layers.len() ==> (#[trigger] layers[i]).payload_crypto is None,
        capacity < request_len(layers, payload.len()) <= usize::MAX,
        encodes_to(cipher, layers, capacity, too_large, payload, r),
    ensures
        r matches Err(e) && e.kind is InvalidInput && e.message@ == too_large,
    decreases layers.len(),
{
    let last = layers.last();
    let rest = layers.drop_last();
    assert(layers[layers.len() - 1] == last);
    lemma_request_len_from_behind(layers, payload.len());
    lemma_request_len_grows(rest, payload.len() + last.prefix.len());
    let step = choose|step: Result<Seq<u8>, IoError>| #[trigger]
        wraps_to(cipher, last, capacity, too_large, payload, step) && match step {
            Err(e) => r == Err::<Seq<u8>, IoError>(e),
            Ok(next) => encodes_to(cipher, rest, capacity, too_large, next, r),
        };
    if step is Ok {
        if rest.len() > 0 {
            assert forall|i: int| 0 <= i < rest.len() implies (
            #[trigger] rest[i]).payload_crypto is None by {
                assert(layers[i] == rest[i]);
            }
            an_oversized_request_is_refused_in_words(
                cipher,
                rest,
                capacity,
                too_large,
                step->Ok_0,
                r,
            );
        }
    }
}

/// The view of a stack of layers has the front and the key of each, in order.
pub proof fn layers_are_viewed_one_by_one(layers: Seq<RequestLayer>, i: int)
    requires
        0 <= i < layers.len(),
    ensures
        layers_view(layers).len() == layers.len(),
        layers_view(layers)[i].prefix == layers[i].prefix@,
        layers_view(layers)[i].payload_crypto == layers[i].payload_crypto,
{
}

/// What a response was peeled to is all of its bytes, and its error is its
/// error.
pub proof fn the_peeled_bytes_are_all_of_them(bytes: Vec<u8>, e: PeelError)
    ensures
        peeled_of(Ok(bytes)) == Ok::<Seq<u8>, PeelError>(bytes@),
        peeled_of(Err(e)) == Err::<Seq<u8>, PeelError>(e),
{
}

} // verus!
