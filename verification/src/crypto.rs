//! Encrypting and decrypting the payload of one datagram.
//!
//! The cipher itself is passed in as a function. What is decided here is
//! whether a packet fits and whether the cipher did its whole work.

use vstd::prelude::*;
use crate::io::{ErrorKind, IoError};

verus! {

/// The length of a cipher key, in bytes.
pub const KEY_BYTES: usize = 32;

/// The length of the nonce in front of every encrypted packet, in bytes.
pub const X_NONCE_BYTES: usize = 24;

/// A cipher key.
#[derive(Debug, Clone, Copy, PartialEq, Eq, Hash)]
pub struct CryptoConfig {
    pub key: [u8; KEY_BYTES],
}

/// What the cipher wrote, and how much of the packet it took in.
#[derive(Debug)]
pub struct Encrypted {
    pub output: Vec<u8>,
    pub consumed: usize,
}

/// Which way a relay transforms the packets that go upstream.
#[derive(Debug, Clone, Copy, PartialEq, Eq, Structural)]
pub enum EncryptionDirection {
    Encrypt,
    Decrypt,
}

impl EncryptionDirection {
    /// The opposite direction.
    pub open spec fn spec_flip(self) -> Self {
        match self {
            EncryptionDirection::Encrypt => EncryptionDirection::Decrypt,
            EncryptionDirection::Decrypt => EncryptionDirection::Encrypt,
        }
    }

    pub fn flip(&self) -> (r: Self)
        ensures
            r == self.spec_flip(),
    {
        match self {
            EncryptionDirection::Encrypt => EncryptionDirection::Decrypt,
            EncryptionDirection::Decrypt => EncryptionDirection::Encrypt,
        }
    }
}

/// What one direction of a relay encrypts the other decrypts: the opposite of
/// the opposite is the direction itself, and never the same one.
pub proof fn flip_is_an_involution(direction: EncryptionDirection)
    ensures
        direction.spec_flip() != direction,
        direction.spec_flip().spec_flip() == direction,
{
}

/// Whether `cipher` may answer `out` to the plain packet.
pub open spec fn ciphers_to<E: Fn(&[u8], &CryptoConfig) -> Result<Encrypted, IoError>>(
    cipher: E,
    packet: Seq<u8>,
    crypto: CryptoConfig,
    out: Result<Encrypted, IoError>,
) -> bool {
    exists|p: &[u8]| p@ == packet && #[trigger] call_ensures(cipher, (p, &crypto), out)
}

/// Whether `decipher` may answer `out` when asked for `len` bytes of the
/// encrypted packet.
pub open spec fn deciphers_to<D: Fn(&[u8], &CryptoConfig, usize) -> Result<Vec<u8>, IoError>>(
    decipher: D,
    packet: Seq<u8>,
    crypto: CryptoConfig,
    len: usize,
    out: Result<Vec<u8>, IoError>,
) -> bool {
    exists|p: &[u8]| p@ == packet && #[trigger] call_ensures(decipher, (p, &crypto, len), out)
}

/// The bytes of a result that may be an error.
pub open spec fn bytes_of(r: Result<Vec<u8>, IoError>) -> Result<Seq<u8>, IoError> {
    match r {
        Ok(bytes) => Ok(bytes@),
        Err(e) => Err(e),
    }
}

/// Whether encrypting the packet into a buffer of `capacity` bytes may end in
/// `r`: it must fit with its nonce, and the cipher must take in all of it.
pub open spec fn encrypts_to<E: Fn(&[u8], &CryptoConfig) -> Result<Encrypted, IoError>>(
    cipher: E,
    packet: Seq<u8>,
    capacity: usize,
    crypto: CryptoConfig,
    r: Result<Seq<u8>, IoError>,
) -> bool {
    if packet.len() + X_NONCE_BYTES > usize::MAX {
        r matches Err(e) && e.kind == ErrorKind::InvalidInput && e.message@
            == "packet length overflow"@
    } else if packet.len() + X_NONCE_BYTES > capacity {
        r matches Err(e) && e.kind == ErrorKind::WriteZero && e.message@
            == "encrypted packet does not fit in output buffer"@
    } else {
        exists|out: Result<Encrypted, IoError>| #[trigger]
            ciphers_to(cipher, packet, crypto, out) && match out {
                Err(e) => r == Err::<Seq<u8>, IoError>(e),
                Ok(done) => if done.consumed == packet.len() {
                    r == Ok::<Seq<u8>, IoError>(done.output@)
                } else {
                    r matches Err(e) && e.kind == ErrorKind::WriteZero && e.message@
                        == "payload cipher did not consume the whole packet"@
                },
            }
    }
}

/// Whether decrypting the packet into a buffer of `capacity` bytes may end in
/// `r`: what follows the nonce must fit, and the cipher must produce all of it.
pub open spec fn decrypts_to<D: Fn(&[u8], &CryptoConfig, usize) -> Result<Vec<u8>, IoError>>(
    decipher: D,
    packet: Seq<u8>,
    capacity: usize,
    crypto: CryptoConfig,
    r: Result<Seq<u8>, IoError>,
) -> bool {
    if packet.len() < X_NONCE_BYTES {
        r matches Err(e) && e.kind == ErrorKind::UnexpectedEof && e.message@
            == "encrypted packet has no nonce"@
    } else if packet.len() - X_NONCE_BYTES > capacity {
        r matches Err(e) && e.kind == ErrorKind::WriteZero && e.message@
            == "decrypted packet does not fit in output buffer"@
    } else {
        exists|out: Result<Vec<u8>, IoError>| #[trigger]
            deciphers_to(
                decipher,
                packet,
                crypto,
                (packet.len() - X_NONCE_BYTES) as usize,
                out,
            ) && match out {
                Err(e) => r == Err::<Seq<u8>, IoError>(e),
                Ok(plain) => if plain@.len() == packet.len() - X_NONCE_BYTES {
                    r == Ok::<Seq<u8>, IoError>(plain@)
                } else {
                    r matches Err(e) && e.kind == ErrorKind::UnexpectedEof && e.message@
                        == "payload cipher did not produce the whole packet"@
                },
            }
    }
}

/// Encrypts one packet into at most `capacity` bytes.
pub fn encrypt_packet_payload<E: Fn(&[u8], &CryptoConfig) -> Result<Encrypted, IoError>>(
    packet: &[u8],
    capacity: usize,
    crypto: &CryptoConfig,
    cipher: &E,
) -> (r: Result<Vec<u8>, IoError>)
    requires
        forall|p: &[u8]| call_requires(*cipher, (p, crypto)),
    ensures
        encrypts_to(*cipher, packet@, capacity, *crypto, bytes_of(r)),
{
    let required: usize = match packet.len().checked_add(X_NONCE_BYTES) {
        Some(required) => required,
        None => {
            return Err(IoError::new(ErrorKind::InvalidInput, "packet length overflow"));
        },
    };
    if required > capacity {
        return Err(
            IoError::new(
                ErrorKind::WriteZero,
                "encrypted packet does not fit in output buffer",
            ),
        );
    }
    let out = cipher(packet, crypto);
    assert(ciphers_to(*cipher, packet@, *crypto, out));
    match out {
        Err(e) => Err(e),
        Ok(done) => {
            if done.consumed != packet.len() {
                return Err(
                    IoError::new(
                        ErrorKind::WriteZero,
                        "payload cipher did not consume the whole packet",
                    ),
                );
            }
            Ok(done.output)
        },
    }
}

/// Decrypts one packet into at most `capacity` bytes.
pub fn decrypt_packet_payload<D: Fn(&[u8], &CryptoConfig, usize) -> Result<Vec<u8>, IoError>>(
    packet: &[u8],
    capacity: usize,
    crypto: &CryptoConfig,
    decipher: &D,
) -> (r: Result<Vec<u8>, IoError>)
    requires
        forall|p: &[u8], len: usize| call_requires(*decipher, (p, crypto, len)),
    ensures
        decrypts_to(*decipher, packet@, capacity, *crypto, bytes_of(r)),
{
    if packet.len() < X_NONCE_BYTES {
        return Err(IoError::new(ErrorKind::UnexpectedEof, "encrypted packet has no nonce"));
    }
    let output_len: usize = packet.len() - X_NONCE_BYTES;
    if output_len > capacity {
        return Err(
            IoError::new(
                ErrorKind::WriteZero,
                "decrypted packet does not fit in output buffer",
            ),
        );
    }
    let out = decipher(packet, crypto, output_len);
    assert(deciphers_to(*decipher, packet@, *crypto, output_len, out));
    match out {
        Err(e) => Err(e),
        Ok(plain) => {
            if plain.len() != output_len {
                return Err(
                    IoError::new(
                        ErrorKind::UnexpectedEof,
                        "payload cipher did not produce the whole packet",
                    ),
                );
            }
            Ok(plain)
        },
    }
}

/// Whether the cipher may answer `out` in the given direction.
pub open spec fn direction_yields<
    E: Fn(&[u8], &CryptoConfig) -> Result<Encrypted, IoError>,
    D: Fn(&[u8], &CryptoConfig, usize) -> Result<Vec<u8>, IoError>,
>(
    cipher: E,
    decipher: D,
    packet: Seq<u8>,
    capacity: usize,
    crypto: CryptoConfig,
    direction: EncryptionDirection,
    out: Result<Seq<u8>, IoError>,
) -> bool {
    match direction {
        EncryptionDirection::Encrypt => encrypts_to(cipher, packet, capacity, crypto, out),
        EncryptionDirection::Decrypt => decrypts_to(decipher, packet, capacity, crypto, out),
    }
}

/// Whether transforming the packet in the given direction may end in `r`.
pub open spec fn transforms_to<
    E: Fn(&[u8], &CryptoConfig) -> Result<Encrypted, IoError>,
    D: Fn(&[u8], &CryptoConfig, usize) -> Result<Vec<u8>, IoError>,
>(
    cipher: E,
    decipher: D,
    packet: Seq<u8>,
    capacity: usize,
    crypto: CryptoConfig,
    direction: EncryptionDirection,
    r: Option<Seq<u8>>,
) -> bool {
    exists|out: Result<Seq<u8>, IoError>| #[trigger]
        direction_yields(cipher, decipher, packet, capacity, crypto, direction, out) && match out {
            Ok(transformed) => r == Some(transformed),
            Err(_) => r is None,
        }
}

/// Applies the payload cipher in the given direction. A packet that cannot be
/// transformed is given up.
pub fn send_dyn<
    E: Fn(&[u8], &CryptoConfig) -> Result<Encrypted, IoError>,
    D: Fn(&[u8], &CryptoConfig, usize) -> Result<Vec<u8>, IoError>,
>(
    packet: &[u8],
    capacity: usize,
    crypto: &CryptoConfig,
    direction: EncryptionDirection,
    cipher: &E,
    decipher: &D,
) -> (r: Option<Vec<u8>>)
    requires
        forall|p: &[u8]| call_requires(*cipher, (p, crypto)),
        forall|p: &[u8], len: usize| call_requires(*decipher, (p, crypto, len)),
    ensures
        transforms_to(
            *cipher,
            *decipher,
            packet@,
            capacity,
            *crypto,
            direction,
            match r {
                Some(transformed) => Some(transformed@),
                None => None,
            },
        ),
{
    let out = match direction {
        EncryptionDirection::Encrypt => encrypt_packet_payload(packet, capacity, crypto, cipher),
        EncryptionDirection::Decrypt => decrypt_packet_payload(packet, capacity, crypto, decipher),
    };
    assert(direction_yields(
        *cipher,
        *decipher,
        packet@,
        capacity,
        *crypto,
        direction,
        bytes_of(out),
    ));
    match out {
        Ok(transformed) => Some(transformed),
        Err(_) => None,
    }
}

/// A packet that is too big to encrypt is dropped whatever the cipher does.
pub proof fn oversized_packet_is_dropped<
    E: Fn(&[u8], &CryptoConfig) -> Result<Encrypted, IoError>,
    D: Fn(&[u8], &CryptoConfig, usize) -> Result<Vec<u8>, IoError>,
>(
    cipher: E,
    decipher: D,
    packet: Seq<u8>,
    capacity: usize,
    crypto: CryptoConfig,
    r: Option<Seq<u8>>,
)
    requires
        packet.len() + X_NONCE_BYTES > capacity,
        transforms_to(
            cipher,
            decipher,
            packet,
            capacity,
            crypto,
            EncryptionDirection::Encrypt,
            r,
        ),
    ensures
        r is None,
{
}

/// A packet that is too short to hold a nonce is dropped whatever the cipher
/// does.
pub proof fn packet_without_nonce_is_dropped<
    E: Fn(&[u8], &CryptoConfig) -> Result<Encrypted, IoError>,
    D: Fn(&[u8], &CryptoConfig, usize) -> Result<Vec<u8>, IoError>,
>(
    cipher: E,
    decipher: D,
    packet: Seq<u8>,
    capacity: usize,
    crypto: CryptoConfig,
    r: Option<Seq<u8>>,
)
    requires
        packet.len() < X_NONCE_BYTES,
        transforms_to(
            cipher,
            decipher,
            packet,
            capacity,
            crypto,
            EncryptionDirection::Decrypt,
            r,
        ),
    ensures
        r is None,
{
}

/// Whether the cipher writes a nonce and the whole packet, and reads back what
/// it wrote. The cipher is the caller's: that it does so is nowhere shown here.
pub open spec fn reads_back<
    E: Fn(&[u8], &CryptoConfig) -> Result<Encrypted, IoError>,
    D: Fn(&[u8], &CryptoConfig, usize) -> Result<Vec<u8>, IoError>,
>(cipher: E, decipher: D, packet: Seq<u8>, crypto: CryptoConfig) -> bool {
    &&& forall|out: Result<Encrypted, IoError>| #[trigger]
        ciphers_to(cipher, packet, crypto, out) ==> (out matches Ok(done) && done.consumed
            == packet.len() && done.output@.len() == packet.len() + X_NONCE_BYTES)
    &&& forall|done: Encrypted, len: usize, out: Result<Vec<u8>, IoError>|
        len == packet.len() && #[trigger] ciphers_to(cipher, packet, crypto, Ok(done))
            && #[trigger] deciphers_to(decipher, done.output@, crypto, len, out) ==> (
        out matches Ok(plain) && plain@ == packet)
}

/// A packet that does not fit with its nonce is dropped, whatever the cipher
/// does. With a cipher that reads back what it wrote, any other is encrypted to
/// its length and a nonce's, and comes back as it was.
pub proof fn packet_round_trips_exactly_if_it_fits<
    E: Fn(&[u8], &CryptoConfig) -> Result<Encrypted, IoError>,
    D: Fn(&[u8], &CryptoConfig, usize) -> Result<Vec<u8>, IoError>,
>(
    cipher: E,
    decipher: D,
    packet: Seq<u8>,
    capacity: usize,
    crypto: CryptoConfig,
    encrypted: Option<Seq<u8>>,
    decrypted: Option<Seq<u8>>,
)
    requires
        packet.len() + X_NONCE_BYTES <= capacity ==> reads_back(cipher, decipher, packet, crypto),
        transforms_to(
            cipher,
            decipher,
            packet,
            capacity,
            crypto,
            EncryptionDirection::Encrypt,
            encrypted,
        ),
        encrypted matches Some(e) ==> transforms_to(
            cipher,
            decipher,
            e,
            capacity,
            crypto,
            EncryptionDirection::Decrypt,
            decrypted,
        ),
    ensures
        if packet.len() + X_NONCE_BYTES > capacity {
            encrypted is None
        } else {
            &&& encrypted matches Some(e)
            &&& e.len() == packet.len() + X_NONCE_BYTES
            &&& decrypted == Some(packet)
        },
{
    if packet.len() + X_NONCE_BYTES > capacity {
        oversized_packet_is_dropped(cipher, decipher, packet, capacity, crypto, encrypted);
    } else {
        let direction = EncryptionDirection::Encrypt;
        let out = choose|out: Result<Seq<u8>, IoError>| #[trigger]
            direction_yields(cipher, decipher, packet, capacity, crypto, direction, out) && match out {
                Ok(transformed) => encrypted == Some(transformed),
                Err(_) => encrypted is None,
            };
        let raw = choose|raw: Result<Encrypted, IoError>| #[trigger]
            ciphers_to(cipher, packet, crypto, raw) && match raw {
                Err(e) => out == Err::<Seq<u8>, IoError>(e),
                Ok(done) => if done.consumed == packet.len() {
                    out == Ok::<Seq<u8>, IoError>(done.output@)
                } else {
                    out matches Err(e) && e.kind == ErrorKind::WriteZero && e.message@
                        == "payload cipher did not consume the whole packet"@
                },
            };
        assert(raw is Ok);
        assert(ciphers_to(cipher, packet, crypto, Ok(raw->Ok_0)));
    }
}

/// What is encrypted is what the cipher wrote for the whole packet under the
/// key. It fails where the packet does not fit with its nonce, where the cipher
/// fails, and where the cipher leaves some of the packet out.
pub proof fn encrypting_hands_on_what_the_cipher_wrote<
    E: Fn(&[u8], &CryptoConfig) -> Result<Encrypted, IoError>,
>(cipher: E, packet: Seq<u8>, capacity: usize, crypto: CryptoConfig, r: Result<Seq<u8>, IoError>)
    requires
        encrypts_to(cipher, packet, capacity, crypto, r),
    ensures
        packet.len() + X_NONCE_BYTES > capacity ==> (r matches Err(e) && (e.kind is WriteZero || (
        e.kind is InvalidInput && packet.len() + X_NONCE_BYTES > usize::MAX))),
        packet.len() + X_NONCE_BYTES <= capacity ==> exists|
            p: &[u8],
            out: Result<Encrypted, IoError>,
        |
            {
                &&& p@ == packet
                &&& #[trigger] call_ensures(cipher, (p, &crypto), out)
                &&& match r {
                    Ok(bytes) => out matches Ok(done) && done.consumed == packet.len()
                        && done.output@ == bytes,
                    Err(e) => out == Err::<Encrypted, IoError>(e) || (out matches Ok(done)
                        && done.consumed != packet.len() && e.kind is WriteZero),
                }
            },
{
    if packet.len() + X_NONCE_BYTES <= capacity {
        let out = choose|out: Result<Encrypted, IoError>| #[trigger]
            ciphers_to(cipher, packet, crypto, out) && match out {
                Err(e) => r == Err::<Seq<u8>, IoError>(e),
                Ok(done) => if done.consumed == packet.len() {
                    r == Ok::<Seq<u8>, IoError>(done.output@)
                } else {
                    r matches Err(e) && e.kind == ErrorKind::WriteZero
                },
            };
        let p = choose|p: &[u8]|
            p@ == packet && #[trigger] call_ensures(cipher, (p, &crypto), out);
        assert(call_ensures(cipher, (p, &crypto), out));
    }
}

/// What is decrypted is what the cipher read of the packet under the key, all
/// of it but the nonce. It fails where the packet has no nonce, where the rest
/// of it does not fit, where the cipher fails, and where it reads less or more.
pub proof fn decrypting_hands_on_what_the_cipher_read<
    D: Fn(&[u8], &CryptoConfig, usize) -> Result<Vec<u8>, IoError>,
>(decipher: D, packet: Seq<u8>, capacity: usize, crypto: CryptoConfig, r: Result<Seq<u8>, IoError>)
    requires
        decrypts_to(decipher, packet, capacity, crypto, r),
    ensures
        packet.len() < X_NONCE_BYTES ==> (r matches Err(e) && e.kind is UnexpectedEof),
        packet.len() > X_NONCE_BYTES + capacity ==> (r matches Err(e) && e.kind is WriteZero),
        X_NONCE_BYTES <= packet.len() <= X_NONCE_BYTES + capacity ==> exists|
            p: &[u8],
            len: usize,
            out: Result<Vec<u8>, IoError>,
        |
            {
                &&& p@ == packet
                &&& len + X_NONCE_BYTES == packet.len()
                &&& #[trigger] call_ensures(decipher, (p, &crypto, len), out)
                &&& match r {
                    Ok(plain) => out matches Ok(bytes) && bytes@ == plain && plain.len() == len,
                    Err(e) => out == Err::<Vec<u8>, IoError>(e) || (out matches Ok(bytes)
                        && bytes@.len() != len && e.kind is UnexpectedEof),
                }
            },
{
    if X_NONCE_BYTES <= packet.len() <= X_NONCE_BYTES + capacity {
        let len = (packet.len() - X_NONCE_BYTES) as usize;
        let out = choose|out: Result<Vec<u8>, IoError>| #[trigger]
            deciphers_to(decipher, packet, crypto, len, out) && match out {
                Err(e) => r == Err::<Seq<u8>, IoError>(e),
                Ok(plain) => if plain@.len() == len {
                    r == Ok::<Seq<u8>, IoError>(plain@)
                } else {
                    r matches Err(e) && e.kind == ErrorKind::UnexpectedEof
                },
            };
        let p = choose|p: &[u8]|
            p@ == packet && #[trigger] call_ensures(decipher, (p, &crypto, len), out);
        assert(call_ensures(decipher, (p, &crypto, len), out));
    }
}

/// The bytes of a result are all of its bytes, and its error is its error.
pub proof fn the_bytes_of_a_result_are_all_of_them(bytes: Vec<u8>, e: IoError)
    ensures
        bytes_of(Ok(bytes)) == Ok::<Seq<u8>, IoError>(bytes@),
        bytes_of(Err(e)) == Err::<Seq<u8>, IoError>(e),
{
}

} // verus!
