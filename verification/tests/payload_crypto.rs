use proxy_common::crypto::{
    decrypt_packet_payload, encrypt_packet_payload, send_dyn, CryptoConfig, Encrypted,
    EncryptionDirection, KEY_BYTES, X_NONCE_BYTES,
};
use proxy_common::io::{ErrorKind, IoError};

const PACKET_BUFFER_LENGTH: usize = 65536;

fn config() -> CryptoConfig {
    CryptoConfig { key: [7; KEY_BYTES] }
}

fn cipher(packet: &[u8], crypto: &CryptoConfig) -> Result<Encrypted, IoError> {
    let mut output = vec![0x5a; X_NONCE_BYTES];
    output.extend(packet.iter().map(|b| b ^ crypto.key[0]));
    Ok(Encrypted { output, consumed: packet.len() })
}

fn decipher(packet: &[u8], crypto: &CryptoConfig, len: usize) -> Result<Vec<u8>, IoError> {
    Ok(packet[X_NONCE_BYTES..X_NONCE_BYTES + len].iter().map(|b| b ^ crypto.key[0]).collect())
}

#[test]
fn a_packet_too_big_to_encrypt_is_dropped_not_spun_on() {
    let config = config();
    for len in [
        PACKET_BUFFER_LENGTH - X_NONCE_BYTES + 1,
        PACKET_BUFFER_LENGTH - 1,
        PACKET_BUFFER_LENGTH,
    ] {
        let pkt = vec![0xab; len];
        let sent = send_dyn(
            &pkt,
            PACKET_BUFFER_LENGTH,
            &config,
            EncryptionDirection::Encrypt,
            &cipher,
            &decipher,
        );
        assert!(
            sent.is_none(),
            "a {len}-byte packet must be dropped, not encrypted into a {PACKET_BUFFER_LENGTH} byte buffer",
        );
    }
}

#[test]
fn a_packet_that_fits_round_trips() {
    let config = config();
    for len in [0, 1, 23, 24, 25, 1400, 8192, PACKET_BUFFER_LENGTH - X_NONCE_BYTES] {
        let plain: Vec<u8> = (0..len).map(|i| (i % 251) as u8).collect();
        let ct = send_dyn(
            &plain,
            PACKET_BUFFER_LENGTH,
            &config,
            EncryptionDirection::Encrypt,
            &cipher,
            &decipher,
        )
        .unwrap_or_else(|| panic!("a {len}-byte packet fits and must encrypt"));
        assert_eq!(ct.len(), len + X_NONCE_BYTES);
        let pt = send_dyn(
            &ct,
            PACKET_BUFFER_LENGTH,
            &config,
            EncryptionDirection::Decrypt,
            &cipher,
            &decipher,
        )
        .unwrap_or_else(|| panic!("a {len}-byte packet must decrypt"));
        assert_eq!(pt, plain, "a {len}-byte packet did not round-trip");
    }
}

#[test]
fn a_packet_shorter_than_the_nonce_is_dropped() {
    let config = config();
    for len in 0..X_NONCE_BYTES {
        let pkt = vec![0xab; len];
        let sent = send_dyn(
            &pkt,
            PACKET_BUFFER_LENGTH,
            &config,
            EncryptionDirection::Decrypt,
            &cipher,
            &decipher,
        );
        assert!(
            sent.is_none(),
            "a {len}-byte ciphertext is shorter than the {X_NONCE_BYTES}-byte nonce",
        );
    }
}

#[test]
fn each_way_of_failing_says_what_went_wrong() {
    let config = config();
    let e = encrypt_packet_payload(&[1, 2], X_NONCE_BYTES + 1, &config, &cipher).unwrap_err();
    assert_eq!(e.kind, ErrorKind::WriteZero);
    assert_eq!(e.message, "encrypted packet does not fit in output buffer");

    let lazy = |_: &[u8], _: &CryptoConfig| -> Result<Encrypted, IoError> {
        Ok(Encrypted { output: vec![], consumed: 0 })
    };
    let e = encrypt_packet_payload(&[1, 2], 100, &config, &lazy).unwrap_err();
    assert_eq!(e.message, "payload cipher did not consume the whole packet");

    let broken = |_: &[u8], _: &CryptoConfig| -> Result<Encrypted, IoError> {
        Err(IoError::new(ErrorKind::Other, "broken"))
    };
    let e = encrypt_packet_payload(&[1, 2], 100, &config, &broken).unwrap_err();
    assert_eq!(e.message, "broken");

    let e = decrypt_packet_payload(&[0; 23], 100, &config, &decipher).unwrap_err();
    assert_eq!(e.kind, ErrorKind::UnexpectedEof);
    assert_eq!(e.message, "encrypted packet has no nonce");

    let e = decrypt_packet_payload(&[0; 26], 1, &config, &decipher).unwrap_err();
    assert_eq!(e.kind, ErrorKind::WriteZero);
    assert_eq!(e.message, "decrypted packet does not fit in output buffer");

    let short = |_: &[u8], _: &CryptoConfig, _: usize| -> Result<Vec<u8>, IoError> { Ok(vec![]) };
    let e = decrypt_packet_payload(&[0; 26], 100, &config, &short).unwrap_err();
    assert_eq!(e.message, "payload cipher did not produce the whole packet");
}

#[test]
fn flipping_a_direction_twice_gives_it_back() {
    assert_eq!(EncryptionDirection::Encrypt.flip(), EncryptionDirection::Decrypt);
    assert_eq!(EncryptionDirection::Decrypt.flip(), EncryptionDirection::Encrypt);
    assert_eq!(EncryptionDirection::Encrypt.flip().flip(), EncryptionDirection::Encrypt);
}
