use sarkara::primitives::{AuthCode, HashFunction, KeyExchange, StreamCipher};
use sarkara::suite::{Blake2b, Blake2bMac, ChaCha20, X25519};

fn hex(s: &str) -> Vec<u8> {
    (0..s.len()).step_by(2).map(|i| u8::from_str_radix(&s[i..i + 2], 16).unwrap()).collect()
}

#[test]
fn blake2b_abc() {
    let expected = hex(
        "ba80a53f981c4d0d6a2797b69f12f6e94c212f14685ac4b74b12bb6fdbffa2d1\
         7d87c5392aab792dc252d5de4533cc9518d38aa8dbf1925ab92386edd4009923",
    );
    assert_eq!(Blake2b::hash(b"abc"), expected);
}

#[test]
fn blake2b_mac_depends_on_key() {
    let t1 = Blake2bMac::authenticate(&[1u8; 32], b"message");
    let t2 = Blake2bMac::authenticate(&[2u8; 32], b"message");
    assert_eq!(t1.len(), 32);
    assert_ne!(t1, t2);
    assert_ne!(t1, b"message".to_vec());
}

#[test]
fn chacha20_zero_key_keystream() {
    let expected = hex(
        "76b8e0ada0f13d90405d6ae55386bd28bdd219b8a08ded1aa836efcc8b770dc7\
         da41597c5157488d7724e03fb8d84a376a43b8f41518a11cc387b669b2ee6586",
    );
    assert_eq!(ChaCha20::process(&[0u8; 32], &[0u8; 12], &[0u8; 64]), expected);
}

#[test]
fn chacha20_process_twice_restores() {
    let data = b"some plaintext bytes".to_vec();
    let c = ChaCha20::process(&[3u8; 32], &[4u8; 12], &data);
    assert_ne!(c, data);
    assert_eq!(ChaCha20::process(&[3u8; 32], &[4u8; 12], &c), data);
}

#[test]
fn x25519_keygen_matches_known_public_key() {
    let sk = hex("77076d0a7318a57d3c16c17251b26645df4c2f87ebc0992ab177fba51db92c2a");
    let (s, p) = X25519::keygen(&sk);
    assert_eq!(s, sk);
    assert_eq!(p, hex("8520f0098930a754748b7ddcb43ef75a0dbf3a0d26381af4eba4a98eaa9b4e6a"));
}

#[test]
fn x25519_encapsulation_agrees() {
    let (sk, pk) = X25519::keygen(&[5u8; 32]);
    let (ss, enc) = X25519::encapsulate(&pk, &[6u8; 32]);
    assert_eq!(ss.len(), 32);
    assert_eq!(enc.len(), 32);
    assert_eq!(X25519::decapsulate(&sk, &enc), Some(ss));
}

#[test]
fn ct_eq_compares_contents() {
    assert!(sarkara::bytes::ct_eq(b"abc", b"abc"));
    assert!(!sarkara::bytes::ct_eq(b"abc", b"abd"));
    assert!(!sarkara::bytes::ct_eq(b"abc", b"ab"));
    assert!(sarkara::bytes::ct_eq(b"", b""));
}

#[test]
fn subkeys_stretch_past_one_block() {
    let k = sarkara::kdf::derive_subkeys::<Blake2b>(b"seed", 100);
    assert_eq!(k.len(), 100);
    assert_eq!(&k[..64], &Blake2b::hash(b"seed")[..]);
    let mut second = b"seed".to_vec();
    second.extend_from_slice(&1u64.to_le_bytes());
    assert_eq!(&k[64..], &Blake2b::hash(&second)[..36]);
}
