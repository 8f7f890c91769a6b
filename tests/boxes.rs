use sarkara::aead::{AeadCipher, OpenError};
use sarkara::primitives::KeyExchange;
use sarkara::pwhash::{Argon2i, KeyDerive};
use sarkara::sealedbox;
use sarkara::secretbox;
use sarkara::secretbox::RandomSource;
use sarkara::suite::{RobustAead, StandardAead, X25519};

struct CountingSource(u8);

impl RandomSource for CountingSource {
    fn fill_bytes(&mut self, len: usize) -> Vec<u8> {
        let mut v = Vec::new();
        for _ in 0..len {
            self.0 = self.0.wrapping_add(1);
            v.push(self.0);
        }
        v
    }
}

struct ShortSource;

impl RandomSource for ShortSource {
    fn fill_bytes(&mut self, _len: usize) -> Vec<u8> {
        vec![1, 2, 3]
    }
}

fn sample_key(b: u8) -> Vec<u8> {
    (0..32u8).map(|i| i.wrapping_mul(7).wrapping_add(b)).collect()
}

#[test]
fn standard_round_trip_with_ad() {
    let key = sample_key(1);
    let nonce = [5u8; 12];
    let ad = b"header";
    let pt = b"attack at dawn, bring snacks";
    let c = StandardAead::seal(&key, &nonce, ad, pt);
    assert_eq!(c.len(), 12 + pt.len() + 32);
    assert_eq!(&c[..12], &nonce);
    assert_ne!(&c[12..12 + pt.len()], &pt[..]);
    assert_eq!(StandardAead::open(&key, ad, &c), Ok(pt.to_vec()));
}

#[test]
fn robust_round_trip_with_ad() {
    let key = sample_key(2);
    let nonce = [9u8; 12];
    let ad = b"associated";
    let pt: Vec<u8> = (0..300u32).map(|i| (i % 251) as u8).collect();
    let c = RobustAead::seal(&key, &nonce, ad, &pt);
    assert_eq!(c.len(), 12 + pt.len() + 32);
    assert_eq!(RobustAead::open(&key, ad, &c), Ok(pt));
}

#[test]
fn wrong_ad_is_rejected() {
    let key = sample_key(3);
    let nonce = [1u8; 12];
    let c = StandardAead::seal(&key, &nonce, b"one", b"payload");
    assert_eq!(StandardAead::open(&key, b"two", &c), Err(OpenError::AuthenticationFailed));
    let c = RobustAead::seal(&key, &nonce, b"one", b"payload");
    assert_eq!(RobustAead::open(&key, b"two", &c), Err(OpenError::AuthenticationFailed));
}

#[test]
fn standard_every_bit_flip_is_rejected() {
    let key = sample_key(4);
    let c = secretbox::seal::<StandardAead>(&key, &[3u8; 12], b"hi!");
    for i in 0..c.len() {
        for b in 0..8 {
            let mut t = c.clone();
            t[i] ^= 1 << b;
            assert_eq!(secretbox::open::<StandardAead>(&key, &t), Err(OpenError::AuthenticationFailed));
        }
    }
}

#[test]
fn robust_every_bit_flip_is_rejected() {
    let key = sample_key(5);
    let c = secretbox::seal::<RobustAead>(&key, &[4u8; 12], b"hi!");
    for i in 0..c.len() {
        for b in 0..8 {
            let mut t = c.clone();
            t[i] ^= 1 << b;
            assert_eq!(secretbox::open::<RobustAead>(&key, &t), Err(OpenError::AuthenticationFailed));
        }
    }
}

#[test]
fn robust_other_key_is_rejected() {
    let k1 = sample_key(6);
    let k2 = sample_key(7);
    let c = secretbox::seal::<RobustAead>(&k1, &[0u8; 12], b"committed to one key");
    assert_eq!(secretbox::open::<RobustAead>(&k2, &c), Err(OpenError::AuthenticationFailed));
}

#[test]
fn standard_other_key_is_rejected() {
    let k1 = sample_key(8);
    let k2 = sample_key(9);
    let c = secretbox::seal::<StandardAead>(&k1, &[0u8; 12], b"message");
    assert_eq!(secretbox::open::<StandardAead>(&k2, &c), Err(OpenError::AuthenticationFailed));
}

#[test]
fn secretbox_empty_payload() {
    let key = sample_key(10);
    let c = secretbox::seal::<StandardAead>(&key, &[0u8; 12], b"");
    assert_eq!(c.len(), 12 + 32);
    assert_eq!(secretbox::open::<StandardAead>(&key, &c), Ok(Vec::new()));
    let c = secretbox::seal::<RobustAead>(&key, &[0u8; 12], b"");
    assert_eq!(c.len(), 12 + 32);
    assert_eq!(secretbox::open::<RobustAead>(&key, &c), Ok(Vec::new()));
}

#[test]
fn secretbox_hello_zero_key() {
    let key = [0u8; 32];
    let nonce = [0u8; 12];
    for robust in [false, true] {
        let (c, opened) = if robust {
            let c = secretbox::seal::<RobustAead>(&key, &nonce, b"hello");
            let o = secretbox::open::<RobustAead>(&key, &c);
            (c, o)
        } else {
            let c = secretbox::seal::<StandardAead>(&key, &nonce, b"hello");
            let o = secretbox::open::<StandardAead>(&key, &c);
            (c, o)
        };
        assert_eq!(opened, Ok(b"hello".to_vec()));
        let mut t = c.clone();
        let last = t.len() - 1;
        t[last] ^= 1;
        let r = if robust {
            secretbox::open::<RobustAead>(&key, &t)
        } else {
            secretbox::open::<StandardAead>(&key, &t)
        };
        assert_eq!(r, Err(OpenError::AuthenticationFailed));
    }
}

#[test]
fn secretbox_short_input_is_invalid_length() {
    let key = sample_key(11);
    assert_eq!(secretbox::open::<StandardAead>(&key, &[0u8; 43]), Err(OpenError::InvalidLength));
    assert_eq!(secretbox::open::<RobustAead>(&key, &[]), Err(OpenError::InvalidLength));
    assert_eq!(secretbox::open::<StandardAead>(&key, &[0u8; 44]), Err(OpenError::AuthenticationFailed));
}

#[test]
fn seal_with_nonce_draws_the_nonce() {
    let key = sample_key(12);
    let mut rng = CountingSource(0);
    let c = secretbox::seal_with_nonce::<RobustAead, _>(&mut rng, &key, b"data").unwrap();
    assert_eq!(&c[..12], &[1, 2, 3, 4, 5, 6, 7, 8, 9, 10, 11, 12]);
    assert_eq!(secretbox::open::<RobustAead>(&key, &c), Ok(b"data".to_vec()));
    let c2 = secretbox::seal_with_nonce::<RobustAead, _>(&mut rng, &key, b"data").unwrap();
    assert_ne!(c, c2);
    assert_eq!(secretbox::seal_with_nonce::<RobustAead, _>(&mut ShortSource, &key, b"data"), None);
}

#[test]
fn sealedbox_round_trip() {
    let (sk, pk) = X25519::keygen(&[21u8; 32]);
    let c = sealedbox::seal::<X25519, RobustAead>(&pk, &[33u8; 32], &[7u8; 12], b"to the key holder");
    assert_eq!(c.len(), 32 + 12 + 17 + 32);
    assert_eq!(sealedbox::open::<X25519, RobustAead>(&sk, &c), Ok(b"to the key holder".to_vec()));
    let c = sealedbox::seal::<X25519, StandardAead>(&pk, &[34u8; 32], &[8u8; 12], b"standard");
    assert_eq!(sealedbox::open::<X25519, StandardAead>(&sk, &c), Ok(b"standard".to_vec()));
}

#[test]
fn sealedbox_unrelated_key_fails() {
    let (_, pk) = X25519::keygen(&[41u8; 32]);
    let (other_sk, _) = X25519::keygen(&[42u8; 32]);
    let c = sealedbox::seal::<X25519, RobustAead>(&pk, &[43u8; 32], &[0u8; 12], b"secret");
    let r = sealedbox::open::<X25519, RobustAead>(&other_sk, &c);
    assert!(r == Err(OpenError::AuthenticationFailed) || r == Err(OpenError::DecapsulationFailed));
}

#[test]
fn sealedbox_empty_payload() {
    let (sk, pk) = X25519::keygen(&[51u8; 32]);
    let c = sealedbox::seal::<X25519, StandardAead>(&pk, &[52u8; 32], &[0u8; 12], b"");
    assert_eq!(c.len(), 32 + 12 + 32);
    assert_eq!(sealedbox::open::<X25519, StandardAead>(&sk, &c), Ok(Vec::new()));
}

#[test]
fn sealedbox_short_input_is_invalid_length() {
    let (sk, _) = X25519::keygen(&[61u8; 32]);
    assert_eq!(sealedbox::open::<X25519, RobustAead>(&sk, &[1u8; 75]), Err(OpenError::InvalidLength));
}

#[test]
fn sealedbox_zero_point_fails_decapsulation() {
    let (sk, _) = X25519::keygen(&[71u8; 32]);
    let input = [0u8; 32 + 12 + 32];
    assert_eq!(sealedbox::open::<X25519, RobustAead>(&sk, &input), Err(OpenError::DecapsulationFailed));
}

#[test]
fn sealedbox_tampered_is_rejected() {
    let (sk, pk) = X25519::keygen(&[81u8; 32]);
    let mut c = sealedbox::seal::<X25519, RobustAead>(&pk, &[82u8; 32], &[0u8; 12], b"abc");
    let last = c.len() - 1;
    c[last] ^= 0x80;
    assert_eq!(sealedbox::open::<X25519, RobustAead>(&sk, &c), Err(OpenError::AuthenticationFailed));
}

#[test]
fn seal_drawn_checks_nonce_length() {
    let key = sample_key(13);
    assert_eq!(secretbox::seal_drawn::<StandardAead>(&key, &[0u8; 11], b"x"), None);
    let c = secretbox::seal_drawn::<StandardAead>(&key, &[2u8; 12], b"x").unwrap();
    assert_eq!(c, secretbox::seal::<StandardAead>(&key, &[2u8; 12], b"x"));
}

#[test]
fn password_derived_key_seals_hello() {
    let kdf = Argon2i::new().with_opslimit(1).with_memlimit(64 * 1024);
    let key = kdf.derive(b"password", &[0u8; 8]).unwrap();
    assert_eq!(key.len(), 32);
    let c = secretbox::seal::<RobustAead>(&key, &[0u8; 12], b"hello");
    assert_eq!(secretbox::open::<RobustAead>(&key, &c), Ok(b"hello".to_vec()));
    let mut t = c.clone();
    let last = t.len() - 1;
    t[last] = !t[last];
    assert_eq!(secretbox::open::<RobustAead>(&key, &t), Err(OpenError::AuthenticationFailed));
}
