//! A concrete primitive set: Blake2b, keyed Blake2b, ChaCha20 and an X25519 KEM.
use vstd::prelude::*;
use crate::aead::General;
use crate::aead::AeadCipher;
use crate::bytes::{concat, fit, lemma_xor_twice, xor_bytes, xor_seq, zeros};
use crate::sealedbox::compatible;
use crate::primitives::{AuthCode, HashFunction, KeyExchange, StreamCipher};
use crate::riv::RivGeneral;
use chacha20::cipher::KeyIvInit;

verus! {

/// What `blake2_rfc::blake2b::blake2b` returns for an output length, a key and data.
pub uninterp spec fn blake2b_of(nn: nat, key: Seq<u8>, data: Seq<u8>) -> Seq<u8>;

/// What ChaCha20 writes over `len` zero bytes for a key and nonce: its keystream.
pub uninterp spec fn chacha20_keystream(key: Seq<u8>, nonce: Seq<u8>, len: nat) -> Seq<u8>;

/// What `x25519_dalek::x25519` returns for a scalar and a u-coordinate.
pub uninterp spec fn x25519_of(k: Seq<u8>, u: Seq<u8>) -> Seq<u8>;

/// Relies on `blake2_rfc::blake2b::blake2b`: an `nn`-byte digest of `data` keyed by `key`.
/// It asserts `1 <= nn <= 64` and a key of at most 64 bytes.
#[verifier::external_body]
fn blake2b(nn: usize, key: &[u8], data: &[u8]) -> (r: Vec<u8>)
    requires
        1 <= nn <= 64,
        key@.len() <= 64,
    ensures
        r@ == blake2b_of(nn as nat, key@, data@),
        r@.len() == nn,
{
    blake2_rfc::blake2b::blake2b(nn, key, data).as_bytes().to_vec()
}

/// Relies on ChaCha20 (`chacha20` crate, 12-byte nonce): `apply_keystream` over a zeroed
/// buffer leaves the keystream. It panics past 2^32 - 1 blocks, which `requires` excludes.
#[verifier::external_body]
fn chacha20_stream(key: &[u8], nonce: &[u8], len: usize) -> (r: Vec<u8>)
    requires
        key@.len() == 32,
        nonce@.len() == 12,
        len <= CHACHA20_LIMIT,
    ensures
        r@ == chacha20_keystream(key@, nonce@, len as nat),
        r@.len() == len,
{
    let mut buf = vec![0u8; len];
    let mut c = chacha20::ChaCha20::new(key.into(), nonce.into());
    chacha20::cipher::StreamCipher::apply_keystream(&mut c, &mut buf);
    buf
}

/// Relies on `x25519_dalek::x25519`: scalar multiplication on Curve25519, 32 bytes out.
#[verifier::external_body]
fn x25519(k: &[u8], u: &[u8]) -> (r: Vec<u8>)
    requires
        k@.len() == 32,
        u@.len() == 32,
    ensures
        r@ == x25519_of(k@, u@),
        r@.len() == 32,
{
    let ka: [u8; 32] = k.try_into().unwrap();
    let ua: [u8; 32] = u.try_into().unwrap();
    x25519_dalek::x25519(ka, ua).to_vec()
}

/// The keystream ChaCha20 gives from a fresh counter: 2^32 - 1 blocks of 64 bytes.
pub const CHACHA20_LIMIT: u64 = 274877906880;

/// Bytes kept free under `usize::MAX` for the framing around a ciphertext.
pub const FRAMING_ROOM: usize = 128;

/// The longest input the ChaCha20 stream takes here: the cipher's own limit, or less where
/// `usize` is too narrow to hold it with the framing of a sealed message.
pub open spec fn chacha20_max() -> nat {
    if usize::MAX - FRAMING_ROOM >= CHACHA20_LIMIT {
        CHACHA20_LIMIT as nat
    } else {
        (usize::MAX - FRAMING_ROOM) as nat
    }
}

/// Unkeyed Blake2b with a 64-byte digest.
pub struct Blake2b;

impl HashFunction for Blake2b {
    open spec fn output_len() -> nat {
        64
    }

    open spec fn digest(msg: Seq<u8>) -> Seq<u8> {
        fit(blake2b_of(64, Seq::empty(), msg), 64)
    }

    proof fn lemma_digest_len(msg: Seq<u8>) {
    }

    fn output_length() -> (r: usize) {
        64
    }

    fn hash(msg: &[u8]) -> (r: Vec<u8>) {
        let key: Vec<u8> = Vec::new();
        let r = blake2b(64, key.as_slice(), msg);
        assert(key@ =~= Seq::<u8>::empty());
        r
    }
}

/// Keyed Blake2b as a MAC: 32-byte key, 32-byte tag.
pub struct Blake2bMac;

impl AuthCode for Blake2bMac {
    open spec fn key_len() -> nat {
        32
    }

    open spec fn tag_len() -> nat {
        32
    }

    open spec fn mac(key: Seq<u8>, msg: Seq<u8>) -> Seq<u8> {
        fit(blake2b_of(32, key, msg), 32)
    }

    proof fn lemma_tag_len(key: Seq<u8>, msg: Seq<u8>) {
    }

    fn key_length() -> (r: usize) {
        32
    }

    fn tag_length() -> (r: usize) {
        32
    }

    fn authenticate(key: &[u8], msg: &[u8]) -> (r: Vec<u8>) {
        blake2b(32, key, msg)
    }
}

/// ChaCha20 with a 32-byte key and a 12-byte nonce.
pub struct ChaCha20;

impl StreamCipher for ChaCha20 {
    open spec fn key_len() -> nat {
        32
    }

    open spec fn nonce_len() -> nat {
        12
    }

    open spec fn max_len() -> nat {
        chacha20_max()
    }

    open spec fn transform(key: Seq<u8>, nonce: Seq<u8>, data: Seq<u8>) -> Seq<u8> {
        xor_seq(data, fit(chacha20_keystream(key, nonce, data.len()), data.len()))
    }

    proof fn lemma_transform_involutive(key: Seq<u8>, nonce: Seq<u8>, data: Seq<u8>) {
        let ks = fit(chacha20_keystream(key, nonce, data.len()), data.len());
        lemma_xor_twice(data, ks);
    }

    fn key_length() -> (r: usize) {
        32
    }

    fn nonce_length() -> (r: usize) {
        12
    }

    fn max_length() -> (r: usize) {
        let room = usize::MAX - FRAMING_ROOM;
        if room as u64 >= CHACHA20_LIMIT {
            CHACHA20_LIMIT as usize
        } else {
            room
        }
    }

    fn process(key: &[u8], nonce: &[u8], data: &[u8]) -> (r: Vec<u8>) {
        let ks = chacha20_stream(key, nonce, data.len());
        xor_bytes(data, ks.as_slice())
    }
}

/// The X25519 base point, u = 9.
pub open spec fn basepoint() -> Seq<u8> {
    seq![9u8] + zeros(31)
}

/// The shared secret: Blake2b-256 of the Diffie-Hellman value and both public keys.
pub open spec fn kem_secret(dh: Seq<u8>, epk: Seq<u8>, pk: Seq<u8>) -> Seq<u8> {
    fit(blake2b_of(32, Seq::empty(), dh + epk + pk), 32)
}

/// A KEM from X25519: the encapsulated value is an ephemeral public key.
pub struct X25519;

impl X25519 {
    fn base() -> (r: Vec<u8>)
        ensures
            r@ == basepoint(),
    {
        let mut r: Vec<u8> = Vec::new();
        r.push(9u8);
        let mut i: usize = 1;
        while i < 32
            invariant
                1 <= i <= 32,
                r@ == seq![9u8] + zeros((i - 1) as nat),
            decreases 32 - i,
        {
            r.push(0u8);
            i = i + 1;
            assert(r@ =~= seq![9u8] + zeros((i - 1) as nat));
        }
        r
    }

    fn secret(dh: &[u8], epk: &[u8], pk: &[u8]) -> (r: Vec<u8>)
        ensures
            r@ == kem_secret(dh@, epk@, pk@),
    {
        let mut m = concat(dh, epk);
        crate::bytes::append(&mut m, pk);
        let key: Vec<u8> = Vec::new();
        assert(key@ =~= Seq::<u8>::empty());
        let r = blake2b(32, key.as_slice(), m.as_slice());
        crate::bytes::wipe(&mut m);
        r
    }

    fn all_zero(s: &[u8]) -> (r: bool)
        ensures
            r == (s@ == zeros(s@.len())),
    {
        let mut i: usize = 0;
        while i < s.len()
            invariant
                i <= s@.len(),
                forall|j: int| 0 <= j < i ==> s@[j] == 0,
            decreases s@.len() - i,
        {
            if s[i] != 0 {
                assert(s@[i as int] != zeros(s@.len())[i as int]);
                return false;
            }
            i = i + 1;
        }
        assert(s@ =~= zeros(s@.len()));
        true
    }
}

impl KeyExchange for X25519 {
    open spec fn seed_len() -> nat {
        32
    }

    open spec fn secret_key_len() -> nat {
        32
    }

    open spec fn public_key_len() -> nat {
        32
    }

    open spec fn ciphertext_len() -> nat {
        32
    }

    open spec fn shared_len() -> nat {
        32
    }

    open spec fn keypair(seed: Seq<u8>) -> (Seq<u8>, Seq<u8>) {
        (seed, fit(x25519_of(seed, basepoint()), 32))
    }

    open spec fn encap(pk: Seq<u8>, seed: Seq<u8>) -> (Seq<u8>, Seq<u8>) {
        let epk = fit(x25519_of(seed, basepoint()), 32);
        (kem_secret(x25519_of(seed, pk), epk, pk), epk)
    }

    open spec fn decap(sk: Seq<u8>, enc: Seq<u8>) -> Option<Seq<u8>> {
        let dh = x25519_of(sk, enc);
        if dh == zeros(32) {
            None
        } else {
            Some(kem_secret(dh, enc, fit(x25519_of(sk, basepoint()), 32)))
        }
    }

    proof fn lemma_encap_len(pk: Seq<u8>, seed: Seq<u8>) {
    }

    fn seed_length() -> (r: usize) {
        32
    }

    fn ciphertext_length() -> (r: usize) {
        32
    }

    fn secret_key_length() -> (r: usize) {
        32
    }

    fn public_key_length() -> (r: usize) {
        32
    }

    fn keygen(seed: &[u8]) -> (r: (Vec<u8>, Vec<u8>)) {
        let base = Self::base();
        let pk = x25519(seed, base.as_slice());
        let mut sk: Vec<u8> = Vec::new();
        crate::bytes::append(&mut sk, seed);
        (sk, pk)
    }

    fn encapsulate(pk: &[u8], seed: &[u8]) -> (r: (Vec<u8>, Vec<u8>)) {
        let base = Self::base();
        let epk = x25519(seed, base.as_slice());
        let mut dh = x25519(seed, pk);
        let ss = Self::secret(dh.as_slice(), epk.as_slice(), pk);
        crate::bytes::wipe(&mut dh);
        (ss, epk)
    }

    fn decapsulate(sk: &[u8], enc: &[u8]) -> (r: Option<Vec<u8>>) {
        let mut dh = x25519(sk, enc);
        if Self::all_zero(dh.as_slice()) {
            return None;
        }
        let base = Self::base();
        let pk = x25519(sk, base.as_slice());
        let ss = Self::secret(dh.as_slice(), enc, pk.as_slice());
        crate::bytes::wipe(&mut dh);
        Some(ss)
    }
}

/// Encrypt-then-MAC over ChaCha20, keyed Blake2b and Blake2b.
pub type StandardAead = General<ChaCha20, Blake2bMac, Blake2b>;

/// The key-committing composition over ChaCha20, keyed Blake2b and Blake2b.
pub type RobustAead = RivGeneral<ChaCha20, Blake2bMac, Blake2b>;

/// The compositions over this primitive set meet their preconditions, and the X25519
/// secret is a key of either.
pub proof fn lemma_suite_fits()
    ensures
        StandardAead::well_formed(),
        RobustAead::well_formed(),
        compatible::<X25519, StandardAead>(),
        compatible::<X25519, RobustAead>(),
{
}

} // verus!
