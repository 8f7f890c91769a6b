//! Symmetric sealed messages: `nonce ‖ ciphertext ‖ tag` with empty associated data.
use vstd::prelude::*;
use crate::aead::{length_ok, view_result, AeadCipher, OpenError};

verus! {

/// Seals `data` under `key` with the given nonce.
pub fn seal<A: AeadCipher>(key: &[u8], nonce: &[u8], data: &[u8]) -> (r: Vec<u8>)
    requires
        A::well_formed(),
        key@.len() == A::key_len(),
        nonce@.len() == A::nonce_len(),
        data@.len() <= A::max_len(),
    ensures
        r@ == A::seal_spec(key@, nonce@, Seq::empty(), data@),
        r@.len() == A::nonce_len() + data@.len() + A::tag_len(),
        r@.take(A::nonce_len() as int) == nonce@,
        A::open_spec(key@, Seq::empty(), r@) == Ok::<Seq<u8>, OpenError>(data@),
{
    let ad: Vec<u8> = Vec::new();
    assert(ad@ =~= Seq::<u8>::empty());
    proof {
        A::lemma_round_trip(key@, nonce@, ad@, data@);
    }
    A::seal(key, nonce, ad.as_slice(), data)
}

/// A source of fresh random bytes, supplied by the caller.
pub trait RandomSource {
    /// Returns `len` fresh random bytes.
    fn fill_bytes(&mut self, len: usize) -> Vec<u8>;
}

/// Seals `data` under `key` with a nonce that a random source handed back, which may
/// have the wrong length: `None` exactly when it does.
pub fn seal_drawn<A: AeadCipher>(key: &[u8], nonce: &[u8], data: &[u8]) -> (r: Option<Vec<u8>>)
    requires
        A::well_formed(),
        key@.len() == A::key_len(),
        data@.len() <= A::max_len(),
    ensures
        r is None <==> nonce@.len() != A::nonce_len(),
        r matches Some(c) ==> c@ == A::seal_spec(key@, nonce@, Seq::empty(), data@),
        r matches Some(c) ==> c@.take(A::nonce_len() as int) == nonce@,
        r matches Some(c) ==> c@.len() == A::nonce_len() + data@.len() + A::tag_len(),
        r matches Some(c) ==> A::open_spec(key@, Seq::empty(), c@) == Ok::<Seq<u8>, OpenError>(
            data@,
        ),
{
    if nonce.len() != A::nonce_length() {
        return None;
    }
    Some(seal::<A>(key, nonce, data))
}

/// Seals `data` under `key` with a nonce drawn from `rng`.
///
/// Asks `rng` for exactly `A::nonce_length()` bytes; the result is then `seal_drawn` of
/// what came back, so `None` comes only when `rng` hands back another number of bytes.
pub fn seal_with_nonce<A: AeadCipher, R: RandomSource>(rng: &mut R, key: &[u8], data: &[u8]) -> (r:
    Option<Vec<u8>>)
    requires
        A::well_formed(),
        key@.len() == A::key_len(),
        data@.len() <= A::max_len(),
    ensures
        r matches Some(c) ==> c@ == A::seal_spec(
            key@,
            c@.take(A::nonce_len() as int),
            Seq::empty(),
            data@,
        ),
        r matches Some(c) ==> c@.len() == A::nonce_len() + data@.len() + A::tag_len(),
        r matches Some(c) ==> A::open_spec(key@, Seq::empty(), c@) == Ok::<Seq<u8>, OpenError>(
            data@,
        ),
{
    let nonce = rng.fill_bytes(A::nonce_length());
    seal_drawn::<A>(key, nonce.as_slice(), data)
}

/// Opens a sealed message; fails on a malformed length or a tag mismatch.
pub fn open<A: AeadCipher>(key: &[u8], ciphertext: &[u8]) -> (r: Result<Vec<u8>, OpenError>)
    requires
        A::well_formed(),
        key@.len() == A::key_len(),
    ensures
        view_result(r) == A::open_spec(key@, Seq::empty(), ciphertext@),
        (r == Err::<Vec<u8>, OpenError>(OpenError::InvalidLength)) <==> !length_ok(
            ciphertext@.len(),
            A::nonce_len(),
            A::tag_len(),
            A::max_len(),
        ),
{
    let ad: Vec<u8> = Vec::new();
    assert(ad@ =~= Seq::<u8>::empty());
    A::open(key, ad.as_slice(), ciphertext)
}

} // verus!
