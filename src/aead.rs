//! The AEAD trait and the standard Encrypt-then-MAC composition.
use vstd::prelude::*;
use core::marker::PhantomData;
use crate::bytes::{append, append_le64, concat, copy_range, ct_eq, le64, wipe};
use crate::kdf::{derive_subkeys, lemma_subkeys_len, subkeys};
use crate::primitives::{AuthCode, HashFunction, StreamCipher};

verus! {

/// Why a ciphertext was refused.
#[derive(Debug, Clone, Copy, PartialEq, Eq, Structural)]
pub enum OpenError {
    /// Too short to hold a nonce and a tag, or longer than any sealed message.
    InvalidLength,
    /// The tag did not match.
    AuthenticationFailed,
    /// The key-encapsulation mechanism rejected the encapsulated value.
    DecapsulationFailed,
}

/// The view of an `open` result: plaintext bytes or the error.
pub open spec fn view_result(r: Result<Vec<u8>, OpenError>) -> Result<Seq<u8>, OpenError> {
    match r {
        Ok(v) => Ok(v@),
        Err(e) => Err(e),
    }
}

/// The message the tag covers: associated data, ciphertext, then both lengths.
pub open spec fn auth_msg(ad: Seq<u8>, ct: Seq<u8>) -> Seq<u8> {
    ad + ct + le64(ad.len() as u64) + le64(ct.len() as u64)
}

/// Whether an input of `len` bytes can be split into nonce, ciphertext and tag.
pub open spec fn length_ok(len: nat, nonce_len: nat, tag_len: nat, max_len: nat) -> bool {
    nonce_len + tag_len <= len && len - nonce_len - tag_len <= max_len
}

/// An authenticated-encryption scheme whose sealed output is `nonce ‖ ciphertext ‖ tag`.
pub trait AeadCipher {
    spec fn key_len() -> nat;

    spec fn nonce_len() -> nat;

    spec fn tag_len() -> nat;

    /// The longest plaintext that can be sealed.
    spec fn max_len() -> nat;

    /// The primitives fit the construction.
    spec fn well_formed() -> bool;

    spec fn seal_spec(key: Seq<u8>, nonce: Seq<u8>, ad: Seq<u8>, pt: Seq<u8>) -> Seq<u8>;

    spec fn open_spec(key: Seq<u8>, ad: Seq<u8>, input: Seq<u8>) -> Result<Seq<u8>, OpenError>;

    /// Opening what was sealed under the same key and associated data gives the plaintext.
    proof fn lemma_round_trip(key: Seq<u8>, nonce: Seq<u8>, ad: Seq<u8>, pt: Seq<u8>)
        requires
            Self::well_formed(),
            key.len() == Self::key_len(),
            nonce.len() == Self::nonce_len(),
            pt.len() <= Self::max_len(),
        ensures
            Self::seal_spec(key, nonce, ad, pt).len() == Self::nonce_len() + pt.len()
                + Self::tag_len(),
            Self::seal_spec(key, nonce, ad, pt).take(Self::nonce_len() as int) == nonce,
            Self::open_spec(key, ad, Self::seal_spec(key, nonce, ad, pt)) == Ok::<
                Seq<u8>,
                OpenError,
            >(pt),
    ;

    fn key_length() -> (r: usize)
        ensures
            r == Self::key_len(),
    ;

    fn nonce_length() -> (r: usize)
        ensures
            r == Self::nonce_len(),
    ;

    fn tag_length() -> (r: usize)
        ensures
            r == Self::tag_len(),
    ;

    fn max_length() -> (r: usize)
        ensures
            r == Self::max_len(),
    ;

    fn seal(key: &[u8], nonce: &[u8], ad: &[u8], pt: &[u8]) -> (r: Vec<u8>)
        requires
            Self::well_formed(),
            key@.len() == Self::key_len(),
            nonce@.len() == Self::nonce_len(),
            pt@.len() <= Self::max_len(),
        ensures
            r@ == Self::seal_spec(key@, nonce@, ad@, pt@),
    ;

    fn open(key: &[u8], ad: &[u8], input: &[u8]) -> (r: Result<Vec<u8>, OpenError>)
        requires
            Self::well_formed(),
            key@.len() == Self::key_len(),
        ensures
            view_result(r) == Self::open_spec(key@, ad@, input@),
            (r == Err::<Vec<u8>, OpenError>(OpenError::InvalidLength)) <==> !length_ok(
                input@.len(),
                Self::nonce_len(),
                Self::tag_len(),
                Self::max_len(),
            ),
            r is Err ==> r != Err::<Vec<u8>, OpenError>(OpenError::DecapsulationFailed),
    ;
}

/// Builds the message the tag covers.
pub fn auth_message(ad: &[u8], ct: &[u8]) -> (r: Vec<u8>)
    ensures
        r@ == auth_msg(ad@, ct@),
{
    let mut m: Vec<u8> = Vec::new();
    append(&mut m, ad);
    append(&mut m, ct);
    append_le64(&mut m, ad.len() as u64);
    append_le64(&mut m, ct.len() as u64);
    m
}

/// Encrypt-then-MAC over a stream cipher `S`, a MAC `M` and a hash `H`.
///
/// The subkeys come from hashing `key ‖ nonce`, so a nonce must not repeat under one key.
pub struct General<S, M, H> {
    marker: PhantomData<(S, M, H)>,
}

impl<S: StreamCipher, M: AuthCode, H: HashFunction> General<S, M, H> {
    /// Encryption subkey and MAC subkey for one nonce.
    pub open spec fn keys_spec(key: Seq<u8>, nonce: Seq<u8>) -> (Seq<u8>, Seq<u8>) {
        let sub = subkeys::<H>(key + nonce, S::key_len() + M::key_len());
        (sub.take(S::key_len() as int), sub.subrange(S::key_len() as int, sub.len() as int))
    }

    fn derive_keys(key: &[u8], nonce: &[u8]) -> (r: (Vec<u8>, Vec<u8>))
        requires
            H::output_len() > 0,
            S::key_len() + M::key_len() <= usize::MAX,
        ensures
            (r.0@, r.1@) == Self::keys_spec(key@, nonce@),
            r.0@.len() == S::key_len(),
            r.1@.len() == M::key_len(),
    {
        let seed = concat(key, nonce);
        let n = S::key_length() + M::key_length();
        let mut sub = derive_subkeys::<H>(seed.as_slice(), n);
        let ek = copy_range(sub.as_slice(), 0, S::key_length());
        let mk = copy_range(sub.as_slice(), S::key_length(), n);
        proof {
            lemma_subkeys_len::<H>(seed@, n as nat);
            assert(ek@ =~= Self::keys_spec(key@, nonce@).0);
            assert(mk@ =~= Self::keys_spec(key@, nonce@).1);
        }
        wipe(&mut sub);
        (ek, mk)
    }
}

impl<S: StreamCipher, M: AuthCode, H: HashFunction> AeadCipher for General<S, M, H> {
    open spec fn key_len() -> nat {
        S::key_len()
    }

    open spec fn nonce_len() -> nat {
        S::nonce_len()
    }

    open spec fn tag_len() -> nat {
        M::tag_len()
    }

    open spec fn max_len() -> nat {
        S::max_len()
    }

    open spec fn well_formed() -> bool {
        &&& H::output_len() > 0
        &&& S::key_len() + M::key_len() <= usize::MAX
        &&& S::nonce_len() + M::tag_len() + S::max_len() <= usize::MAX
    }

    open spec fn seal_spec(key: Seq<u8>, nonce: Seq<u8>, ad: Seq<u8>, pt: Seq<u8>) -> Seq<u8> {
        let (ek, mk) = Self::keys_spec(key, nonce);
        let ct = S::transform(ek, nonce, pt);
        nonce + ct + M::mac(mk, auth_msg(ad, ct))
    }

    open spec fn open_spec(key: Seq<u8>, ad: Seq<u8>, input: Seq<u8>) -> Result<Seq<u8>, OpenError> {
        let nl = S::nonce_len();
        let tl = M::tag_len();
        if !length_ok(input.len(), nl, tl, S::max_len()) {
            Err(OpenError::InvalidLength)
        } else {
            let nonce = input.take(nl as int);
            let ct = input.subrange(nl as int, input.len() - tl);
            let tag = input.subrange(input.len() - tl, input.len() as int);
            let (ek, mk) = Self::keys_spec(key, nonce);
            if M::mac(mk, auth_msg(ad, ct)) == tag {
                Ok(S::transform(ek, nonce, ct))
            } else {
                Err(OpenError::AuthenticationFailed)
            }
        }
    }

    proof fn lemma_round_trip(key: Seq<u8>, nonce: Seq<u8>, ad: Seq<u8>, pt: Seq<u8>) {
        let (ek, mk) = Self::keys_spec(key, nonce);
        lemma_subkeys_len::<H>(key + nonce, S::key_len() + M::key_len());
        S::lemma_transform_involutive(ek, nonce, pt);
        let ct = S::transform(ek, nonce, pt);
        M::lemma_tag_len(mk, auth_msg(ad, ct));
        let out = Self::seal_spec(key, nonce, ad, pt);
        let nl = S::nonce_len();
        let tl = M::tag_len();
        assert(out.take(nl as int) =~= nonce);
        assert(out.subrange(nl as int, out.len() - tl) =~= ct);
        assert(out.subrange(out.len() - tl, out.len() as int) =~= M::mac(mk, auth_msg(ad, ct)));
    }

    fn key_length() -> (r: usize) {
        S::key_length()
    }

    fn nonce_length() -> (r: usize) {
        S::nonce_length()
    }

    fn tag_length() -> (r: usize) {
        M::tag_length()
    }

    fn max_length() -> (r: usize) {
        S::max_length()
    }

    fn seal(key: &[u8], nonce: &[u8], ad: &[u8], pt: &[u8]) -> (r: Vec<u8>) {
        let (mut ek, mut mk) = Self::derive_keys(key, nonce);
        let ct = S::process(ek.as_slice(), nonce, pt);
        let msg = auth_message(ad, ct.as_slice());
        let tag = M::authenticate(mk.as_slice(), msg.as_slice());
        let mut out = concat(nonce, ct.as_slice());
        append(&mut out, tag.as_slice());
        wipe(&mut ek);
        wipe(&mut mk);
        out
    }

    fn open(key: &[u8], ad: &[u8], input: &[u8]) -> (r: Result<Vec<u8>, OpenError>) {
        let nl = S::nonce_length();
        let tl = M::tag_length();
        if input.len() < nl + tl || input.len() - nl - tl > S::max_length() {
            return Err(OpenError::InvalidLength);
        }
        let nonce = copy_range(input, 0, nl);
        let ct = copy_range(input, nl, input.len() - tl);
        let tag = copy_range(input, input.len() - tl, input.len());
        let (mut ek, mut mk) = Self::derive_keys(key, nonce.as_slice());
        let msg = auth_message(ad, ct.as_slice());
        let expected = M::authenticate(mk.as_slice(), msg.as_slice());
        wipe(&mut mk);
        if !ct_eq(expected.as_slice(), tag.as_slice()) {
            wipe(&mut ek);
            return Err(OpenError::AuthenticationFailed);
        }
        let pt = S::process(ek.as_slice(), nonce.as_slice(), ct.as_slice());
        wipe(&mut ek);
        Ok(pt)
    }
}

} // verus!

verus! {

/// Round trip: for keys and nonces of the lengths the scheme asks for and a plaintext it
/// can carry, opening the sealed output with the same key and associated data returns
/// the plaintext.
pub proof fn lemma_open_seal<A: AeadCipher>(key: Seq<u8>, nonce: Seq<u8>, ad: Seq<u8>, pt: Seq<u8>)
    requires
        A::well_formed(),
        key.len() == A::key_len(),
        nonce.len() == A::nonce_len(),
        pt.len() <= A::max_len(),
    ensures
        A::open_spec(key, ad, A::seal_spec(key, nonce, ad, pt)) == Ok::<Seq<u8>, OpenError>(pt),
{
    A::lemma_round_trip(key, nonce, ad, pt);
}

/// Empty payload: sealing zero bytes gives exactly a nonce and a tag.
pub proof fn lemma_seal_empty<A: AeadCipher>(key: Seq<u8>, nonce: Seq<u8>, ad: Seq<u8>)
    requires
        A::well_formed(),
        key.len() == A::key_len(),
        nonce.len() == A::nonce_len(),
    ensures
        A::seal_spec(key, nonce, ad, Seq::empty()).len() == A::nonce_len() + A::tag_len(),
{
    A::lemma_round_trip(key, nonce, ad, Seq::empty());
}

} // verus!

verus! {

/// Tampering with the tag of a sealed message (any nonzero change to one of its bytes)
/// makes the standard composition refuse it with `AuthenticationFailed`.
pub proof fn lemma_standard_tag_tamper<S: StreamCipher, M: AuthCode, H: HashFunction>(
    key: Seq<u8>,
    nonce: Seq<u8>,
    ad: Seq<u8>,
    pt: Seq<u8>,
    i: int,
    d: u8,
)
    requires
        General::<S, M, H>::well_formed(),
        key.len() == S::key_len(),
        nonce.len() == S::nonce_len(),
        pt.len() <= S::max_len(),
        S::nonce_len() + pt.len() <= i < S::nonce_len() + pt.len() + M::tag_len(),
        d != 0,
    ensures
        ({
            let c = General::<S, M, H>::seal_spec(key, nonce, ad, pt);
            General::<S, M, H>::open_spec(key, ad, c.update(i, c[i] ^ d)) == Err::<
                Seq<u8>,
                OpenError,
            >(OpenError::AuthenticationFailed)
        }),
{
    General::<S, M, H>::lemma_round_trip(key, nonce, ad, pt);
    let c = General::<S, M, H>::seal_spec(key, nonce, ad, pt);
    let x = c[i];
    assert(x ^ d != x) by (bit_vector)
        requires
            d != 0,
    ;
    let t = c.update(i, x ^ d);
    let nl = S::nonce_len();
    let tl = M::tag_len();
    assert(t.take(nl as int) =~= c.take(nl as int));
    assert(t.subrange(nl as int, t.len() - tl) =~= c.subrange(nl as int, c.len() - tl));
    let tag = c.subrange(c.len() - tl, c.len() as int);
    let ttag = t.subrange(t.len() - tl, t.len() as int);
    assert(ttag[i - (c.len() - tl)] != tag[i - (c.len() - tl)]);
}

} // verus!
