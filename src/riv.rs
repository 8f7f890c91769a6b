//! The key-committing composition, built on a synthetic IV.
use vstd::prelude::*;
use core::marker::PhantomData;
use crate::aead::{auth_message, auth_msg, length_ok, AeadCipher, OpenError};
use crate::bytes::{append, concat, copy_range, ct_eq, lemma_xor_twice, wipe, xor_bytes, xor_seq};
use crate::kdf::{derive_subkeys, lemma_subkeys_len, subkeys};
use crate::primitives::{AuthCode, HashFunction, StreamCipher};

verus! {

/// Robust composition over a stream cipher `S`, a MAC `M` and a hash `H`.
///
/// A synthetic IV, the hash of key, nonce, associated data and plaintext, chooses the
/// encryption subkey; the tag is that IV masked by a MAC over the ciphertext. The opener
/// unmasks the IV, decrypts, and accepts only if hashing the recovered plaintext gives
/// the same IV, which binds a ciphertext to one key.
pub struct RivGeneral<S, M, H> {
    marker: PhantomData<(S, M, H)>,
}

impl<S: StreamCipher, M: AuthCode, H: HashFunction> RivGeneral<S, M, H> {
    /// The MAC subkey, from key and nonce.
    pub open spec fn mask_key(key: Seq<u8>, nonce: Seq<u8>) -> Seq<u8> {
        subkeys::<H>(key + nonce, M::key_len())
    }

    /// The synthetic IV of a message.
    pub open spec fn siv(key: Seq<u8>, nonce: Seq<u8>, ad: Seq<u8>, pt: Seq<u8>) -> Seq<u8> {
        H::digest(key + nonce + auth_msg(ad, pt)).take(M::tag_len() as int)
    }

    /// The encryption subkey, from key and synthetic IV.
    pub open spec fn enc_key(key: Seq<u8>, siv: Seq<u8>) -> Seq<u8> {
        subkeys::<H>(key + siv, S::key_len())
    }

    fn synthetic_iv(key: &[u8], nonce: &[u8], ad: &[u8], pt: &[u8]) -> (r: Vec<u8>)
        requires
            M::tag_len() <= H::output_len(),
        ensures
            r@ == Self::siv(key@, nonce@, ad@, pt@),
            r@.len() == M::tag_len(),
    {
        let mut input = concat(key, nonce);
        let msg = auth_message(ad, pt);
        append(&mut input, msg.as_slice());
        let d = H::hash(input.as_slice());
        proof {
            H::lemma_digest_len(input@);
        }
        let r = copy_range(d.as_slice(), 0, M::tag_length());
        assert(r@ =~= Self::siv(key@, nonce@, ad@, pt@));
        wipe(&mut input);
        r
    }
}

impl<S: StreamCipher, M: AuthCode, H: HashFunction> AeadCipher for RivGeneral<S, M, H> {
    open spec fn key_len() -> nat {
        S::key_len()
    }

    open spec fn nonce_len() -> nat {
        S::nonce_len()
    }

    open spec fn tag_len() -> nat {
        M::tag_len()
    }

    open spec fn max_len() -> nat {
        S::max_len()
    }

    open spec fn well_formed() -> bool {
        &&& H::output_len() > 0
        &&& M::tag_len() <= H::output_len()
        &&& S::nonce_len() + M::tag_len() + S::max_len() <= usize::MAX
    }

    open spec fn seal_spec(key: Seq<u8>, nonce: Seq<u8>, ad: Seq<u8>, pt: Seq<u8>) -> Seq<u8> {
        let siv = Self::siv(key, nonce, ad, pt);
        let ct = S::transform(Self::enc_key(key, siv), nonce, pt);
        nonce + ct + xor_seq(siv, M::mac(Self::mask_key(key, nonce), auth_msg(ad, ct)))
    }

    open spec fn open_spec(key: Seq<u8>, ad: Seq<u8>, input: Seq<u8>) -> Result<Seq<u8>, OpenError> {
        let nl = S::nonce_len();
        let tl = M::tag_len();
        if !length_ok(input.len(), nl, tl, S::max_len()) {
            Err(OpenError::InvalidLength)
        } else {
            let nonce = input.take(nl as int);
            let ct = input.subrange(nl as int, input.len() - tl);
            let tag = input.subrange(input.len() - tl, input.len() as int);
            let siv = xor_seq(tag, M::mac(Self::mask_key(key, nonce), auth_msg(ad, ct)));
            let pt = S::transform(Self::enc_key(key, siv), nonce, ct);
            if Self::siv(key, nonce, ad, pt) == siv {
                Ok(pt)
            } else {
                Err(OpenError::AuthenticationFailed)
            }
        }
    }

    proof fn lemma_round_trip(key: Seq<u8>, nonce: Seq<u8>, ad: Seq<u8>, pt: Seq<u8>) {
        let siv = Self::siv(key, nonce, ad, pt);
        H::lemma_digest_len(key + nonce + auth_msg(ad, pt));
        let ek = Self::enc_key(key, siv);
        lemma_subkeys_len::<H>(key + siv, S::key_len());
        S::lemma_transform_involutive(ek, nonce, pt);
        let ct = S::transform(ek, nonce, pt);
        let mk = Self::mask_key(key, nonce);
        lemma_subkeys_len::<H>(key + nonce, M::key_len());
        let mask = M::mac(mk, auth_msg(ad, ct));
        M::lemma_tag_len(mk, auth_msg(ad, ct));
        let tag = xor_seq(siv, mask);
        lemma_xor_twice(siv, mask);
        let out = Self::seal_spec(key, nonce, ad, pt);
        let nl = S::nonce_len();
        let tl = M::tag_len();
        assert(out.take(nl as int) =~= nonce);
        assert(out.subrange(nl as int, out.len() - tl) =~= ct);
        assert(out.subrange(out.len() - tl, out.len() as int) =~= tag);
    }

    fn key_length() -> (r: usize) {
        S::key_length()
    }

    fn nonce_length() -> (r: usize) {
        S::nonce_length()
    }

    fn tag_length() -> (r: usize) {
        M::tag_length()
    }

    fn max_length() -> (r: usize) {
        S::max_length()
    }

    fn seal(key: &[u8], nonce: &[u8], ad: &[u8], pt: &[u8]) -> (r: Vec<u8>) {
        let mut siv = Self::synthetic_iv(key, nonce, ad, pt);
        let mut seed = concat(key, siv.as_slice());
        let mut ek = derive_subkeys::<H>(seed.as_slice(), S::key_length());
        let ct = S::process(ek.as_slice(), nonce, pt);
        let mut mseed = concat(key, nonce);
        let mut mk = derive_subkeys::<H>(mseed.as_slice(), M::key_length());
        let msg = auth_message(ad, ct.as_slice());
        let mask = M::authenticate(mk.as_slice(), msg.as_slice());
        proof {
            M::lemma_tag_len(mk@, msg@);
        }
        let tag = xor_bytes(siv.as_slice(), mask.as_slice());
        let mut out = concat(nonce, ct.as_slice());
        append(&mut out, tag.as_slice());
        wipe(&mut siv);
        wipe(&mut seed);
        wipe(&mut ek);
        wipe(&mut mseed);
        wipe(&mut mk);
        out
    }

    fn open(key: &[u8], ad: &[u8], input: &[u8]) -> (r: Result<Vec<u8>, OpenError>) {
        let nl = S::nonce_length();
        let tl = M::tag_length();
        if input.len() < nl + tl || input.len() - nl - tl > S::max_length() {
            return Err(OpenError::InvalidLength);
        }
        let nonce = copy_range(input, 0, nl);
        let ct = copy_range(input, nl, input.len() - tl);
        let tag = copy_range(input, input.len() - tl, input.len());
        let mut mseed = concat(key, nonce.as_slice());
        let mut mk = derive_subkeys::<H>(mseed.as_slice(), M::key_length());
        let msg = auth_message(ad, ct.as_slice());
        let mask = M::authenticate(mk.as_slice(), msg.as_slice());
        proof {
            M::lemma_tag_len(mk@, msg@);
        }
        wipe(&mut mseed);
        wipe(&mut mk);
        let mut siv = xor_bytes(tag.as_slice(), mask.as_slice());
        let mut seed = concat(key, siv.as_slice());
        let mut ek = derive_subkeys::<H>(seed.as_slice(), S::key_length());
        wipe(&mut seed);
        let mut pt = S::process(ek.as_slice(), nonce.as_slice(), ct.as_slice());
        wipe(&mut ek);
        let check = Self::synthetic_iv(key, nonce.as_slice(), ad, pt.as_slice());
        let ok = ct_eq(check.as_slice(), siv.as_slice());
        wipe(&mut siv);
        if !ok {
            wipe(&mut pt);
            return Err(OpenError::AuthenticationFailed);
        }
        Ok(pt)
    }
}

} // verus!
