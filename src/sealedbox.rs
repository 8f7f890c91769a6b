//! Public-key sealed messages: `encapsulated ‖ nonce ‖ ciphertext ‖ tag`.
use vstd::prelude::*;
use crate::aead::{length_ok, view_result, AeadCipher, OpenError};
use crate::bytes::{append, copy_range, wipe};
use crate::primitives::KeyExchange;

verus! {

/// The KEM's shared secret is a key of the AEAD, and every sealed length fits a `usize`.
pub open spec fn compatible<K: KeyExchange, A: AeadCipher>() -> bool {
    &&& A::well_formed()
    &&& K::shared_len() == A::key_len()
    &&& K::ciphertext_len() + A::nonce_len() + A::tag_len() + A::max_len() <= usize::MAX
}

/// The sealed message for a public key, KEM seed, nonce and plaintext.
pub open spec fn sealed<K: KeyExchange, A: AeadCipher>(
    pk: Seq<u8>,
    seed: Seq<u8>,
    nonce: Seq<u8>,
    pt: Seq<u8>,
) -> Seq<u8> {
    let (ss, enc) = K::encap(pk, seed);
    enc + A::seal_spec(ss, nonce, Seq::empty(), pt)
}

/// What opening `input` with secret key `sk` gives.
pub open spec fn opened<K: KeyExchange, A: AeadCipher>(sk: Seq<u8>, input: Seq<u8>) -> Result<
    Seq<u8>,
    OpenError,
> {
    let cl = K::ciphertext_len();
    if input.len() < cl || !length_ok(
        (input.len() - cl) as nat,
        A::nonce_len(),
        A::tag_len(),
        A::max_len(),
    ) {
        Err(OpenError::InvalidLength)
    } else {
        match K::decap(sk, input.take(cl as int)) {
            None => Err(OpenError::DecapsulationFailed),
            Some(ss) => A::open_spec(ss, Seq::empty(), input.skip(cl as int)),
        }
    }
}

/// Seals `pt` to the holder of the secret key matching `pk`.
///
/// `seed` is the KEM's fresh randomness, `nonce` the AEAD nonce.
pub fn seal<K: KeyExchange, A: AeadCipher>(pk: &[u8], seed: &[u8], nonce: &[u8], pt: &[u8]) -> (r:
    Vec<u8>)
    requires
        compatible::<K, A>(),
        pk@.len() == K::public_key_len(),
        seed@.len() == K::seed_len(),
        nonce@.len() == A::nonce_len(),
        pt@.len() <= A::max_len(),
    ensures
        r@ == sealed::<K, A>(pk@, seed@, nonce@, pt@),
        r@.len() == K::ciphertext_len() + A::nonce_len() + pt@.len() + A::tag_len(),
{
    let (mut ss, enc) = K::encapsulate(pk, seed);
    let ad: Vec<u8> = Vec::new();
    assert(ad@ =~= Seq::<u8>::empty());
    proof {
        A::lemma_round_trip(ss@, nonce@, ad@, pt@);
    }
    let inner = A::seal(ss.as_slice(), nonce, ad.as_slice(), pt);
    wipe(&mut ss);
    let mut out: Vec<u8> = Vec::new();
    append(&mut out, enc.as_slice());
    append(&mut out, inner.as_slice());
    out
}

/// Opens a sealed message with secret key `sk`.
pub fn open<K: KeyExchange, A: AeadCipher>(sk: &[u8], input: &[u8]) -> (r: Result<
    Vec<u8>,
    OpenError,
>)
    requires
        compatible::<K, A>(),
        sk@.len() == K::secret_key_len(),
    ensures
        view_result(r) == opened::<K, A>(sk@, input@),
{
    let cl = K::ciphertext_length();
    if input.len() < cl || input.len() - cl < A::nonce_length() + A::tag_length() || input.len()
        - cl - A::nonce_length() - A::tag_length() > A::max_length() {
        return Err(OpenError::InvalidLength);
    }
    let enc = copy_range(input, 0, cl);
    let rest = copy_range(input, cl, input.len());
    assert(enc@ =~= input@.take(cl as int));
    assert(rest@ =~= input@.skip(cl as int));
    match K::decapsulate(sk, enc.as_slice()) {
        None => Err(OpenError::DecapsulationFailed),
        Some(ss) => {
            let mut ss = ss;
            let ad: Vec<u8> = Vec::new();
            assert(ad@ =~= Seq::<u8>::empty());
            let r = A::open(ss.as_slice(), ad.as_slice(), rest.as_slice());
            wipe(&mut ss);
            r
        },
    }
}

/// Sealed-box round trip: where the KEM's decapsulation with `sk` recovers the secret that
/// encapsulation to `pk` made, opening the sealed message returns the plaintext.
pub proof fn lemma_sealed_round_trip<K: KeyExchange, A: AeadCipher>(
    sk: Seq<u8>,
    pk: Seq<u8>,
    seed: Seq<u8>,
    nonce: Seq<u8>,
    pt: Seq<u8>,
)
    requires
        compatible::<K, A>(),
        pk.len() == K::public_key_len(),
        seed.len() == K::seed_len(),
        nonce.len() == A::nonce_len(),
        pt.len() <= A::max_len(),
        K::decap(sk, K::encap(pk, seed).1) == Some(K::encap(pk, seed).0),
    ensures
        opened::<K, A>(sk, sealed::<K, A>(pk, seed, nonce, pt)) == Ok::<Seq<u8>, OpenError>(pt),
{
    let (ss, enc) = K::encap(pk, seed);
    K::lemma_encap_len(pk, seed);
    A::lemma_round_trip(ss, nonce, Seq::empty(), pt);
    let out = sealed::<K, A>(pk, seed, nonce, pt);
    assert(out.take(K::ciphertext_len() as int) =~= enc);
    assert(out.skip(K::ciphertext_len() as int) =~= A::seal_spec(ss, nonce, Seq::empty(), pt));
}

/// Empty payload: a sealed empty message is exactly the encapsulated value, a nonce and a tag.
pub proof fn lemma_sealed_empty<K: KeyExchange, A: AeadCipher>(
    pk: Seq<u8>,
    seed: Seq<u8>,
    nonce: Seq<u8>,
)
    requires
        compatible::<K, A>(),
        pk.len() == K::public_key_len(),
        seed.len() == K::seed_len(),
        nonce.len() == A::nonce_len(),
    ensures
        sealed::<K, A>(pk, seed, nonce, Seq::empty()).len() == K::ciphertext_len() + A::nonce_len()
            + A::tag_len(),
{
    K::lemma_encap_len(pk, seed);
    A::lemma_round_trip(K::encap(pk, seed).0, nonce, Seq::empty(), Seq::empty());
}

} // verus!
