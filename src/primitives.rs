//! What a primitive must offer to take part in a composition.
use vstd::prelude::*;

verus! {

/// A keystream cipher: `process` masks data with a keystream chosen by key and nonce.
pub trait StreamCipher {
    spec fn key_len() -> nat;

    spec fn nonce_len() -> nat;

    /// The longest input the keystream covers.
    spec fn max_len() -> nat;

    spec fn transform(key: Seq<u8>, nonce: Seq<u8>, data: Seq<u8>) -> Seq<u8>;

    /// Applying the transform twice with one key and nonce restores the data.
    proof fn lemma_transform_involutive(key: Seq<u8>, nonce: Seq<u8>, data: Seq<u8>)
        requires
            key.len() == Self::key_len(),
            nonce.len() == Self::nonce_len(),
            data.len() <= Self::max_len(),
        ensures
            Self::transform(key, nonce, data).len() == data.len(),
            Self::transform(key, nonce, Self::transform(key, nonce, data)) == data,
    ;

    fn key_length() -> (r: usize)
        ensures
            r == Self::key_len(),
    ;

    fn nonce_length() -> (r: usize)
        ensures
            r == Self::nonce_len(),
    ;

    fn max_length() -> (r: usize)
        ensures
            r == Self::max_len(),
    ;

    fn process(key: &[u8], nonce: &[u8], data: &[u8]) -> (r: Vec<u8>)
        requires
            key@.len() == Self::key_len(),
            nonce@.len() == Self::nonce_len(),
            data@.len() <= Self::max_len(),
        ensures
            r@ == Self::transform(key@, nonce@, data@),
    ;
}

/// A message-authentication code with fixed key and tag lengths.
pub trait AuthCode {
    spec fn key_len() -> nat;

    spec fn tag_len() -> nat;

    spec fn mac(key: Seq<u8>, msg: Seq<u8>) -> Seq<u8>;

    proof fn lemma_tag_len(key: Seq<u8>, msg: Seq<u8>)
        requires
            key.len() == Self::key_len(),
        ensures
            Self::mac(key, msg).len() == Self::tag_len(),
    ;

    fn key_length() -> (r: usize)
        ensures
            r == Self::key_len(),
    ;

    fn tag_length() -> (r: usize)
        ensures
            r == Self::tag_len(),
    ;

    fn authenticate(key: &[u8], msg: &[u8]) -> (r: Vec<u8>)
        requires
            key@.len() == Self::key_len(),
        ensures
            r@ == Self::mac(key@, msg@),
    ;
}

/// A hash function with a fixed output length.
pub trait HashFunction {
    spec fn output_len() -> nat;

    spec fn digest(msg: Seq<u8>) -> Seq<u8>;

    proof fn lemma_digest_len(msg: Seq<u8>)
        ensures
            Self::digest(msg).len() == Self::output_len(),
    ;

    fn output_length() -> (r: usize)
        ensures
            r == Self::output_len(),
    ;

    fn hash(msg: &[u8]) -> (r: Vec<u8>)
        ensures
            r@ == Self::digest(msg@),
    ;
}

/// A key-encapsulation mechanism. Randomness is handed in as seed bytes.
pub trait KeyExchange {
    spec fn seed_len() -> nat;

    spec fn secret_key_len() -> nat;

    spec fn public_key_len() -> nat;

    /// Length of the encapsulated value sent with each message.
    spec fn ciphertext_len() -> nat;

    spec fn shared_len() -> nat;

    /// The key pair that `keygen` makes from a seed.
    spec fn keypair(seed: Seq<u8>) -> (Seq<u8>, Seq<u8>);

    /// The shared secret and encapsulated value that `encapsulate` makes.
    spec fn encap(pk: Seq<u8>, seed: Seq<u8>) -> (Seq<u8>, Seq<u8>);

    /// What `decapsulate` recovers, or `None` where it rejects the value.
    spec fn decap(sk: Seq<u8>, enc: Seq<u8>) -> Option<Seq<u8>>;

    proof fn lemma_encap_len(pk: Seq<u8>, seed: Seq<u8>)
        requires
            pk.len() == Self::public_key_len(),
            seed.len() == Self::seed_len(),
        ensures
            Self::encap(pk, seed).0.len() == Self::shared_len(),
            Self::encap(pk, seed).1.len() == Self::ciphertext_len(),
    ;

    fn seed_length() -> (r: usize)
        ensures
            r == Self::seed_len(),
    ;

    fn ciphertext_length() -> (r: usize)
        ensures
            r == Self::ciphertext_len(),
    ;

    fn secret_key_length() -> (r: usize)
        ensures
            r == Self::secret_key_len(),
    ;

    fn public_key_length() -> (r: usize)
        ensures
            r == Self::public_key_len(),
    ;

    fn keygen(seed: &[u8]) -> (r: (Vec<u8>, Vec<u8>))
        requires
            seed@.len() == Self::seed_len(),
        ensures
            (r.0@, r.1@) == Self::keypair(seed@),
            r.0@.len() == Self::secret_key_len(),
            r.1@.len() == Self::public_key_len(),
    ;

    fn encapsulate(pk: &[u8], seed: &[u8]) -> (r: (Vec<u8>, Vec<u8>))
        requires
            pk@.len() == Self::public_key_len(),
            seed@.len() == Self::seed_len(),
        ensures
            (r.0@, r.1@) == Self::encap(pk@, seed@),
            r.0@.len() == Self::shared_len(),
            r.1@.len() == Self::ciphertext_len(),
    ;

    fn decapsulate(sk: &[u8], enc: &[u8]) -> (r: Option<Vec<u8>>)
        requires
            sk@.len() == Self::secret_key_len(),
            enc@.len() == Self::ciphertext_len(),
        ensures
            r matches Some(s) ==> Self::decap(sk@, enc@) == Some(s@) && s@.len() == Self::shared_len(),
            r is None ==> Self::decap(sk@, enc@) is None,
    ;
}

} // verus!
