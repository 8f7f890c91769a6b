//! Password-based key derivation with Argon2i.
use vstd::prelude::*;
use crate::bytes::{append, ct_eq};

verus! {

/// Interactive opslimit.
pub const OPSLIMIT_INTERACTIVE: u32 = 4;

/// Interactive memlimit, in bytes.
pub const MEMLIMIT_INTERACTIVE: u32 = 33554432;

/// Moderate opslimit.
pub const OPSLIMIT_MODERATE: u32 = 6;

/// Moderate memlimit, in bytes.
pub const MEMLIMIT_MODERATE: u32 = 134217728;

/// Sensitive opslimit.
pub const OPSLIMIT_SENSITIVE: u32 = 8;

/// Sensitive memlimit, in bytes.
pub const MEMLIMIT_SENSITIVE: u32 = 536870912;

#[verifier::external_type_specification]
pub struct ExParamErr(argon2rs::ParamErr);

/// What `argon2rs::Argon2::hash` writes for Argon2i with these parameters and inputs.
pub uninterp spec fn argon2i_of(
    passes: u32,
    lanes: u32,
    kib: u32,
    password: Seq<u8>,
    salt: Seq<u8>,
    key: Seq<u8>,
    aad: Seq<u8>,
    outlen: nat,
) -> Seq<u8>;

/// The parameter check of `argon2rs::Argon2::new`, in its order.
pub open spec fn argon2_param_error(passes: u32, lanes: u32, kib: u32) -> Option<
    argon2rs::ParamErr,
> {
    if passes < 1 {
        Some(argon2rs::ParamErr::TooFewPasses)
    } else if lanes < 1 {
        Some(argon2rs::ParamErr::TooFewLanes)
    } else if 0x00ffffff < lanes {
        Some(argon2rs::ParamErr::TooManyLanes)
    } else if (kib as u64) < 8 * (lanes as u64) {
        Some(argon2rs::ParamErr::MinKiB((8 * lanes) as u64))
    } else {
        None
    }
}

/// The output of Argon2, or why its parameters were refused.
pub type Argon2Output = Result<Vec<u8>, argon2rs::ParamErr>;

/// Relies on `argon2rs::Argon2::new` (rejects parameters as `argon2_param_error` says) and
/// `Argon2::hash` (fills the output; it asserts the input lengths that `requires` states).
#[verifier::external_body]
fn argon2i_hash(
    passes: u32,
    lanes: u32,
    kib: u32,
    outlen: usize,
    password: &[u8],
    salt: &[u8],
    key: &[u8],
    aad: &[u8],
) -> (r: Argon2Output)
    requires
        4 <= outlen <= 0xffffffff,
        password@.len() <= 0xffffffff,
        8 <= salt@.len() <= 0xffffffff,
        key@.len() <= 32,
        aad@.len() <= 0xffffffff,
    ensures
        r matches Err(x) ==> argon2_param_error(passes, lanes, kib) == Some(x),
        r matches Ok(v) ==> v@ == argon2i_of(passes, lanes, kib, password@, salt@, key@, aad@, outlen as nat),
        r matches Ok(v) ==> v@.len() == outlen,
        r is Ok <==> argon2_param_error(passes, lanes, kib) is None,
{
    let a = argon2rs::Argon2::new(passes, lanes, kib, argon2rs::Variant::Argon2i)?;
    let mut out = vec![0u8; outlen];
    a.hash(&mut out, password, salt, key, aad);
    Ok(out)
}

/// Why the Argon2 parameters were refused.
#[derive(Debug, Clone, Copy, PartialEq, Eq, Structural)]
pub enum ParamError {
    TooFewPasses,
    TooFewLanes,
    TooManyLanes,
    /// The least memory, in KiB, for the lane count.
    MinKiB(u64),
}

/// Why a key could not be derived.
#[derive(Debug, Clone, Copy, PartialEq, Eq, Structural)]
pub enum KeyDerivationFail {
    SaltTooShort,
    SaltTooLong,
    OutLenTooShort,
    OutLenTooLong,
    ParameterError(ParamError),
}

pub open spec fn param_error_of(e: argon2rs::ParamErr) -> ParamError {
    match e {
        argon2rs::ParamErr::TooFewPasses => ParamError::TooFewPasses,
        argon2rs::ParamErr::TooFewLanes => ParamError::TooFewLanes,
        argon2rs::ParamErr::TooManyLanes => ParamError::TooManyLanes,
        argon2rs::ParamErr::MinKiB(k) => ParamError::MinKiB(k),
    }
}

impl From<argon2rs::ParamErr> for KeyDerivationFail {
    fn from(err: argon2rs::ParamErr) -> (r: KeyDerivationFail) {
        match err {
            argon2rs::ParamErr::TooFewPasses => KeyDerivationFail::ParameterError(
                ParamError::TooFewPasses,
            ),
            argon2rs::ParamErr::TooFewLanes => KeyDerivationFail::ParameterError(
                ParamError::TooFewLanes,
            ),
            argon2rs::ParamErr::TooManyLanes => KeyDerivationFail::ParameterError(
                ParamError::TooManyLanes,
            ),
            argon2rs::ParamErr::MinKiB(k) => KeyDerivationFail::ParameterError(
                ParamError::MinKiB(k),
            ),
        }
    }
}

impl vstd::std_specs::convert::FromSpecImpl<argon2rs::ParamErr> for KeyDerivationFail {
    open spec fn obeys_from_spec() -> bool {
        true
    }

    open spec fn from_spec(err: argon2rs::ParamErr) -> KeyDerivationFail {
        KeyDerivationFail::ParameterError(param_error_of(err))
    }
}

/// The view of a `derive` result.
pub open spec fn key_result(r: Result<Vec<u8>, KeyDerivationFail>) -> Result<
    Seq<u8>,
    KeyDerivationFail,
> {
    match r {
        Ok(v) => Ok(v@),
        Err(e) => Err(e),
    }
}

/// Argon2i key derivation: checks the lengths, then the cost parameters, then hashes.
pub open spec fn argon2i_derive(
    passes: u32,
    lanes: u32,
    kib: u32,
    key: Seq<u8>,
    aad: Seq<u8>,
    password: Seq<u8>,
    salt: Seq<u8>,
    outlen: nat,
) -> Result<Seq<u8>, KeyDerivationFail> {
    if salt.len() < 8 {
        Err(KeyDerivationFail::SaltTooShort)
    } else if salt.len() > 0xffffffff {
        Err(KeyDerivationFail::SaltTooLong)
    } else if outlen < 4 {
        Err(KeyDerivationFail::OutLenTooShort)
    } else if outlen > 0xffffffff {
        Err(KeyDerivationFail::OutLenTooLong)
    } else {
        match argon2_param_error(passes, lanes, kib) {
            Some(e) => Err(KeyDerivationFail::ParameterError(param_error_of(e))),
            None => Ok(argon2i_of(passes, lanes, kib, password, salt, key, aad, outlen)),
        }
    }
}

/// A configurable password-based key derivation.
pub trait KeyDerive: Sized {
    /// Output length in bytes.
    spec fn size(&self) -> nat;

    spec fn secret(&self) -> Seq<u8>;

    spec fn assoc(&self) -> Seq<u8>;

    spec fn opslimit(&self) -> u32;

    /// Memory cost in KiB.
    spec fn kib(&self) -> u32;

    /// Degree of parallelism.
    spec fn lanes(&self) -> u32;

    /// The derivation of `outlen` bytes from a password and salt.
    spec fn derived(&self, password: Seq<u8>, salt: Seq<u8>, outlen: nat) -> Result<
        Seq<u8>,
        KeyDerivationFail,
    >;

    /// The settings that `new` starts from.
    spec fn is_initial(&self) -> bool;

    fn new() -> (r: Self)
        ensures
            r.is_initial(),
    ;

    fn with_size(self, len: usize) -> (r: Self)
        ensures
            r.size() == len,
            r.secret() == self.secret(),
            r.assoc() == self.assoc(),
            r.opslimit() == self.opslimit(),
            r.kib() == self.kib(),
            r.lanes() == self.lanes(),
    ;

    fn with_key(self, key: &[u8]) -> (r: Self)
        ensures
            r.size() == self.size(),
            r.secret() == key@,
            r.assoc() == self.assoc(),
            r.opslimit() == self.opslimit(),
            r.kib() == self.kib(),
            r.lanes() == self.lanes(),
    ;

    fn with_aad(self, aad: &[u8]) -> (r: Self)
        ensures
            r.size() == self.size(),
            r.secret() == self.secret(),
            r.assoc() == aad@,
            r.opslimit() == self.opslimit(),
            r.kib() == self.kib(),
            r.lanes() == self.lanes(),
    ;

    fn with_opslimit(self, opslimit: u32) -> (r: Self)
        ensures
            r.size() == self.size(),
            r.secret() == self.secret(),
            r.assoc() == self.assoc(),
            r.opslimit() == opslimit,
            r.kib() == self.kib(),
            r.lanes() == self.lanes(),
    ;

    /// Sets the memory cost from a limit in bytes, rounded down to whole KiB.
    fn with_memlimit(self, memlimit: u32) -> (r: Self)
        ensures
            r.size() == self.size(),
            r.secret() == self.secret(),
            r.assoc() == self.assoc(),
            r.opslimit() == self.opslimit(),
            r.kib() == memlimit / 1024,
            r.lanes() == self.lanes(),
    ;

    fn derive(&self, password: &[u8], salt: &[u8]) -> (r: Result<Vec<u8>, KeyDerivationFail>)
        requires
            self.secret().len() <= 32,
            self.assoc().len() <= 0xffffffff,
            password@.len() <= 0xffffffff,
        ensures
            key_result(r) == self.derived(password@, salt@, self.size()),
            r matches Ok(v) ==> v@.len() == self.size(),
    ;
}

/// Checking a password against a derived key.
pub trait KeyVerify: KeyDerive {
    /// Derives a key as long as `hash` and compares the two in constant time.
    fn verify(&self, password: &[u8], salt: &[u8], hash: &[u8]) -> (r: Result<
        bool,
        KeyDerivationFail,
    >)
        requires
            self.secret().len() <= 32,
            self.assoc().len() <= 0xffffffff,
            password@.len() <= 0xffffffff,
        ensures
            match self.derived(password@, salt@, hash@.len()) {
                Ok(k) => r == Ok::<bool, KeyDerivationFail>(k == hash@),
                Err(e) => r == Err::<bool, KeyDerivationFail>(e),
            },
    ;
}

/// Argon2i parameters: output length, optional secret key and associated data, and costs.
#[derive(Debug, Clone)]
pub struct Argon2i {
    /// Secret key mixed into the hash, at most 32 bytes.
    pub key: Vec<u8>,
    /// Associated data mixed into the hash.
    pub aad: Vec<u8>,
    /// Output length in bytes.
    pub outlen: usize,
    /// Number of passes over memory.
    pub passes: u32,
    /// Degree of parallelism.
    pub lanes: u32,
    /// Memory cost in KiB.
    pub kib: u32,
}

impl Argon2i {
    fn derive_len(&self, password: &[u8], salt: &[u8], outlen: usize) -> (r: Result<
        Vec<u8>,
        KeyDerivationFail,
    >)
        requires
            self.key@.len() <= 32,
            self.aad@.len() <= 0xffffffff,
            password@.len() <= 0xffffffff,
        ensures
            key_result(r) == argon2i_derive(
                self.passes,
                self.lanes,
                self.kib,
                self.key@,
                self.aad@,
                password@,
                salt@,
                outlen as nat,
            ),
            r matches Ok(v) ==> v@.len() == outlen,
    {
        if salt.len() < 8 {
            return Err(KeyDerivationFail::SaltTooShort);
        }
        if salt.len() > 0xffffffff {
            return Err(KeyDerivationFail::SaltTooLong);
        }
        if outlen < 4 {
            return Err(KeyDerivationFail::OutLenTooShort);
        }
        if outlen > 0xffffffff {
            return Err(KeyDerivationFail::OutLenTooLong);
        }
        match argon2i_hash(
            self.passes,
            self.lanes,
            self.kib,
            outlen,
            password,
            salt,
            self.key.as_slice(),
            self.aad.as_slice(),
        ) {
            Ok(v) => Ok(v),
            Err(e) => Err(KeyDerivationFail::from(e)),
        }
    }
}

impl Default for Argon2i {
    /// 32-byte output, interactive costs, one lane, no key or associated data.
    fn default() -> (r: Argon2i)
        ensures
            r.outlen == 32,
            r.passes == OPSLIMIT_INTERACTIVE,
            r.lanes == 1,
            r.kib == MEMLIMIT_INTERACTIVE / 1024,
            r.key@.len() == 0,
            r.aad@.len() == 0,
    {
        Argon2i {
            key: Vec::new(),
            aad: Vec::new(),
            outlen: 32,
            passes: OPSLIMIT_INTERACTIVE,
            lanes: 1,
            kib: MEMLIMIT_INTERACTIVE / 1024,
        }
    }
}

impl KeyDerive for Argon2i {
    open spec fn size(&self) -> nat {
        self.outlen as nat
    }

    open spec fn secret(&self) -> Seq<u8> {
        self.key@
    }

    open spec fn assoc(&self) -> Seq<u8> {
        self.aad@
    }

    open spec fn opslimit(&self) -> u32 {
        self.passes
    }

    open spec fn kib(&self) -> u32 {
        self.kib
    }

    open spec fn lanes(&self) -> u32 {
        self.lanes
    }

    open spec fn derived(&self, password: Seq<u8>, salt: Seq<u8>, outlen: nat) -> Result<
        Seq<u8>,
        KeyDerivationFail,
    > {
        argon2i_derive(
            self.passes,
            self.lanes,
            self.kib,
            self.key@,
            self.aad@,
            password,
            salt,
            outlen,
        )
    }

    /// 32-byte output, interactive costs, one lane, no key or associated data.
    open spec fn is_initial(&self) -> bool {
        &&& self.outlen == 32
        &&& self.passes == OPSLIMIT_INTERACTIVE
        &&& self.lanes == 1
        &&& self.kib == MEMLIMIT_INTERACTIVE / 1024
        &&& self.key@.len() == 0
        &&& self.aad@.len() == 0
    }

    fn new() -> (r: Self) {
        Argon2i::default()
    }

    fn with_size(self, len: usize) -> (r: Self) {
        Argon2i { outlen: len, ..self }
    }

    fn with_key(self, key: &[u8]) -> (r: Self) {
        let mut k: Vec<u8> = Vec::new();
        append(&mut k, key);
        Argon2i { key: k, ..self }
    }

    fn with_aad(self, aad: &[u8]) -> (r: Self) {
        let mut a: Vec<u8> = Vec::new();
        append(&mut a, aad);
        Argon2i { aad: a, ..self }
    }

    fn with_opslimit(self, opslimit: u32) -> (r: Self) {
        Argon2i { passes: opslimit, ..self }
    }

    fn with_memlimit(self, memlimit: u32) -> (r: Self) {
        Argon2i { kib: memlimit / 1024, ..self }
    }

    fn derive(&self, password: &[u8], salt: &[u8]) -> (r: Result<Vec<u8>, KeyDerivationFail>) {
        self.derive_len(password, salt, self.outlen)
    }
}

impl KeyVerify for Argon2i {
    fn verify(&self, password: &[u8], salt: &[u8], hash: &[u8]) -> (r: Result<
        bool,
        KeyDerivationFail,
    >) {
        match self.derive_len(password, salt, hash.len()) {
            Ok(k) => Ok(ct_eq(k.as_slice(), hash)),
            Err(e) => Err(e),
        }
    }
}

} // verus!
