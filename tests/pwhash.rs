use sarkara::pwhash::{
    Argon2i, KeyDerivationFail, KeyDerive, KeyVerify, ParamError, MEMLIMIT_INTERACTIVE,
    OPSLIMIT_INTERACTIVE,
};

fn light() -> Argon2i {
    Argon2i::new().with_opslimit(1).with_memlimit(64 * 1024)
}

#[test]
fn default_parameters() {
    let a = Argon2i::new();
    assert_eq!(a.outlen, 32);
    assert_eq!(a.passes, OPSLIMIT_INTERACTIVE);
    assert_eq!(a.kib, MEMLIMIT_INTERACTIVE / 1024);
    assert_eq!(a.lanes, 1);
}

#[test]
fn derive_is_deterministic_and_sized() {
    let k1 = light().derive(b"password", b"saltsalt").unwrap();
    let k2 = light().derive(b"password", b"saltsalt").unwrap();
    assert_eq!(k1.len(), 32);
    assert_eq!(k1, k2);
    assert_ne!(&k1[..8], b"password");
    let k3 = light().derive(b"password", b"saltsal2").unwrap();
    assert_ne!(k1, k3);
    let k4 = light().with_size(16).derive(b"password", b"saltsalt").unwrap();
    assert_eq!(k4.len(), 16);
}

#[test]
fn key_and_aad_change_output() {
    let base = light().derive(b"pw", b"12345678").unwrap();
    let keyed = light().with_key(b"secret").derive(b"pw", b"12345678").unwrap();
    let with_ad = light().with_aad(b"context").derive(b"pw", b"12345678").unwrap();
    assert_ne!(base, keyed);
    assert_ne!(base, with_ad);
}

#[test]
fn verify_accepts_and_rejects() {
    let k = light().derive(b"hunter2", b"NaClNaCl").unwrap();
    assert_eq!(light().verify(b"hunter2", b"NaClNaCl", &k), Ok(true));
    assert_eq!(light().verify(b"hunter3", b"NaClNaCl", &k), Ok(false));
}

#[test]
fn salt_too_short() {
    assert_eq!(light().derive(b"pw", b"1234567"), Err(KeyDerivationFail::SaltTooShort));
}

#[test]
fn out_len_too_short() {
    assert_eq!(light().with_size(3).derive(b"pw", b"12345678"), Err(KeyDerivationFail::OutLenTooShort));
}

#[test]
fn too_few_passes() {
    assert_eq!(
        light().with_opslimit(0).derive(b"pw", b"12345678"),
        Err(KeyDerivationFail::ParameterError(ParamError::TooFewPasses))
    );
}

#[test]
fn memory_too_small() {
    assert_eq!(
        light().with_memlimit(4 * 1024).derive(b"pw", b"12345678"),
        Err(KeyDerivationFail::ParameterError(ParamError::MinKiB(8)))
    );
}
