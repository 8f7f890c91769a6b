//! Authenticated-encryption boxes composed from pluggable primitives.
pub mod aead;
pub mod bytes;
pub mod kdf;
pub mod primitives;
pub mod pwhash;
pub mod riv;
pub mod sealedbox;
pub mod secretbox;
pub mod suite;
