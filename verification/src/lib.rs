//! Publicly verifiable distributed key generation and threshold decryption
//! over the BLS12-381 pairing.
//!
//! Field and group elements are held in their canonical compressed encodings;
//! the arithmetic on them is done by the arkworks crates, and every function
//! here states what it computes in terms of those operations.

pub mod bytes;
pub mod error;
pub mod scalar;
pub mod curve;
pub mod domain;
pub mod poly;
pub mod validator;
pub mod index_map;
pub mod dkg;
pub mod symmetric;
pub mod key_share;
pub mod ciphertext;
pub mod decryption;
pub mod combine;
pub mod context;
pub mod pvss;
pub mod refresh;
pub mod messages;
pub mod api;
pub mod wire;
pub mod setup;
pub mod fast;
pub mod recovery;
pub mod debug;
pub mod pv;
