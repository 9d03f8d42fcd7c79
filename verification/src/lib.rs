//! Kasbah: private transfers of value. A depositor locks an amount behind a
//! Pedersen commitment that a pool on the ledger records; the recipient
//! redeems it once, with a nullifier and a proof that says nothing of the
//! amount.
//!
//! - [`pool`], [`deposit`], [`genesis`], [`admin`], [`treasury`]: the ledger.
//! - [`receipt`], [`secrets`], [`redemption`]: what depositor and recipient
//!   make off the ledger.
//! - [`groth16`], [`point`], [`encoding`]: proofs and points in the bytes
//!   that the verifier on the ledger takes.
//! - [`conversions`], [`merkle`], [`hashing`], [`generators`], [`rand`]:
//!   field elements at the boundary to JavaScript.
//! - [`bn254`], [`curve25519`]: the calls into the cryptographic crates, each
//!   with the contract that the proofs of this crate rest on.

pub mod admin;
pub mod bn254;
pub mod constants;
pub mod conversions;
pub mod curve25519;
pub mod deposit;
pub mod encoding;
pub mod errors;
pub mod generators;
pub mod genesis;
pub mod groth16;
pub mod hashing;
pub mod merkle;
pub mod point;
pub mod pool;
pub mod rand;
pub mod receipt;
pub mod redemption;
pub mod secrets;
pub mod treasury;
