use vstd::prelude::*;

verus! {

/// Identifier of the pool that the genesis instruction creates.
pub const COMMITMENT_POOL_GENESIS_ID: u64 = 1;

/// Largest number of commitments, and of nullifiers, that one pool holds.
pub const MAX_COMMITMENTS_PER_POOL: u16 = 1000;

/// Length in bytes of a compressed Pedersen commitment.
pub const PEDERSEN_COMMITMENT_LEN: usize = 32;

/// Length in bytes of a Pedersen opening, a scalar.
pub const PEDERSEN_OPENING_LEN: usize = 32;

/// Length in bytes of a nullifier, a BLAKE3 digest.
pub const NULLIFIER_LEN: usize = 32;

/// Length in bytes of an account address.
pub const PUBKEY_LEN: usize = 32;

/// Lamports in one SOL.
pub const LAMPORTS_PER_SOL: u64 = 1_000_000_000;

/// Fee taken on each deposit: one ten-thousandth of a SOL.
pub const FIXED_FEE: u64 = 100_000;

} // verus!
