use vstd::prelude::*;
use crate::admin::{assert_eq_admin, ADMINS};
use crate::constants::{COMMITMENT_POOL_GENESIS_ID, FIXED_FEE, LAMPORTS_PER_SOL, PUBKEY_LEN};
use crate::errors::KasbahErrors;
use crate::pool::{CommitmentPool, PoolState};
use crate::treasury::Treasury;

verus! {

/// What the genesis instruction is called with.
#[derive(Clone, Copy, Debug, PartialEq, Eq)]
pub struct GenesisInput {
    pub treasury_authority: [u8; PUBKEY_LEN],
}

/// Initializes the protocol: makes the treasury, with a fee of a
/// ten-thousandth of a SOL, and the first commitment pool, which is empty.
/// Only an administrator may do so. The two bumps are those of the addresses
/// that the host derived for the two accounts.
pub fn _genesis(
    admin: [u8; PUBKEY_LEN],
    input: &GenesisInput,
    treasury_bump: u8,
    pool_bump: u8,
) -> (result: Result<(Treasury, CommitmentPool), KasbahErrors>)
    ensures
        ADMINS@.contains(admin) ==> (result matches Ok(accounts) && accounts.0 == (Treasury {
            authority: input.treasury_authority,
            bump: treasury_bump,
            fixed_fee: FIXED_FEE,
        }) && accounts.1.wf() && accounts.1@ == PoolState::empty(1, pool_bump)),
        !ADMINS@.contains(admin) ==> (result matches Err(err) && err == KasbahErrors::InvalidAdmin),
{
    if !assert_eq_admin(admin) {
        return Err(KasbahErrors::InvalidAdmin);
    }
    let treasury = Treasury {
        authority: input.treasury_authority,
        // 0.0001 SOL
        fixed_fee: LAMPORTS_PER_SOL / 10000,
        bump: treasury_bump,
    };
    let commitment_pool = CommitmentPool::new(COMMITMENT_POOL_GENESIS_ID, pool_bump);
    Ok((treasury, commitment_pool))
}

} // verus!
