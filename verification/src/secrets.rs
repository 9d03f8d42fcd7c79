use vstd::prelude::*;
use crate::constants::{NULLIFIER_LEN, PEDERSEN_OPENING_LEN};

verus! {

/// What a depositor hands to the recipient, out of band: all that is needed
/// to redeem the deposit.
#[derive(Clone, Copy, Debug, PartialEq, Eq)]
pub struct KasbahSecrets {
    pub opening: [u8; PEDERSEN_OPENING_LEN],
    pub nullifier: [u8; NULLIFIER_LEN],
    pub amount: u64,
}

} // verus!
