use vstd::prelude::*;
use crate::constants::PUBKEY_LEN;

verus! {

/// The account that collects the protocol's fees.
#[derive(Clone, Copy, Debug, PartialEq, Eq)]
pub struct Treasury {
    /// The address authorized to withdraw the fees.
    pub authority: [u8; PUBKEY_LEN],
    pub bump: u8,
    pub fixed_fee: u64,
}

} // verus!
