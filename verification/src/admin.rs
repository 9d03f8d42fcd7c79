use vstd::prelude::*;
use crate::constants::PUBKEY_LEN;
use crate::pool::contains_bytes32;

verus! {

/// The address `ALAAqK8zJkFsU2FmzzBypJZmJngBuQ6ayHeR2cHsTJN1`.
pub const ADMIN: [u8; PUBKEY_LEN] = [
    138, 161, 149, 242, 184, 68, 161, 170, 215, 247, 41, 129, 145, 141, 244, 161,
    44, 124, 26, 31, 63, 21, 3, 58, 142, 181, 51, 154, 192, 94, 2, 150,
];

/// The addresses that may run the privileged instructions.
pub const ADMINS: [[u8; PUBKEY_LEN]; 1] = [ADMIN];

/// Whether `admin` is one of `admins`, whatever the list of administrators.
pub fn is_listed(admins: &[[u8; PUBKEY_LEN]], admin: [u8; PUBKEY_LEN]) -> (listed: bool)
    ensures
        listed == admins@.contains(admin),
{
    contains_bytes32(admins, &admin)
}

/// Whether `admin` is one of the administrators.
pub fn assert_eq_admin(admin: [u8; PUBKEY_LEN]) -> (listed: bool)
    ensures
        listed == ADMINS@.contains(admin),
{
    let admins = ADMINS;
    is_listed(admins.as_slice(), admin)
}

} // verus!
