use vstd::prelude::*;
use crate::bn254::{fr_modulus, Fr};
use crate::conversions::{fr_of_js_bigint, FrPathToVec};
use crate::encoding::le_bits;
use crate::errors::ConversionError;

verus! {

/// The `depth` low bits of `value`, least significant first: the byte 1 for
/// each set bit, the byte 0 for each clear one.
pub open spec fn path_bytes(value: nat, depth: nat) -> Seq<u8> {
    le_bits(value, depth).map_values(
        |bit: bool|
            if bit {
                1u8
            } else {
                0u8
            },
    )
}

/// The path of a commitment through a Merkle tree of `depth` levels: one byte
/// for each level, where bit `i` of the commitment, counted from the least
/// significant, says at level `i` whether to go right (1) or left (0). The
/// commitment is a big integer of JavaScript, given as its text in base 10.
pub fn commitment_to_path(commitment: &Option<String>, depth: usize) -> (result: Result<
    Vec<u8>,
    ConversionError,
>)
    ensures
        match fr_of_js_bigint(*commitment) {
            Ok(value) => result matches Ok(path) && path@ == path_bytes(value, depth as nat),
            Err(e) => result matches Err(err) && err == e,
        },
{
    let commitment = Fr::from_js_bigint(commitment)?;
    let path = commitment.to_bool_vec(depth);
    let mut array: Vec<u8> = Vec::with_capacity(path.len());
    let mut i: usize = 0;
    while i < path.len()
        invariant
            i <= path@.len(),
            array@.len() == i,
            forall|j: int|
                0 <= j < i ==> array@[j] == if path@[j] {
                    1u8
                } else {
                    0u8
                },
        decreases path@.len() - i,
    {
        array.push(if path[i] { 1 } else { 0 });
        i += 1;
    }
    proof {
        vstd::arithmetic::div_mod::lemma_small_mod(commitment@, fr_modulus());
        assert(array@ =~= path_bytes(commitment@, depth as nat));
    }
    Ok(array)
}

} // verus!
