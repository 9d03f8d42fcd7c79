use vstd::prelude::*;
use crate::bn254::{fr_from_seed, fr_of_seed, random_seed, Fr};
use crate::errors::KasbahError;

verus! {

/// What the system's source of randomness leads to: the element that its seed
/// fixes, or the failure that its failure leads to.
pub open spec fn fr_of_random_seed(seed: Option<[u8; 32]>) -> Result<nat, KasbahError> {
    match seed {
        Some(seed) => Ok(fr_of_seed(seed@)),
        None => Err(KasbahError::GenerateSecretError),
    }
}

/// Whether `value` is the element that some seed of 32 bytes fixes.
pub open spec fn is_drawn(value: nat) -> bool {
    exists|seed: Seq<u8>| seed.len() == 32 && value == #[trigger] fr_of_seed(seed)
}

/// The field element drawn from a seed of the system's source of randomness:
/// the seed alone fixes the element. Without a seed there is none.
pub fn fr_from_random_seed(seed: Option<[u8; 32]>) -> (result: Result<Fr, KasbahError>)
    ensures
        match fr_of_random_seed(seed) {
            Ok(value) => result matches Ok(element) && element.wf() && element@ == value,
            Err(e) => result matches Err(err) && err == e,
        },
{
    match seed {
        Some(seed) => Ok(fr_from_seed(seed)),
        None => Err(KasbahError::GenerateSecretError),
    }
}

/// Draws a random element of the scalar field of BN254: 32 bytes from the
/// system's source of randomness seed a generator, and the generator gives
/// the element. It fails only where the source fails.
pub fn random_fr() -> (result: Result<Fr, KasbahError>)
    ensures
        result matches Ok(element) ==> element.wf() && is_drawn(element@),
        result matches Err(err) ==> err == KasbahError::GenerateSecretError,
{
    let seed = random_seed();
    proof {
        if let Some(bytes) = seed {
            assert(bytes@.len() == 32);
            assert(fr_of_seed(bytes@) == fr_of_seed(bytes@));
        }
    }
    fr_from_random_seed(seed)
}

} // verus!
