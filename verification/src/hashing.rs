use vstd::prelude::*;
use crate::bn254::{fr_modulus, poseidon_circom, poseidon_hash, Fr};
use crate::conversions::{fr_of_js_bigint, is_decimal_of};
use crate::errors::KasbahError;

verus! {

/// The commitment to a deposit: the Poseidon hash of its nullifier and its
/// secret, two big integers of JavaScript given as their texts in base 10.
/// The hash comes back in decimal.
pub fn hash_commitment(nullifier: &Option<String>, secret: &Option<String>) -> (result: Result<
    String,
    KasbahError,
>)
    ensures
        match (fr_of_js_bigint(*nullifier), fr_of_js_bigint(*secret)) {
            (Err(e), _) => result matches Err(err) && err == KasbahError::Conversion(e),
            (Ok(_), Err(e)) => result matches Err(err) && err == KasbahError::Conversion(e),
            (Ok(n), Ok(s)) => result matches Ok(text) && is_decimal_of(
                text@,
                poseidon_circom(seq![n, s]),
            ),
        },
{
    let nullifier = match Fr::from_js_bigint(nullifier) {
        Ok(element) => element,
        Err(e) => return Err(KasbahError::Conversion(e)),
    };
    let secret = match Fr::from_js_bigint(secret) {
        Ok(element) => element,
        Err(e) => return Err(KasbahError::Conversion(e)),
    };
    let mut inputs: Vec<Fr> = Vec::with_capacity(2);
    inputs.push(nullifier);
    inputs.push(secret);
    proof {
        vstd::arithmetic::div_mod::lemma_small_mod(nullifier@, fr_modulus());
        vstd::arithmetic::div_mod::lemma_small_mod(secret@, fr_modulus());
        assert(crate::bn254::values_of(inputs@) =~= seq![nullifier@, secret@]);
    }
    match poseidon_hash(&inputs) {
        Ok(commitment) => {
            proof {
                vstd::arithmetic::div_mod::lemma_small_mod(commitment@, fr_modulus());
            }
            Ok(commitment.to_js_bigint())
        },
        Err(e) => Err(KasbahError::Poseidon(e)),
    }
}

/// The hash under which a spent nullifier is published: the Poseidon hash of
/// the nullifier alone, a big integer of JavaScript given as its text in base
/// 10. The hash comes back in decimal.
pub fn hash_nullifier(nullifier: &Option<String>) -> (result: Result<String, KasbahError>)
    ensures
        match fr_of_js_bigint(*nullifier) {
            Err(e) => result matches Err(err) && err == KasbahError::Conversion(e),
            Ok(n) => result matches Ok(text) && is_decimal_of(text@, poseidon_circom(seq![n])),
        },
{
    let nullifier = match Fr::from_js_bigint(nullifier) {
        Ok(element) => element,
        Err(e) => return Err(KasbahError::Conversion(e)),
    };
    let mut inputs: Vec<Fr> = Vec::with_capacity(1);
    inputs.push(nullifier);
    proof {
        vstd::arithmetic::div_mod::lemma_small_mod(nullifier@, fr_modulus());
        assert(crate::bn254::values_of(inputs@) =~= seq![nullifier@]);
    }
    match poseidon_hash(&inputs) {
        Ok(nullifier_hash) => {
            proof {
                vstd::arithmetic::div_mod::lemma_small_mod(nullifier_hash@, fr_modulus());
            }
            Ok(nullifier_hash.to_js_bigint())
        },
        Err(e) => Err(KasbahError::Poseidon(e)),
    }
}

} // verus!
