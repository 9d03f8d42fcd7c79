use vstd::prelude::*;
use crate::bn254::{fr_modulus, Fr};
use crate::errors::KasbahError;
use crate::conversions::is_decimal_of;
use crate::rand::{is_drawn, random_fr};

verus! {

/// What a drawn element gives: its decimal text, or the failure.
pub fn secret_text(drawn: Result<Fr, KasbahError>) -> (result: Result<String, KasbahError>)
    requires
        drawn matches Ok(element) ==> element.wf(),
    ensures
        match drawn {
            Ok(element) => result matches Ok(text) && is_decimal_of(text@, element@),
            Err(e) => result matches Err(err) && err == e,
        },
{
    let secret = drawn?;
    proof {
        vstd::arithmetic::div_mod::lemma_small_mod(secret@, fr_modulus());
    }
    Ok(secret.to_js_bigint())
}

/// A fresh secret for a deposit: a random field element, in decimal.
pub fn generate_secret() -> (result: Result<String, KasbahError>)
    ensures
        result matches Ok(text) ==> exists|value: nat|
            value < fr_modulus() && is_drawn(value) && #[trigger] is_decimal_of(text@, value),
        result matches Err(err) ==> err == KasbahError::GenerateSecretError,
{
    let secret = random_fr();
    secret_text(secret)
}

/// A fresh nullifier for a deposit: a random field element, in decimal.
pub fn generate_nullifier() -> (result: Result<String, KasbahError>)
    ensures
        result matches Ok(text) ==> exists|value: nat|
            value < fr_modulus() && is_drawn(value) && #[trigger] is_decimal_of(text@, value),
        result matches Err(err) ==> err == KasbahError::GenerateSecretError,
{
    let nullifier = random_fr();
    secret_text(nullifier)
}

} // verus!
