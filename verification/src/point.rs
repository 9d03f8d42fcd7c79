use vstd::prelude::*;
use crate::bn254::{
    bigint256_from_decimal,
    decimal_value,
    fq_from_bigint256,
    fq_modulus,
    g1_is_valid,
    g1_on_curve,
    g1_serialize_uncompressed,
    g1_uncompressed,
    is_decimal,
};
use crate::encoding::{lemma_le_value_of_le_bytes32, lemma_pow256_32, pow256};
use crate::errors::G1PointError;

verus! {

/// Whether `text` is a decimal number that fits in 32 bytes.
pub open spec fn is_coordinate_text(text: Seq<char>) -> bool {
    is_decimal(text) && decimal_value(text) < pow256(32)
}

/// The point of G1 that two decimal numbers name, or the first reason why
/// they name none.
pub open spec fn g1_point_of(x_str: Seq<char>, y_str: Seq<char>) -> Result<
    (nat, nat),
    G1PointError,
> {
    if !is_coordinate_text(x_str) {
        Err(G1PointError::ParseX)
    } else if !is_coordinate_text(y_str) {
        Err(G1PointError::ParseY)
    } else if decimal_value(x_str) >= fq_modulus() || decimal_value(y_str) >= fq_modulus() {
        Err(G1PointError::OutOfField)
    } else if !g1_on_curve(decimal_value(x_str), decimal_value(y_str)) {
        Err(G1PointError::NotOnCurve)
    } else {
        Ok((decimal_value(x_str), decimal_value(y_str)))
    }
}

/// The bytes of the point of G1 with the coordinates `x_str` and `y_str`, two
/// decimal numbers below the order of the field, as ark-serialize writes a
/// point without compression.
pub fn prepare_g1_point(x_str: &str, y_str: &str) -> (result: Result<Vec<u8>, G1PointError>)
    ensures
        match g1_point_of(x_str@, y_str@) {
            Ok(point) => result matches Ok(bytes) && bytes@ == g1_uncompressed(point.0, point.1),
            Err(e) => result matches Err(err) && err == e,
        },
{
    let x_int = match bigint256_from_decimal(x_str) {
        Some(number) => number,
        None => return Err(G1PointError::ParseX),
    };
    let y_int = match bigint256_from_decimal(y_str) {
        Some(number) => number,
        None => return Err(G1PointError::ParseY),
    };
    proof {
        lemma_pow256_32();
        lemma_le_value_of_le_bytes32(decimal_value(x_str@));
        lemma_le_value_of_le_bytes32(decimal_value(y_str@));
    }
    let x = fq_from_bigint256(&x_int);
    let y = fq_from_bigint256(&y_int);
    match (x, y) {
        (Some(x), Some(y)) => {
            if !g1_is_valid(&x, &y) {
                return Err(G1PointError::NotOnCurve);
            }
            match g1_serialize_uncompressed(&x, &y) {
                Some(writer) => Ok(writer),
                None => Err(G1PointError::Serialize),
            }
        },
        _ => Err(G1PointError::OutOfField),
    }
}

} // verus!
