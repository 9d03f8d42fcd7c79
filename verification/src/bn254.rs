use vstd::prelude::*;
use crate::encoding::{le_bits, le_bytes, le_value, pow256};
use ark_bn254::{Fq, Fq2, G1Affine, G2Affine};
use ark_ff::{BigInteger, PrimeField, UniformRand};
use ark_serialize::{CanonicalSerialize, Valid};
use ark_std::rand::rngs::StdRng;
use ark_std::rand::SeedableRng;
use light_poseidon::{Poseidon, PoseidonError, PoseidonHasher};
use num_bigint::BigUint;
use std::ops::Neg;
use std::str::FromStr;

verus! {

/// The number of elements of the field in which the coordinates of a BN254
/// point lie.
pub open spec fn fq_modulus() -> nat {
    21888242871839275222246405745257275088696311157297823662689037894645226208583nat
}

/// The number of elements of the scalar field of BN254: the order of its
/// groups.
pub open spec fn fr_modulus() -> nat {
    21888242871839275222246405745257275088548364400416034343698204186575808495617nat
}

/// `value` as an element of the coordinate field.
pub open spec fn fq(value: nat) -> nat {
    value % fq_modulus()
}

/// The element of the coordinate field that added to `value` gives zero.
pub open spec fn fq_neg(value: nat) -> nat {
    ((fq_modulus() - fq(value)) % (fq_modulus() as int)) as nat
}

/// Whether the point with coordinates `x` and `y`, two elements of the
/// coordinate field, lies on the curve `y^2 = x^3 + 3`. The curve has a prime
/// number of points, so every such point is in the group G1.
pub open spec fn g1_on_curve(x: nat, y: nat) -> bool {
    (y * y) % fq_modulus() == (x * x * x + 3) % fq_modulus()
}

/// Whether the point with coordinates `x_c0 + x_c1 * u` and `y_c0 + y_c1 * u`
/// lies on the twist of the curve and in its subgroup of order
/// `fr_modulus()`, the group G2.
pub uninterp spec fn g2_in_group(x_c0: nat, x_c1: nat, y_c0: nat, y_c1: nat) -> bool;

/// The 64 bytes that ark-serialize writes for the point `(x, y)` of G1 without
/// compression: each coordinate least significant byte first, and the top bit
/// of the last byte set where `y` is the larger of `y` and its negative.
pub open spec fn g1_uncompressed(x: nat, y: nat) -> Seq<u8> {
    le_bytes(x, 32) + le_bytes(
        if y > fq_neg(y) {
            y + 128 * pow256(31)
        } else {
            y
        },
        32,
    )
}

/// Whether one of the ten digits.
pub open spec fn is_digit(c: char) -> bool {
    '0' <= c && c <= '9'
}

/// `text` without the one `+` that may stand before a number.
pub open spec fn without_plus(text: Seq<char>) -> Seq<char> {
    if text.len() > 0 && text[0] == '+' && !(text.len() > 1 && text[1] == '+') {
        text.skip(1)
    } else {
        text
    }
}

/// Whether `text` is a number in decimal: digits, with `_` allowed between
/// and after them, and one `+` allowed before them.
pub open spec fn is_decimal(text: Seq<char>) -> bool {
    let body = without_plus(text);
    &&& body.len() > 0
    &&& body[0] != '_'
    &&& forall|i: int| 0 <= i < body.len() ==> is_digit(#[trigger] body[i]) || body[i] == '_'
}

/// The number that the digits of `text` spell; a `_` counts for nothing.
pub open spec fn digits_value(text: Seq<char>) -> nat
    decreases text.len(),
{
    if text.len() == 0 {
        0
    } else if is_digit(text.last()) {
        10 * digits_value(text.drop_last()) + (text.last() as nat - '0' as nat) as nat
    } else {
        digits_value(text.drop_last())
    }
}

/// The number that `text` spells, where `is_decimal(text)`.
pub open spec fn decimal_value(text: Seq<char>) -> nat {
    digits_value(without_plus(text))
}

/// An unsigned integer of any size, held as its bytes from the least
/// significant up.
#[derive(Debug)]
pub struct Natural {
    pub le_bytes: Vec<u8>,
}

impl View for Natural {
    type V = nat;

    open spec fn view(&self) -> nat {
        le_value(self.le_bytes@)
    }
}

/// An element of the scalar field of BN254, as its 32 bytes from the least
/// significant up.
#[derive(Clone, Copy, Debug, PartialEq, Eq)]
pub struct Fr {
    pub bytes: [u8; 32],
}

impl View for Fr {
    type V = nat;

    open spec fn view(&self) -> nat {
        le_value(self.bytes@)
    }
}

impl Fr {
    /// The bytes spell a number below the order of the field.
    pub open spec fn wf(&self) -> bool {
        self@ < fr_modulus()
    }
}

/// `value` as an element of the scalar field.
pub open spec fn fr(value: nat) -> nat {
    value % fr_modulus()
}

/// The element of the scalar field that added to `value` gives zero.
pub open spec fn fr_neg(value: nat) -> nat {
    ((fr_modulus() - fr(value)) % (fr_modulus() as int)) as nat
}

/// The element of the scalar field that `text` spells, if it spells one: a
/// decimal number, or `-` and then a decimal number without a `+`, reduced
/// to the field.
pub open spec fn fr_of_text(text: Seq<char>) -> Option<nat> {
    if text.len() > 0 && text[0] == '-' && !(text.len() > 1 && text[1] == '+') {
        if is_decimal(text.skip(1)) {
            Some(fr_neg(decimal_value(text.skip(1))))
        } else {
            None
        }
    } else if is_decimal(text) {
        Some(fr(decimal_value(text)))
    } else {
        None
    }
}

/// The Poseidon hash of `inputs`, elements of the scalar field, with the
/// parameters of circom.
pub uninterp spec fn poseidon_circom(inputs: Seq<nat>) -> nat;

/// The element of the scalar field that the generator started with `seed`
/// gives first.
pub uninterp spec fn fr_of_seed(seed: Seq<u8>) -> nat;

/// The elements of the scalar field that `elements` stand for.
pub open spec fn values_of(elements: Seq<Fr>) -> Seq<nat> {
    elements.map_values(|element: Fr| fr(element@))
}

/// `BigUint::from_str` of num-bigint, with the number handed out by
/// `BigUint::to_bytes_le`. It takes a decimal number: digits, which `_` may
/// separate but not lead, after at most one `+`. Anything else is refused.
#[verifier::external_body]
pub(crate) fn natural_from_decimal(text: &str) -> (number: Option<Natural>)
    ensures
        number.is_some() == is_decimal(text@),
        number matches Some(n) ==> n@ == decimal_value(text@),
{
    match BigUint::from_str(text) {
        Ok(number) => Some(Natural { le_bytes: number.to_bytes_le() }),
        Err(_) => None,
    }
}

/// The conversion of a `BigUint` to an `Fq` of ark-bn254 (`From<BigUint>`),
/// which reduces the number modulo the field's order, with the element
/// handed out by `into_bigint().to_bytes_le()`: 32 bytes, least significant
/// first.
#[verifier::external_body]
pub(crate) fn fq_from_natural(number: &Natural) -> (bytes: [u8; 32])
    ensures
        bytes@ == le_bytes(fq(number@), 32),
{
    let element = Fq::from(BigUint::from_bytes_le(&number.le_bytes));
    element.into_bigint().to_bytes_le().try_into().unwrap()
}

/// `Valid::check` of ark-serialize on the `G1Affine` of ark-bn254 with the
/// coordinates that `x` and `y` spell: the two tests that `G1Affine::new`
/// makes, of which the one for the subgroup always passes in G1.
#[verifier::external_body]
pub(crate) fn g1_is_valid(x: &[u8; 32], y: &[u8; 32]) -> (valid: bool)
    ensures
        valid == g1_on_curve(fq(le_value(x@)), fq(le_value(y@))),
{
    let point = G1Affine::new_unchecked(
        Fq::from_le_bytes_mod_order(x),
        Fq::from_le_bytes_mod_order(y),
    );
    point.check().is_ok()
}

/// `G1Affine::new` of ark-bn254 and then `neg`, which keeps `x` and replaces
/// `y` by its negative in the field. Both coordinates come back as
/// `into_bigint().to_bytes_le()` gives them.
#[verifier::external_body]
pub(crate) fn g1_negated(x: &[u8; 32], y: &[u8; 32]) -> (negated: ([u8; 32], [u8; 32]))
    requires
        g1_on_curve(fq(le_value(x@)), fq(le_value(y@))),
    ensures
        negated.0@ == le_bytes(fq(le_value(x@)), 32),
        negated.1@ == le_bytes(fq_neg(le_value(y@)), 32),
{
    let point = G1Affine::new(Fq::from_le_bytes_mod_order(x), Fq::from_le_bytes_mod_order(y)).neg();
    let x: [u8; 32] = point.x.into_bigint().to_bytes_le().try_into().unwrap();
    let y: [u8; 32] = point.y.into_bigint().to_bytes_le().try_into().unwrap();
    (x, y)
}

/// `Valid::check` of ark-serialize on the `G2Affine` of ark-bn254 with the
/// coordinates `x_c0 + x_c1 * u` and `y_c0 + y_c1 * u`: the two tests that
/// `G2Affine::new` makes.
#[verifier::external_body]
pub(crate) fn g2_is_valid(
    x_c0: &[u8; 32],
    x_c1: &[u8; 32],
    y_c0: &[u8; 32],
    y_c1: &[u8; 32],
) -> (valid: bool)
    ensures
        valid == g2_in_group(
            fq(le_value(x_c0@)),
            fq(le_value(x_c1@)),
            fq(le_value(y_c0@)),
            fq(le_value(y_c1@)),
        ),
{
    let x = Fq2::new(Fq::from_le_bytes_mod_order(x_c0), Fq::from_le_bytes_mod_order(x_c1));
    let y = Fq2::new(Fq::from_le_bytes_mod_order(y_c0), Fq::from_le_bytes_mod_order(y_c1));
    G2Affine::new_unchecked(x, y).check().is_ok()
}

/// `BigInt::<4>::from_str` of ark-ff, with the number handed out by
/// `to_bytes_le`: `BigUint::from_str` of num-bigint, and then a refusal of
/// what does not fit in 32 bytes.
#[verifier::external_body]
pub(crate) fn bigint256_from_decimal(text: &str) -> (number: Option<[u8; 32]>)
    ensures
        number.is_some() == (is_decimal(text@) && decimal_value(text@) < pow256(32)),
        number matches Some(bytes) ==> bytes@ == le_bytes(decimal_value(text@), 32),
{
    match ark_ff::BigInt::<4>::from_str(text) {
        Ok(number) => Some(number.to_bytes_le().try_into().unwrap()),
        Err(_) => None,
    }
}

/// `Fq::from_bigint` of ark-bn254, which takes the numbers below the order of
/// the field, with the element handed out by `into_bigint().to_bytes_le()`.
#[verifier::external_body]
pub(crate) fn fq_from_bigint256(number: &[u8; 32]) -> (element: Option<[u8; 32]>)
    ensures
        element.is_some() == (le_value(number@) < fq_modulus()),
        element matches Some(bytes) ==> bytes@ == number@,
{
    let number = ark_ff::BigInt::<4>::try_from(BigUint::from_bytes_le(number)).unwrap();
    match Fq::from_bigint(number) {
        Some(element) => Some(element.into_bigint().to_bytes_le().try_into().unwrap()),
        None => None,
    }
}

/// `G1Affine::new` of ark-bn254 and then `serialize_uncompressed` of
/// ark-serialize into a vector, which cannot fail for want of room.
#[verifier::external_body]
pub(crate) fn g1_serialize_uncompressed(x: &[u8; 32], y: &[u8; 32]) -> (bytes: Option<Vec<u8>>)
    requires
        g1_on_curve(fq(le_value(x@)), fq(le_value(y@))),
    ensures
        bytes is Some,
        bytes matches Some(b) ==> b@ == g1_uncompressed(fq(le_value(x@)), fq(le_value(y@))),
{
    let point = G1Affine::new(Fq::from_le_bytes_mod_order(x), Fq::from_le_bytes_mod_order(y));
    let mut writer = Vec::new();
    match point.serialize_uncompressed(&mut writer) {
        Ok(()) => Some(writer),
        Err(_) => None,
    }
}

/// `Fr::from_be_bytes_mod_order` of ark-bn254, which reads bytes of any
/// number as an integer, most significant byte first, and reduces it to the
/// field, with the element handed out by `into_bigint().to_bytes_le()`.
#[verifier::external_body]
pub(crate) fn fr_from_be_bytes(bytes: &[u8]) -> (element: Fr)
    ensures
        element.wf(),
        element@ == fr(le_value(bytes@.reverse())),
{
    let element = ark_bn254::Fr::from_be_bytes_mod_order(bytes);
    Fr { bytes: element.into_bigint().to_bytes_le().try_into().unwrap() }
}

/// `Fr::from_str` of ark-bn254, with the element handed out by
/// `into_bigint().to_bytes_le()`. It reads a whole number with
/// `BigInt::from_str` of num-bigint, which takes what `BigUint::from_str`
/// takes and the same after a `-`, and reduces it to the field.
#[verifier::external_body]
pub(crate) fn fr_from_decimal(text: &str) -> (element: Option<Fr>)
    ensures
        match fr_of_text(text@) {
            Some(value) => element matches Some(e) && e@ == value && e.wf(),
            None => element is None,
        },
{
    match ark_bn254::Fr::from_str(text) {
        Ok(element) => Some(Fr { bytes: element.into_bigint().to_bytes_le().try_into().unwrap() }),
        Err(_) => None,
    }
}

/// `to_string` on the `Fr` of ark-bn254 that the bytes spell: the element in
/// decimal, in digits alone and without a zero in front.
#[verifier::external_body]
pub(crate) fn fr_to_decimal(element: &Fr) -> (text: String)
    ensures
        text@.len() > 0,
        forall|i: int| 0 <= i < text@.len() ==> is_digit(#[trigger] text@[i]),
        text@.len() > 1 ==> text@[0] != '0',
        decimal_value(text@) == fr(element@),
{
    ark_bn254::Fr::from_le_bytes_mod_order(&element.bytes).to_string()
}

/// `into_bigint().to_bits_le()` on the `Fr` of ark-bn254 that the bytes
/// spell: the 256 bits of the element, least significant first.
#[verifier::external_body]
pub(crate) fn fr_bits_le(element: &Fr) -> (bits: Vec<bool>)
    ensures
        bits@ == le_bits(fr(element@), 256),
{
    ark_bn254::Fr::from_le_bytes_mod_order(&element.bytes).into_bigint().to_bits_le()
}

/// `Poseidon::new_circom` of light-poseidon for as many inputs as are given,
/// and then `hash`. With one to twelve inputs both succeed.
#[verifier::external_body]
pub(crate) fn poseidon_hash(inputs: &Vec<Fr>) -> (digest: Result<Fr, PoseidonError>)
    ensures
        1 <= inputs@.len() <= 12 ==> digest is Ok,
        digest matches Ok(d) ==> d.wf() && d@ == poseidon_circom(values_of(inputs@)),
{
    let mut hasher = Poseidon::<ark_bn254::Fr>::new_circom(inputs.len())?;
    let elements: Vec<ark_bn254::Fr> = inputs.iter().map(
        |input| ark_bn254::Fr::from_le_bytes_mod_order(&input.bytes),
    ).collect();
    let digest = hasher.hash(&elements)?;
    Ok(Fr { bytes: digest.into_bigint().to_bytes_le().try_into().unwrap() })
}

/// `getrandom::fill` on 32 bytes: a seed from the system's source of
/// randomness, unless the source fails.
#[verifier::external_body]
pub(crate) fn random_seed() -> (seed: Option<[u8; 32]>) {
    let mut seed: [u8; 32] = [0u8; 32];
    match getrandom::fill(&mut seed) {
        Ok(()) => Some(seed),
        Err(_) => None,
    }
}

/// `StdRng::from_seed` of rand and then `Fr::rand` of ark-bn254: the element
/// of the scalar field that the generator started with `seed` gives first.
/// Generator and sampling go by the seed alone.
#[verifier::external_body]
pub(crate) fn fr_from_seed(seed: [u8; 32]) -> (element: Fr)
    ensures
        element.wf(),
        element@ == fr_of_seed(seed@),
{
    let mut rng = StdRng::from_seed(seed);
    let element = ark_bn254::Fr::rand(&mut rng);
    Fr { bytes: element.into_bigint().to_bytes_le().try_into().unwrap() }
}

/// The error of light-poseidon.
#[verifier::external_type_specification]
#[verifier::external_body]
pub struct ExPoseidonError(PoseidonError);

} // verus!
