use vstd::prelude::*;
use crate::bn254::{
    fr,
    fr_bits_le,
    fr_from_be_bytes,
    fr_from_decimal,
    fr_of_text,
    fr_to_decimal,
    decimal_value,
    is_digit,
    Fr,
};
use crate::encoding::{
    be_value,
    bits_value,
    le_bits,
    le_bytes,
    lemma_bits_value_of_le_bits,
    lemma_high_bits_clear,
    lemma_le_bytes_of_byte,
    lemma_le_value_of_le_bytes32,
    lemma_pow256_32,
    lemma_pow256_grows,
    lemma_pow256_positive,
    lemma_pow_two_of_bytes,
    pow256,
    pow_two,
};
use crate::errors::ConversionError;
use vstd::arithmetic::div_mod::{lemma_basic_div, lemma_div_denominator};

verus! {

/// What a conversion looks at in a value that comes from JavaScript.
pub struct JsValue {
    /// Whether the value is a big integer.
    pub is_bigint: bool,
    /// The value's text, where the value is a string.
    pub as_string: Option<String>,
}

/// The element that `value` gives, or why it gives none.
pub open spec fn fr_of_js_value(value: JsValue) -> Result<nat, ConversionError> {
    if !value.is_bigint {
        Err(ConversionError::JsValueIsNotBigInt)
    } else {
        fr_of_js_bigint(value.as_string)
    }
}

/// The element that a big integer with the decimal text `text` gives, or why
/// it gives none.
pub open spec fn fr_of_js_bigint(text: Option<String>) -> Result<nat, ConversionError> {
    match text {
        None => Err(ConversionError::BigIntToStringError),
        Some(text) => match fr_of_text(text@) {
            None => Err(ConversionError::ParseJsValueToFrError),
            Some(value) => Ok(value),
        },
    }
}

/// Whether `text` is `value` in decimal, in digits alone and without a zero
/// in front of another digit.
pub open spec fn is_decimal_of(text: Seq<char>, value: nat) -> bool {
    &&& text.len() > 0
    &&& forall|i: int| 0 <= i < text.len() ==> is_digit(#[trigger] text[i])
    &&& text.len() > 1 ==> text[0] != '0'
    &&& decimal_value(text) == value
}

/// The field element of an identity, such as an address: its bytes, however
/// many, read as a number with the most significant byte first and reduced
/// modulo the order of the field.
pub fn identity_to_scalar(identity_bytes: &[u8]) -> (scalar: Fr)
    ensures
        scalar.wf(),
        scalar@ == fr(be_value(identity_bytes@)),
{
    fr_from_be_bytes(identity_bytes)
}

/// Takes a path through a Merkle tree from a field element: one bit for each
/// level, where a set bit means the right branch.
pub trait FrPathToVec {
    /// The element of the field, as a number.
    spec fn element(&self) -> nat;

    /// The `len` low bits of the element, from the least significant, each
    /// as the field element 0 or 1. An element has fewer than 256 bits, so
    /// from bit 256 on the path holds zeros.
    fn to_fr_vec(&self, len: usize) -> (path: Vec<Fr>)
        ensures
            path@.len() == len,
            forall|i: int| 0 <= i < len ==> (#[trigger] path@[i]).wf(),
            forall|i: int|
                0 <= i < len ==> (#[trigger] path@[i])@ == if le_bits(
                    self.element(),
                    len as nat,
                )[i] {
                    1nat
                } else {
                    0nat
                },
    ;

    /// The `len` low bits of the element, from the least significant: exactly
    /// `len` of them, clear from bit 256 on. Read back as a number they give
    /// the element modulo 2 to the power `len`.
    fn to_bool_vec(&self, len: usize) -> (path: Vec<bool>)
        ensures
            path@ == le_bits(self.element(), len as nat),
            bits_value(path@) == self.element() % pow_two(len as nat),
    ;
}

/// An element of the field is below 2 to the power 256.
proof fn lemma_element_below_256_bits(value: nat)
    ensures
        fr(value) < pow_two(256),
{
    lemma_pow_two_of_bytes(32);
    lemma_pow256_32();
}

impl FrPathToVec for Fr {
    open spec fn element(&self) -> nat {
        fr(self@)
    }

    fn to_fr_vec(&self, len: usize) -> (path: Vec<Fr>) {
        let bits = self.to_bool_vec(len);
        let mut vec: Vec<Fr> = Vec::new();
        let mut i: usize = 0;
        while i < len
            invariant
                bits@ == le_bits(fr(self@), len as nat),
                i <= len,
                vec@.len() == i,
                forall|j: int| 0 <= j < i ==> (#[trigger] vec@[j]).wf(),
                forall|j: int|
                    0 <= j < i ==> (#[trigger] vec@[j])@ == if bits@[j] {
                        1nat
                    } else {
                        0nat
                    },
            decreases len - i,
        {
            vec.push(Fr::from_bit(bits[i]));
            i += 1;
        }
        vec
    }

    fn to_bool_vec(&self, len: usize) -> (path: Vec<bool>) {
        let bits = fr_bits_le(self);
        let mut vec: Vec<bool> = Vec::new();
        let mut i: usize = 0;
        proof {
            lemma_element_below_256_bits(self@);
        }
        while i < len
            invariant
                bits@ == le_bits(fr(self@), 256),
                fr(self@) < pow_two(256),
                i <= len,
                vec@ == le_bits(fr(self@), i as nat),
            decreases len - i,
        {
            let bit = if i < bits.len() {
                bits[i]
            } else {
                false
            };
            proof {
                if i >= 256 {
                    lemma_high_bits_clear(fr(self@), 256, i as nat);
                }
            }
            vec.push(bit);
            assert(vec@ =~= le_bits(fr(self@), (i + 1) as nat));
            i += 1;
        }
        proof {
            lemma_bits_value_of_le_bits(fr(self@), len as nat);
        }
        vec
    }
}

impl Fr {
    /// The element 1 for a set bit, the element 0 for a clear one.
    pub fn from_bit(bit: bool) -> (element: Fr)
        ensures
            element.wf(),
            element@ == if bit {
                1nat
            } else {
                0nat
            },
    {
        let mut bytes = [0u8; 32];
        if bit {
            bytes[0] = 1;
        }
        proof {
            let value: nat = if bit {
                1
            } else {
                0
            };
            lemma_pow256_32();
            lemma_le_bytes_of_byte(value, 32);
            assert(bytes@ =~= le_bytes(value, 32));
            lemma_le_value_of_le_bytes32(value);
        }
        Fr { bytes }
    }

    /// The element that is the number `value`.
    pub fn from_u64(value: u64) -> (element: Fr)
        ensures
            element.wf(),
            element@ == value,
            element.bytes@ == le_bytes(value as nat, 32),
    {
        let mut bytes = [0u8; 32];
        let mut rest: u64 = value;
        let mut i: usize = 0;
        proof {
            assert(pow256(0) == 1);
        }
        while i < 8
            invariant
                i <= 8,
                rest == value as nat / pow256(i as nat),
                forall|j: int| 0 <= j < i ==> bytes@[j] == #[trigger] le_bytes(value as nat, 32)[j],
                forall|j: int| i <= j < 32 ==> bytes@[j] == 0,
            decreases 8 - i,
        {
            proof {
                lemma_pow256_positive(i as nat);
                lemma_div_denominator(value as int, pow256(i as nat) as int, 256);
                assert(pow256((i + 1) as nat) == 256 * pow256(i as nat));
                assert(pow256(i as nat) * 256 == 256 * pow256(i as nat)) by (nonlinear_arith);
            }
            bytes[i] = (rest % 256) as u8;
            rest = rest / 256;
            i += 1;
        }
        proof {
            assert(pow256(8) == 0x1_0000_0000_0000_0000) by {
                reveal_with_fuel(pow256, 9);
            }
            lemma_pow256_32();
            assert forall|j: int| 8 <= j < 32 implies bytes@[j] == #[trigger] le_bytes(
                value as nat,
                32,
            )[j] by {
                lemma_pow256_grows(8, j as nat);
                lemma_basic_div(value as int, pow256(j as nat) as int);
            }
            assert(bytes@ =~= le_bytes(value as nat, 32));
            lemma_le_value_of_le_bytes32(value as nat);
        }
        Fr { bytes }
    }

    /// Reads a field element from a value of JavaScript: the value must be a
    /// big integer, have a text, and the text must spell a number.
    pub fn from_js_value(value: &JsValue) -> (result: Result<Fr, ConversionError>)
        ensures
            match fr_of_js_value(*value) {
                Ok(v) => result matches Ok(element) && element@ == v && element.wf(),
                Err(e) => result matches Err(err) && err == e,
            },
    {
        if value.is_bigint {
            if let Some(bigint) = &value.as_string {
                match fr_from_decimal(bigint.as_str()) {
                    Some(element) => Ok(element),
                    None => Err(ConversionError::ParseJsValueToFrError),
                }
            } else {
                Err(ConversionError::BigIntToStringError)
            }
        } else {
            Err(ConversionError::JsValueIsNotBigInt)
        }
    }

    /// Reads a field element from a big integer of JavaScript, given as its
    /// text in base 10, or as nothing where it has no such text.
    pub fn from_js_bigint(text: &Option<String>) -> (result: Result<Fr, ConversionError>)
        ensures
            match fr_of_js_bigint(*text) {
                Ok(v) => result matches Ok(element) && element@ == v && element.wf(),
                Err(e) => result matches Err(err) && err == e,
            },
    {
        match text {
            None => Err(ConversionError::BigIntToStringError),
            Some(text) => match fr_from_decimal(text.as_str()) {
                Some(element) => Ok(element),
                None => Err(ConversionError::ParseJsValueToFrError),
            },
        }
    }

    /// The element in decimal, as a big integer of JavaScript is made from:
    /// digits alone, and no zero in front of another digit.
    pub fn to_js_bigint(&self) -> (text: String)
        ensures
            is_decimal_of(text@, fr(self@)),
    {
        fr_to_decimal(self)
    }
}

/// The element whose bytes spell `value`.
pub open spec fn fr_of_u64(value: u64) -> Fr {
    choose|element: Fr| element.bytes@ == le_bytes(value as nat, 32)
}

impl From<u64> for Fr {
    fn from(value: u64) -> (element: Fr) {
        let element = Fr::from_u64(value);
        proof {
            assert(element.bytes =~= fr_of_u64(value).bytes);
        }
        element
    }
}

impl vstd::std_specs::convert::FromSpecImpl<u64> for Fr {
    open spec fn obeys_from_spec() -> bool {
        true
    }

    open spec fn from_spec(value: u64) -> Fr {
        fr_of_u64(value)
    }
}

} // verus!
