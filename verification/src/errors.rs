use vstd::prelude::*;
use light_poseidon::PoseidonError;

verus! {

/// Why a ledger instruction was refused.
#[derive(Clone, Copy, Debug, PartialEq, Eq, Structural)]
pub enum KasbahErrors {
    /// The signer is not on the list of administrators.
    InvalidAdmin,
    /// The pool already holds as many commitments as it may.
    CommitmentPoolFull,
    /// The pool already holds this commitment.
    CommitmentAlreadyExists,
    /// The bytes decode to no curve point, or to the identity.
    InvalidCommitment,
    /// The nullifier is malformed.
    InvalidNullifier,
    /// The pool already holds this nullifier.
    DoubleSpend,
}

impl KasbahErrors {
    /// The message shown with the error.
    pub fn message(&self) -> (text: &'static str)
        ensures
            text@ == match *self {
                KasbahErrors::InvalidAdmin => "Invalid admin error"@,
                KasbahErrors::CommitmentPoolFull => "Commitment pool is full"@,
                KasbahErrors::CommitmentAlreadyExists => "Commitment already exists"@,
                KasbahErrors::InvalidCommitment => "Invalid commitment"@,
                KasbahErrors::InvalidNullifier => "Invalid nullifier"@,
                KasbahErrors::DoubleSpend => "Nullifier already exists"@,
            },
    {
        match self {
            KasbahErrors::InvalidAdmin => "Invalid admin error",
            KasbahErrors::CommitmentPoolFull => "Commitment pool is full",
            KasbahErrors::CommitmentAlreadyExists => "Commitment already exists",
            KasbahErrors::InvalidCommitment => "Invalid commitment",
            KasbahErrors::InvalidNullifier => "Invalid nullifier",
            KasbahErrors::DoubleSpend => "Nullifier already exists",
        }
    }
}

/// Why two coordinates gave no point of G1.
#[derive(Clone, Copy, Debug, PartialEq, Eq, Structural)]
pub enum G1PointError {
    /// The first coordinate is no decimal number of at most 256 bits.
    ParseX,
    /// The second coordinate is no decimal number of at most 256 bits.
    ParseY,
    /// A coordinate is not below the order of the field.
    OutOfField,
    /// The point is not on the curve.
    NotOnCurve,
    /// The point could not be written out.
    Serialize,
}

impl G1PointError {
    /// The message shown with the error.
    pub fn message(&self) -> (text: &'static str)
        ensures
            text@ == match *self {
                G1PointError::ParseX => "Failed to parse x coordinate"@,
                G1PointError::ParseY => "Failed to parse y coordinate"@,
                G1PointError::OutOfField => "Failed to parse x or y coordinate"@,
                G1PointError::NotOnCurve => "Point is not on the curve"@,
                G1PointError::Serialize => "Failed to serialize g1 point"@,
            },
    {
        match self {
            G1PointError::ParseX => "Failed to parse x coordinate",
            G1PointError::ParseY => "Failed to parse y coordinate",
            G1PointError::OutOfField => "Failed to parse x or y coordinate",
            G1PointError::NotOnCurve => "Point is not on the curve",
            G1PointError::Serialize => "Failed to serialize g1 point",
        }
    }
}

/// Why a receipt or a redemption package could not be made.
#[derive(Clone, Copy, Debug, PartialEq, Eq, Structural)]
pub enum SdkError {
    /// The secret key is zero or no scalar in canonical form.
    InvalidSecretKey,
    /// The opening is no scalar in canonical form.
    InvalidOpening,
    /// The commitment is not the one that the amount and the opening give.
    InvalidCommitment,
    /// No proof came back from the prover.
    ProofGenerationFailed,
}

/// Why a request of the caller's side failed.
#[derive(Debug, PartialEq)]
pub enum KasbahError {
    /// The system's source of randomness failed.
    GenerateSecretError,
    /// A value could not be converted.
    Conversion(ConversionError),
    /// The Poseidon hasher refused its inputs.
    Poseidon(PoseidonError),
}

/// Why a value could not be taken over from, or handed to, the caller's side.
#[derive(Clone, Copy, Debug, PartialEq, Eq, Structural)]
pub enum ConversionError {
    /// The text spells no field element.
    ParseJsValueToFrError,
    /// The value is no big integer.
    JsValueIsNotBigInt,
    /// The big integer has no text.
    BigIntToStringError,
    /// The value has not the shape of a raw proof.
    ParseJsValueToRawProofError,
    /// The prepared proof could not be written out.
    SerializePreparedProofError,
    /// A point of the raw proof lacks a coordinate.
    MissingCoordinateError,
    /// A coordinate of the raw proof is no decimal number.
    ParseCoordinateError,
    /// The coordinates name no point of the group that they are meant for.
    PointNotOnCurveError,
}

impl ConversionError {
    /// The message shown with the error.
    pub fn message(&self) -> (text: &'static str)
        ensures
            text@ == match *self {
                ConversionError::ParseJsValueToFrError => "failed to parse JsValue to Fr"@,
                ConversionError::JsValueIsNotBigInt => "JsValue is not a bigint"@,
                ConversionError::BigIntToStringError => "failed to convert bigint to string"@,
                ConversionError::ParseJsValueToRawProofError => "failed to parse JsValue to RawProof"@,
                ConversionError::SerializePreparedProofError => "failed to serialize PreparedProof"@,
                ConversionError::MissingCoordinateError => "missing coordinate"@,
                ConversionError::ParseCoordinateError => "failed to parse coordinate"@,
                ConversionError::PointNotOnCurveError => "point is not on the curve"@,
            },
    {
        match self {
            ConversionError::ParseJsValueToFrError => "failed to parse JsValue to Fr",
            ConversionError::JsValueIsNotBigInt => "JsValue is not a bigint",
            ConversionError::BigIntToStringError => "failed to convert bigint to string",
            ConversionError::ParseJsValueToRawProofError => "failed to parse JsValue to RawProof",
            ConversionError::SerializePreparedProofError => "failed to serialize PreparedProof",
            ConversionError::MissingCoordinateError => "missing coordinate",
            ConversionError::ParseCoordinateError => "failed to parse coordinate",
            ConversionError::PointNotOnCurveError => "point is not on the curve",
        }
    }
}

} // verus!
