use vstd::prelude::*;
use crate::encoding::le_value;
use solana_zk_sdk::encryption::elgamal::{
    ElGamalCiphertext,
    ElGamalKeypair,
    ElGamalPubkey,
    ElGamalSecretKey,
};
use solana_zk_sdk::encryption::pedersen::{Pedersen, PedersenCommitment, PedersenOpening};
use solana_zk_sdk::zk_elgamal_proof_program::proof_data::CiphertextCommitmentEqualityProofData;
use solana_zk_token_sdk::curve25519_dalek::traits::IsIdentity;

verus! {

/// Length in bytes of a scalar and of a compressed point.
pub const UNIT_LEN: usize = 32;

/// Length in bytes of an ElGamal ciphertext: a commitment and a handle.
pub const ELGAMAL_CIPHERTEXT_LEN: usize = 64;

/// Length in bytes of an equality proof: three points and three scalars.
pub const EQUALITY_PROOF_LEN: usize = 192;

/// The order of the Ristretto group: `2^252 +
/// 27742317777372353535851937790883648493`.
pub open spec fn group_order() -> nat {
    7237005577332262213973186563042994240857116359379907606001950938285454250989nat
}

/// Whether `bytes` are the canonical form of a scalar: 32 bytes that spell a
/// number below the order of the group.
pub open spec fn is_scalar(bytes: Seq<u8>) -> bool {
    bytes.len() == 32 && le_value(bytes) < group_order()
}

/// Thirty-two zero bytes: the scalar zero, and the compressed identity.
pub open spec fn zero_bytes() -> Seq<u8> {
    Seq::new(32, |i: int| 0u8)
}

/// The compressed Pedersen commitment to `amount` under the scalar that
/// `opening` spells.
pub uninterp spec fn pedersen_commitment(amount: u64, opening: Seq<u8>) -> Seq<u8>;

/// Whether `bytes` decompress to a point, and if so, whether to the identity.
pub uninterp spec fn commitment_point(bytes: Seq<u8>) -> Option<bool>;

/// Whether `bytes` are the compressed form of a point.
pub open spec fn is_point(bytes: Seq<u8>) -> bool {
    commitment_point(bytes) is Some
}

/// Whether `bytes` are an ElGamal ciphertext: a commitment and a decryption
/// handle, each the compressed form of a point.
pub open spec fn is_ciphertext(bytes: Seq<u8>) -> bool {
    &&& bytes.len() == 64
    &&& is_point(bytes.subrange(0, 32))
    &&& is_point(bytes.subrange(32, 64))
}

/// The compressed ElGamal public key of the secret key that `secret` spells.
pub uninterp spec fn elgamal_public_key(secret: Seq<u8>) -> Seq<u8>;

/// The BLAKE3 hash of `input`.
pub uninterp spec fn blake3_digest(input: Seq<u8>) -> Seq<u8>;

/// `Pedersen::new` of solana-zk-sdk: a commitment to `amount` under an
/// opening that it draws from the system's randomness, with the opening. The
/// commitment is the one that `Pedersen::with` gives for that opening, and the
/// opening is a scalar in canonical form. The commitment comes compressed,
/// and what a point compresses to decompresses to a point.
#[verifier::external_body]
pub(crate) fn pedersen_new(amount: u64) -> (pair: ([u8; 32], [u8; 32]))
    ensures
        is_scalar(pair.1@),
        pair.0@ == pedersen_commitment(amount, pair.1@),
        is_point(pair.0@),
{
    let (commitment, opening) = Pedersen::new(amount);
    (commitment.to_bytes(), opening.to_bytes())
}

/// `PedersenOpening::from_bytes` of solana-zk-sdk, which takes a scalar in
/// canonical form and nothing else, and then `Pedersen::with`. The commitment
/// comes compressed, and what a point compresses to decompresses to a point.
#[verifier::external_body]
pub(crate) fn pedersen_with(amount: u64, opening: &[u8; 32]) -> (commitment: Option<[u8; 32]>)
    ensures
        commitment.is_some() == is_scalar(opening@),
        commitment matches Some(bytes) ==> bytes@ == pedersen_commitment(amount, opening@),
        commitment matches Some(bytes) ==> is_point(bytes@),
{
    match PedersenOpening::from_bytes(opening) {
        Some(opening) => Some(Pedersen::with(amount, &opening).to_bytes()),
        None => None,
    }
}

/// `PedersenCommitment::from_bytes` of solana-zk-sdk and then `is_identity`
/// of curve25519-dalek on the point.
#[verifier::external_body]
pub(crate) fn commitment_is_identity(bytes: &[u8; 32]) -> (identity: Option<bool>)
    ensures
        identity == commitment_point(bytes@),
{
    match PedersenCommitment::from_bytes(bytes) {
        Some(commitment) => Some(commitment.get_point().is_identity()),
        None => None,
    }
}

/// `ElGamalSecretKey::try_from` of solana-zk-sdk, which takes a scalar in
/// canonical form and nothing else, and then `ElGamalPubkey::new`, which
/// panics on the scalar zero.
#[verifier::external_body]
pub(crate) fn elgamal_pubkey(secret: &[u8; 32]) -> (pubkey: Option<[u8; 32]>)
    requires
        secret@ != zero_bytes(),
    ensures
        pubkey.is_some() == is_scalar(secret@),
        pubkey matches Some(bytes) ==> bytes@ == elgamal_public_key(secret@),
{
    match ElGamalSecretKey::try_from(secret.as_slice()) {
        Ok(secret) => Some(ElGamalPubkey::new(&secret).into()),
        Err(_) => None,
    }
}

/// `ElGamalKeypair::new` of solana-zk-sdk on the secret key, which panics on
/// the scalar zero, and then `encrypt` with the public key of the pair, which
/// draws from the system's randomness. The ciphertext comes as two compressed
/// points, its commitment and its handle, and what a point compresses to
/// decompresses to a point.
#[verifier::external_body]
pub(crate) fn elgamal_encrypt(secret: &[u8; 32], amount: u64) -> (ciphertext: Option<[u8; 64]>)
    requires
        secret@ != zero_bytes(),
    ensures
        ciphertext.is_some() == is_scalar(secret@),
        ciphertext matches Some(bytes) ==> is_ciphertext(bytes@),
{
    match ElGamalSecretKey::try_from(secret.as_slice()) {
        Ok(secret) => Some(ElGamalKeypair::new(secret).pubkey().encrypt(amount).to_bytes()),
        Err(_) => None,
    }
}

/// `CiphertextCommitmentEqualityProofData::new` of solana-zk-sdk, on what the
/// bytes decode to: a proof that `ciphertext`, under the public key of
/// `secret`, and `commitment`, under `opening`, hold the same `amount`. It
/// draws from the system's randomness, and binds the proof with a transcript
/// of its own making: the label `ciphertext-commitment-equality-instruction`,
/// then the public key, the ciphertext and the commitment. The constructor
/// always gives a proof, so nothing comes back only where one of the four
/// does not decode: the secret and the opening as scalars in canonical form,
/// the commitment and the two halves of the ciphertext as points.
#[verifier::external_body]
pub(crate) fn equality_proof(
    secret: &[u8; 32],
    ciphertext: &[u8; 64],
    commitment: &[u8; 32],
    opening: &[u8; 32],
    amount: u64,
) -> (bytes: Option<[u8; 192]>)
    requires
        secret@ != zero_bytes(),
    ensures
        bytes.is_some() == (is_scalar(secret@) && is_scalar(opening@) && is_point(commitment@)
            && is_ciphertext(ciphertext@)),
{
    let keypair = ElGamalKeypair::new(ElGamalSecretKey::try_from(secret.as_slice()).ok()?);
    let ciphertext = ElGamalCiphertext::from_bytes(ciphertext)?;
    let commitment = PedersenCommitment::from_bytes(commitment)?;
    let opening = PedersenOpening::from_bytes(opening)?;
    let data = CiphertextCommitmentEqualityProofData::new(
        &keypair,
        &ciphertext,
        &commitment,
        &opening,
        amount,
    ).ok()?;
    bytemuck::bytes_of(&data.proof).try_into().ok()
}

/// `blake3::hash`.
#[verifier::external_body]
pub(crate) fn blake3_hash(input: &[u8]) -> (digest: [u8; 32])
    ensures
        digest@ == blake3_digest(input@),
{
    *blake3::hash(input).as_bytes()
}

} // verus!
