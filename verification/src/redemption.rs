use vstd::prelude::*;
use crate::constants::NULLIFIER_LEN;
use crate::curve25519::{
    elgamal_encrypt,
    equality_proof,
    is_ciphertext,
    is_scalar,
    pedersen_commitment,
    pedersen_with,
    ELGAMAL_CIPHERTEXT_LEN,
    EQUALITY_PROOF_LEN,
};
use crate::errors::SdkError;
use crate::pool::bytes32_eq;
use crate::receipt::{is_secret_key, is_zero_bytes, KasbahDepositReceipt};

verus! {

/// What a recipient submits to claim a deposit: the nullifier, the amount
/// encrypted under the recipient's one-time key, and the proof that the
/// ciphertext holds the amount of the commitment.
#[derive(Clone, Copy, Debug, PartialEq, Eq)]
pub struct KasbahRedemptionPackage {
    pub nullifier: [u8; NULLIFIER_LEN],
    pub equality_proof: [u8; EQUALITY_PROOF_LEN],
    pub amount_ciphertext: [u8; ELGAMAL_CIPHERTEXT_LEN],
}

/// The fault for which a receipt is refused before anything is encrypted or
/// proved, if it has one. The secret key is looked at first, then the
/// opening, then the commitment.
pub open spec fn receipt_fault(receipt: KasbahDepositReceipt) -> Option<SdkError> {
    if !is_secret_key(receipt.elgamal_secret@) {
        Some(SdkError::InvalidSecretKey)
    } else if !is_scalar(receipt.opening@) {
        Some(SdkError::InvalidOpening)
    } else if receipt.commitment@ != pedersen_commitment(receipt.amount, receipt.opening@) {
        Some(SdkError::InvalidCommitment)
    } else {
        None
    }
}

/// The package made of a receipt, a ciphertext and what the prover gave.
pub open spec fn package_of(
    receipt: KasbahDepositReceipt,
    ciphertext: [u8; ELGAMAL_CIPHERTEXT_LEN],
    equality_proof: Option<[u8; EQUALITY_PROOF_LEN]>,
) -> Result<KasbahRedemptionPackage, SdkError> {
    match equality_proof {
        Some(bytes) => Ok(
            KasbahRedemptionPackage {
                nullifier: receipt.nullifier,
                equality_proof: bytes,
                amount_ciphertext: ciphertext,
            },
        ),
        None => Err(SdkError::ProofGenerationFailed),
    }
}

impl KasbahRedemptionPackage {
    /// Puts the package together once the amount is encrypted and the prover
    /// has answered: without a proof there is no package.
    pub fn assemble(
        secrets: &KasbahDepositReceipt,
        ciphertext: [u8; ELGAMAL_CIPHERTEXT_LEN],
        equality_proof: Option<[u8; EQUALITY_PROOF_LEN]>,
    ) -> (result: Result<KasbahRedemptionPackage, SdkError>)
        ensures
            result == package_of(*secrets, ciphertext, equality_proof),
    {
        match equality_proof {
            Some(bytes) => Ok(
                KasbahRedemptionPackage {
                    nullifier: secrets.nullifier,
                    equality_proof: bytes,
                    amount_ciphertext: ciphertext,
                },
            ),
            None => Err(SdkError::ProofGenerationFailed),
        }
    }

    /// Makes the redemption package of a receipt: encrypts the amount under
    /// the public key of the receipt's secret key and has it proved that the
    /// ciphertext and the commitment hold the same amount. A receipt whose
    /// secret key or opening is malformed, or whose commitment does not open
    /// to its amount, is refused; every other receipt gets its package, with
    /// the receipt's nullifier.
    ///
    /// The prover builds the transcript that binds the proof itself: the label
    /// `ciphertext-commitment-equality-instruction`, then the public key, the
    /// ciphertext and the commitment. A verifier has to start from the same.
    pub fn generate(secrets: KasbahDepositReceipt) -> (result: Result<
        KasbahRedemptionPackage,
        SdkError,
    >)
        ensures
            receipt_fault(secrets) matches Some(e) ==> result == Err::<
                KasbahRedemptionPackage,
                SdkError,
            >(e),
            receipt_fault(secrets) is None ==> (result matches Ok(package) && package.nullifier
                == secrets.nullifier && is_ciphertext(package.amount_ciphertext@)),
    {
        if is_zero_bytes(&secrets.elgamal_secret) {
            return Err(SdkError::InvalidSecretKey);
        }
        let ciphertext = match elgamal_encrypt(&secrets.elgamal_secret, secrets.amount) {
            Some(ciphertext) => ciphertext,
            None => return Err(SdkError::InvalidSecretKey),
        };
        match pedersen_with(secrets.amount, &secrets.opening) {
            None => return Err(SdkError::InvalidOpening),
            Some(commitment) => {
                if !bytes32_eq(&commitment, &secrets.commitment) {
                    assert(commitment@ != secrets.commitment@) by {
                        if commitment@ == secrets.commitment@ {
                            assert(commitment =~= secrets.commitment);
                        }
                    }
                    return Err(SdkError::InvalidCommitment);
                }
            },
        }
        let equality_proof = equality_proof(
            &secrets.elgamal_secret,
            &ciphertext,
            &secrets.commitment,
            &secrets.opening,
            secrets.amount,
        );
        KasbahRedemptionPackage::assemble(&secrets, ciphertext, equality_proof)
    }
}

} // verus!
