use anchor_lang::prelude::Pubkey;
use kasbah::errors::SdkError;
use kasbah::receipt::{derive_nullifier, is_zero_bytes, KasbahDepositReceipt};
use kasbah::redemption::KasbahRedemptionPackage;
use kasbah::secrets::KasbahSecrets;
use solana_zk_sdk::encryption::elgamal::{
    ElGamalCiphertext, ElGamalKeypair, ElGamalPubkey, ElGamalSecretKey,
};
use solana_zk_sdk::encryption::pedersen::{Pedersen, PedersenOpening};
use solana_zk_sdk::zk_elgamal_proof_program::proof_data::{
    CiphertextCommitmentEqualityProofData, ZkProofData,
};

/// The order of the group, least significant byte first.
const GROUP_ORDER: [u8; 32] = [
    0xed, 0xd3, 0xf5, 0x5c, 0x1a, 0x63, 0x12, 0x58, 0xd6, 0x9c, 0xf7, 0xa2, 0xde, 0xf9, 0xde, 0x14,
    0, 0, 0, 0, 0, 0, 0, 0, 0, 0, 0, 0, 0, 0, 0, 0x10,
];

fn bob() -> [u8; 32] {
    Pubkey::from_str_const("bob4ZvJTTbsctjEnY33kjiYuKuo32F9mpAcjH9yzRUe").to_bytes()
}

fn fresh_secret() -> [u8; 32] {
    *ElGamalKeypair::new_rand().secret().as_bytes()
}

fn public_key_of(secret: &[u8; 32]) -> [u8; 32] {
    let secret = ElGamalSecretKey::try_from(secret.as_slice()).unwrap();
    ElGamalPubkey::new(&secret).into()
}

fn verifies(
    secret: &[u8; 32],
    commitment: &[u8; 32],
    ciphertext: &[u8; 64],
    equality_proof: &[u8; 192],
) -> bool {
    let mut bytes: Vec<u8> = Vec::new();
    bytes.extend_from_slice(&public_key_of(secret));
    bytes.extend_from_slice(ciphertext);
    bytes.extend_from_slice(commitment);
    bytes.extend_from_slice(equality_proof);
    let data: CiphertextCommitmentEqualityProofData = bytemuck::pod_read_unaligned(&bytes);
    data.verify_proof().is_ok()
}

#[test]
fn alice_offchain_deposit() {
    let amount = 1_u64;
    let bob = Pubkey::from_str_const("bob4ZvJTTbsctjEnY33kjiYuKuo32F9mpAcjH9yzRUe");
    let elgamal_kp = ElGamalKeypair::new_rand();
    let elgamal_secret = elgamal_kp.secret().clone();
    let pool_index = 0;

    // 1. Alice generates a deposit receipt, and sends it to bob offchain
    let receipt =
        KasbahDepositReceipt::new(amount, bob.to_bytes(), *elgamal_secret.as_bytes(), pool_index)
            .unwrap();

    // 2. Bob generates a redemption package offchain
    let redemption_package = KasbahRedemptionPackage::generate(receipt).unwrap();
    assert_eq!(redemption_package.nullifier, receipt.nullifier);
}

#[test]
fn receipt_holds_what_it_was_made_from() {
    let secret = fresh_secret();
    let receipt = KasbahDepositReceipt::new(42, bob(), secret, 7).unwrap();
    assert_eq!(receipt.amount, 42);
    assert_eq!(receipt.pool_index, 7);
    assert_eq!(receipt.elgamal_secret, secret);
}

#[test]
fn receipt_commitment_opens_to_the_amount() {
    let receipt = KasbahDepositReceipt::new(42, bob(), fresh_secret(), 7).unwrap();
    let opening = PedersenOpening::from_bytes(&receipt.opening).unwrap();
    assert_eq!(Pedersen::with(42u64, &opening).to_bytes(), receipt.commitment);
    assert_ne!(Pedersen::with(43u64, &opening).to_bytes(), receipt.commitment);
}

#[test]
fn receipt_nullifier_is_the_hash_of_opening_recipient_pool_and_key() {
    let secret = fresh_secret();
    let receipt = KasbahDepositReceipt::new(42, bob(), secret, 7).unwrap();
    let mut hasher = blake3::Hasher::new();
    hasher.update(&receipt.opening);
    hasher.update(&bob());
    hasher.update(7u64.to_le_bytes().as_slice());
    hasher.update(&public_key_of(&secret));
    assert_eq!(receipt.nullifier, *hasher.finalize().as_bytes());
}

#[test]
fn nullifier_of_fixed_inputs_is_the_hash_of_their_104_bytes() {
    let opening = [1u8; 32];
    let recipient = [2u8; 32];
    let key = [3u8; 32];
    let mut preimage = vec![1u8; 32];
    preimage.extend_from_slice(&[2u8; 32]);
    preimage.extend_from_slice(&[0x08, 0x07, 0x06, 0x05, 0x04, 0x03, 0x02, 0x01]);
    preimage.extend_from_slice(&[3u8; 32]);
    assert_eq!(preimage.len(), 104);
    let nullifier = derive_nullifier(&opening, &recipient, 0x0102030405060708, &key);
    assert_eq!(nullifier, *blake3::hash(&preimage).as_bytes());
    assert_ne!(nullifier, opening);
}

#[test]
fn nullifier_is_the_same_for_the_same_inputs() {
    let first = derive_nullifier(&[1u8; 32], &[2u8; 32], 5, &[3u8; 32]);
    let second = derive_nullifier(&[1u8; 32], &[2u8; 32], 5, &[3u8; 32]);
    assert_eq!(first, second);
}

#[test]
fn nullifier_differs_with_each_input() {
    let base = derive_nullifier(&[1u8; 32], &[2u8; 32], 5, &[3u8; 32]);
    assert_ne!(base, derive_nullifier(&[9u8; 32], &[2u8; 32], 5, &[3u8; 32]));
    assert_ne!(base, derive_nullifier(&[1u8; 32], &[9u8; 32], 5, &[3u8; 32]));
    assert_ne!(base, derive_nullifier(&[1u8; 32], &[2u8; 32], 6, &[3u8; 32]));
    assert_ne!(base, derive_nullifier(&[1u8; 32], &[2u8; 32], 5, &[9u8; 32]));
}

#[test]
fn two_receipts_for_one_deposit_differ_in_commitment_and_nullifier() {
    let secret = fresh_secret();
    let first = KasbahDepositReceipt::new(42, bob(), secret, 7).unwrap();
    let second = KasbahDepositReceipt::new(42, bob(), secret, 7).unwrap();
    assert_ne!(first.opening, second.opening);
    assert_ne!(first.commitment, second.commitment);
    assert_ne!(first.nullifier, second.nullifier);
}

#[test]
fn receipt_with_a_zero_secret_is_refused() {
    let result = KasbahDepositReceipt::new(1, bob(), [0u8; 32], 0);
    assert_eq!(result, Err(SdkError::InvalidSecretKey));
}

#[test]
fn receipt_with_a_secret_that_is_no_scalar_is_refused() {
    assert_eq!(
        KasbahDepositReceipt::new(1, bob(), [255u8; 32], 0),
        Err(SdkError::InvalidSecretKey)
    );
    assert_eq!(
        KasbahDepositReceipt::new(1, bob(), GROUP_ORDER, 0),
        Err(SdkError::InvalidSecretKey)
    );
}

#[test]
fn receipt_with_the_largest_scalar_as_secret_is_made() {
    let mut largest = GROUP_ORDER;
    largest[0] -= 1;
    assert!(KasbahDepositReceipt::new(1, bob(), largest, 0).is_ok());
}

#[test]
fn secrets_are_the_opening_the_nullifier_and_the_amount() {
    let receipt = KasbahDepositReceipt::new(42, bob(), fresh_secret(), 7).unwrap();
    assert_eq!(
        receipt.secrets(),
        KasbahSecrets { opening: receipt.opening, nullifier: receipt.nullifier, amount: 42 }
    );
}

#[test]
fn zero_bytes_are_told_apart() {
    assert!(is_zero_bytes(&[0u8; 32]));
    let mut bytes = [0u8; 32];
    bytes[31] = 1;
    assert!(!is_zero_bytes(&bytes));
}

#[test]
fn equality_proof_verifies_against_commitment_and_ciphertext() {
    let secret = fresh_secret();
    let receipt = KasbahDepositReceipt::new(1_000_000, bob(), secret, 3).unwrap();
    let package = KasbahRedemptionPackage::generate(receipt).unwrap();
    assert_eq!(package.nullifier, receipt.nullifier);
    assert!(verifies(
        &secret,
        &receipt.commitment,
        &package.amount_ciphertext,
        &package.equality_proof
    ));
}

#[test]
fn equality_proof_fails_against_another_commitment() {
    let secret = fresh_secret();
    let receipt = KasbahDepositReceipt::new(1_000_000, bob(), secret, 3).unwrap();
    let other = KasbahDepositReceipt::new(1_000_000, bob(), secret, 3).unwrap();
    let package = KasbahRedemptionPackage::generate(receipt).unwrap();
    assert!(!verifies(
        &secret,
        &other.commitment,
        &package.amount_ciphertext,
        &package.equality_proof
    ));
}

#[test]
fn equality_proof_fails_against_a_ciphertext_of_another_amount() {
    let secret = fresh_secret();
    let receipt = KasbahDepositReceipt::new(1_000_000, bob(), secret, 3).unwrap();
    let package = KasbahRedemptionPackage::generate(receipt).unwrap();
    let key = ElGamalPubkey::try_from(public_key_of(&secret).as_slice()).unwrap();
    let tampered = key.encrypt(1_000_001u64).to_bytes();
    assert!(!verifies(
        &secret,
        &receipt.commitment,
        &tampered,
        &package.equality_proof
    ));
}

#[test]
fn equality_proof_fails_when_tampered_with() {
    let secret = fresh_secret();
    let receipt = KasbahDepositReceipt::new(1_000_000, bob(), secret, 3).unwrap();
    let package = KasbahRedemptionPackage::generate(receipt).unwrap();
    let mut tampered = package.equality_proof;
    tampered[100] ^= 1;
    assert!(!verifies(
        &secret,
        &receipt.commitment,
        &package.amount_ciphertext,
        &tampered
    ));
}

#[test]
fn every_fresh_receipt_gets_its_package() {
    for amount in [0u64, 1, 2, 1_000_000, u64::MAX] {
        let receipt = KasbahDepositReceipt::new(amount, bob(), fresh_secret(), amount).unwrap();
        let package = KasbahRedemptionPackage::generate(receipt).unwrap();
        assert_eq!(package.nullifier, receipt.nullifier);
        assert!(ElGamalCiphertext::from_bytes(&package.amount_ciphertext).is_some());
    }
}

#[test]
fn package_of_a_receipt_with_a_secret_of_one_is_made() {
    let mut one = [0u8; 32];
    one[0] = 1;
    let receipt = KasbahDepositReceipt::new(5, bob(), one, 0).unwrap();
    let package = KasbahRedemptionPackage::generate(receipt).unwrap();
    assert!(verifies(
        &one,
        &receipt.commitment,
        &package.amount_ciphertext,
        &package.equality_proof
    ));
}

#[test]
fn packages_of_one_receipt_differ_in_ciphertext() {
    let receipt = KasbahDepositReceipt::new(9, bob(), fresh_secret(), 3).unwrap();
    let first = KasbahRedemptionPackage::generate(receipt).unwrap();
    let second = KasbahRedemptionPackage::generate(receipt).unwrap();
    assert_eq!(first.nullifier, second.nullifier);
    assert_ne!(first.amount_ciphertext, second.amount_ciphertext);
}

#[test]
fn package_of_a_receipt_with_a_zero_secret_is_refused() {
    let mut receipt = KasbahDepositReceipt::new(9, bob(), fresh_secret(), 3).unwrap();
    receipt.elgamal_secret = [0u8; 32];
    assert_eq!(
        KasbahRedemptionPackage::generate(receipt),
        Err(SdkError::InvalidSecretKey)
    );
}

#[test]
fn package_of_a_receipt_with_a_malformed_secret_is_refused() {
    let mut receipt = KasbahDepositReceipt::new(9, bob(), fresh_secret(), 3).unwrap();
    receipt.elgamal_secret = [255u8; 32];
    assert_eq!(
        KasbahRedemptionPackage::generate(receipt),
        Err(SdkError::InvalidSecretKey)
    );
}

#[test]
fn package_of_a_receipt_with_a_malformed_opening_is_refused() {
    let mut receipt = KasbahDepositReceipt::new(9, bob(), fresh_secret(), 3).unwrap();
    receipt.opening = GROUP_ORDER;
    assert_eq!(
        KasbahRedemptionPackage::generate(receipt),
        Err(SdkError::InvalidOpening)
    );
}

#[test]
fn package_of_a_receipt_with_the_largest_opening_is_made() {
    let mut largest = GROUP_ORDER;
    largest[0] -= 1;
    let secret = fresh_secret();
    let mut receipt = KasbahDepositReceipt::new(9, bob(), secret, 3).unwrap();
    let opening = PedersenOpening::from_bytes(&largest).unwrap();
    receipt.opening = largest;
    receipt.commitment = Pedersen::with(9u64, &opening).to_bytes();
    let package = KasbahRedemptionPackage::generate(receipt).unwrap();
    assert!(verifies(
        &secret,
        &receipt.commitment,
        &package.amount_ciphertext,
        &package.equality_proof
    ));
}

#[test]
fn package_of_a_receipt_with_another_amount_is_refused() {
    let mut receipt = KasbahDepositReceipt::new(9, bob(), fresh_secret(), 3).unwrap();
    receipt.amount = 10;
    assert_eq!(
        KasbahRedemptionPackage::generate(receipt),
        Err(SdkError::InvalidCommitment)
    );
}

#[test]
fn package_of_a_receipt_with_another_commitment_is_refused() {
    let mut receipt = KasbahDepositReceipt::new(9, bob(), fresh_secret(), 3).unwrap();
    receipt.commitment = KasbahDepositReceipt::new(9, bob(), fresh_secret(), 3)
        .unwrap()
        .commitment;
    assert_eq!(
        KasbahRedemptionPackage::generate(receipt),
        Err(SdkError::InvalidCommitment)
    );
}

#[test]
fn package_is_assembled_only_with_a_proof() {
    let receipt = KasbahDepositReceipt::new(9, bob(), fresh_secret(), 3).unwrap();
    assert_eq!(
        KasbahRedemptionPackage::assemble(&receipt, [4u8; 64], None),
        Err(SdkError::ProofGenerationFailed)
    );
    assert_eq!(
        KasbahRedemptionPackage::assemble(&receipt, [4u8; 64], Some([5u8; 192])),
        Ok(KasbahRedemptionPackage {
            nullifier: receipt.nullifier,
            equality_proof: [5u8; 192],
            amount_ciphertext: [4u8; 64],
        })
    );
}
