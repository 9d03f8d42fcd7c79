use anchor_lang::prelude::Pubkey;
use kasbah::admin::{assert_eq_admin, is_listed, ADMIN, ADMINS};
use kasbah::constants::{COMMITMENT_POOL_GENESIS_ID, MAX_COMMITMENTS_PER_POOL};
use kasbah::deposit::{DepositInput, _deposit, deposit_decoded};
use kasbah::errors::KasbahErrors;
use kasbah::genesis::{GenesisInput, _genesis};
use kasbah::pool::{bytes32_eq, contains_bytes32, CommitmentPool};
use kasbah::treasury::Treasury;
use solana_zk_sdk::encryption::pedersen::Pedersen;

fn sample(tag: u16) -> [u8; 32] {
    let mut bytes = [0u8; 32];
    bytes[0] = (tag % 256) as u8;
    bytes[1] = (tag / 256) as u8;
    bytes[31] = 7;
    bytes
}

fn full_pool() -> CommitmentPool {
    let mut pool = CommitmentPool::new(1, 255);
    for tag in 0..MAX_COMMITMENTS_PER_POOL {
        assert!(!pool.is_full());
        assert_eq!(pool.add_unique_commitment(sample(tag)), Ok(()));
    }
    pool
}

fn commitment_to(amount: u64) -> [u8; 32] {
    let (commitment, _opening) = Pedersen::new(amount);
    commitment.to_bytes()
}

fn input(commitment: [u8; 32]) -> DepositInput {
    DepositInput { commitment_pool_id: 1, commitment, amount: 5 }
}

#[test]
fn new_pool_is_empty() {
    let pool = CommitmentPool::new(9, 3);
    assert_eq!(pool.id, 9);
    assert_eq!(pool.bump, 3);
    assert_eq!(pool.commitment_count, 0);
    assert_eq!(pool.nullifier_count, 0);
    assert!(pool.commitments.is_empty());
    assert!(pool.nullifiers.is_empty());
    assert!(!pool.is_full());
}

#[test]
fn two_distinct_commitments_are_both_kept() {
    let mut pool = CommitmentPool::new(1, 255);
    assert_eq!(pool.add_unique_commitment(sample(1)), Ok(()));
    assert_eq!(pool.add_unique_commitment(sample(2)), Ok(()));
    assert_eq!(pool.commitment_count, 2);
    assert_eq!(pool.commitments, vec![sample(1), sample(2)]);
    assert!(contains_bytes32(&pool.commitments, &sample(1)));
    assert!(contains_bytes32(&pool.commitments, &sample(2)));
    assert!(!contains_bytes32(&pool.commitments, &sample(3)));
}

#[test]
fn a_repeated_commitment_is_refused() {
    let mut pool = CommitmentPool::new(1, 255);
    assert_eq!(pool.add_unique_commitment(sample(1)), Ok(()));
    assert_eq!(
        pool.add_unique_commitment(sample(1)),
        Err(KasbahErrors::CommitmentAlreadyExists)
    );
    assert_eq!(pool.commitment_count, 1);
    assert_eq!(pool.commitments, vec![sample(1)]);
}

#[test]
fn commitments_that_differ_in_the_last_byte_are_distinct() {
    let mut first = [9u8; 32];
    let mut second = [9u8; 32];
    first[31] = 1;
    second[31] = 2;
    assert!(!bytes32_eq(&first, &second));
    assert!(bytes32_eq(&first, &first));
    let mut pool = CommitmentPool::new(1, 0);
    assert_eq!(pool.add_unique_commitment(first), Ok(()));
    assert_eq!(pool.add_unique_commitment(second), Ok(()));
    assert_eq!(pool.commitment_count, 2);
}

#[test]
fn pool_is_full_at_a_thousand_commitments() {
    let pool = full_pool();
    assert_eq!(pool.commitment_count, 1000);
    assert_eq!(pool.commitments.len(), 1000);
    assert!(pool.is_full());
}

#[test]
fn pool_with_999_commitments_is_not_full() {
    let mut pool = CommitmentPool::new(1, 255);
    for tag in 0..999 {
        assert_eq!(pool.add_unique_commitment(sample(tag)), Ok(()));
    }
    assert!(!pool.is_full());
}

#[test]
fn pool_made_by_the_library_is_well_formed() {
    let mut pool = CommitmentPool::new(1, 255);
    assert!(pool.is_well_formed());
    assert_eq!(pool.add_unique_commitment(sample(1)), Ok(()));
    assert_eq!(pool.add_unique_nullifier(sample(2)), Ok(()));
    assert!(pool.is_well_formed());
    assert!(full_pool().is_well_formed());
}

#[test]
fn pool_with_a_wrong_count_or_a_repeat_is_not_well_formed() {
    let mut pool = CommitmentPool::new(1, 255);
    pool.commitment_count = 1;
    assert!(!pool.is_well_formed());
    let mut pool = CommitmentPool::new(1, 255);
    pool.nullifiers.push(sample(1));
    assert!(!pool.is_well_formed());
    pool.nullifier_count = 1;
    assert!(pool.is_well_formed());
    pool.commitments = vec![sample(1), sample(2), sample(1)];
    pool.commitment_count = 3;
    assert!(!pool.is_well_formed());
    pool.commitments = vec![sample(1), sample(2), sample(3)];
    assert!(pool.is_well_formed());
    let mut pool = full_pool();
    pool.commitments.push(sample(5000));
    pool.commitment_count = 1001;
    assert!(!pool.is_well_formed());
}

#[test]
fn a_repeated_nullifier_is_refused_as_a_double_spend() {
    let mut pool = CommitmentPool::new(1, 255);
    assert_eq!(pool.add_unique_nullifier(sample(1)), Ok(()));
    assert_eq!(pool.add_unique_nullifier(sample(2)), Ok(()));
    assert_eq!(
        pool.add_unique_nullifier(sample(1)),
        Err(KasbahErrors::DoubleSpend)
    );
    assert_eq!(pool.nullifier_count, 2);
    assert_eq!(pool.nullifiers, vec![sample(1), sample(2)]);
    assert_eq!(pool.commitment_count, 0);
    assert!(pool.commitments.is_empty());
}

#[test]
fn a_nullifier_may_equal_a_commitment() {
    let mut pool = CommitmentPool::new(1, 255);
    assert_eq!(pool.add_unique_commitment(sample(1)), Ok(()));
    assert_eq!(pool.add_unique_nullifier(sample(1)), Ok(()));
    assert_eq!(pool.commitment_count, 1);
    assert_eq!(pool.nullifier_count, 1);
}

#[test]
fn deposit_of_a_valid_commitment_is_kept() {
    let mut pool = CommitmentPool::new(1, 255);
    let commitment = commitment_to(5);
    assert_eq!(_deposit(&mut pool, &input(commitment)), Ok(()));
    assert_eq!(pool.commitment_count, 1);
    assert_eq!(pool.commitments, vec![commitment]);
}

#[test]
fn deposit_of_two_commitments_keeps_their_order() {
    let mut pool = CommitmentPool::new(1, 255);
    let first = commitment_to(5);
    let second = commitment_to(5);
    assert_ne!(first, second);
    assert_eq!(_deposit(&mut pool, &input(first)), Ok(()));
    assert_eq!(_deposit(&mut pool, &input(second)), Ok(()));
    assert_eq!(pool.commitments, vec![first, second]);
    assert_eq!(pool.commitment_count, 2);
}

#[test]
fn deposit_of_a_repeated_commitment_is_refused() {
    let mut pool = CommitmentPool::new(1, 255);
    let commitment = commitment_to(5);
    assert_eq!(_deposit(&mut pool, &input(commitment)), Ok(()));
    assert_eq!(
        _deposit(&mut pool, &input(commitment)),
        Err(KasbahErrors::CommitmentAlreadyExists)
    );
    assert_eq!(pool.commitment_count, 1);
}

#[test]
fn deposit_of_bytes_that_are_no_point_is_refused() {
    let mut pool = CommitmentPool::new(1, 255);
    assert_eq!(
        _deposit(&mut pool, &input([255u8; 32])),
        Err(KasbahErrors::InvalidCommitment)
    );
    assert_eq!(pool.commitment_count, 0);
    assert!(pool.commitments.is_empty());
}

#[test]
fn deposit_of_the_identity_is_refused() {
    let mut pool = CommitmentPool::new(1, 255);
    assert_eq!(
        _deposit(&mut pool, &input([0u8; 32])),
        Err(KasbahErrors::InvalidCommitment)
    );
    assert_eq!(pool.commitment_count, 0);
    assert!(pool.commitments.is_empty());
}

#[test]
fn deposit_into_a_full_pool_is_refused_and_changes_nothing() {
    let mut pool = full_pool();
    let before = pool.commitments.clone();
    assert_eq!(
        _deposit(&mut pool, &input(commitment_to(5))),
        Err(KasbahErrors::CommitmentPoolFull)
    );
    assert_eq!(pool.commitment_count, 1000);
    assert_eq!(pool.commitments, before);
    assert_eq!(pool.nullifier_count, 0);
}

#[test]
fn deposit_of_the_identity_into_a_full_pool_is_refused_as_full() {
    let mut pool = full_pool();
    assert_eq!(
        _deposit(&mut pool, &input([0u8; 32])),
        Err(KasbahErrors::CommitmentPoolFull)
    );
    assert_eq!(pool.commitment_count, 1000);
}

#[test]
fn deposit_of_no_point_into_a_full_pool_is_refused_as_full() {
    let mut pool = full_pool();
    assert_eq!(
        _deposit(&mut pool, &input([255u8; 32])),
        Err(KasbahErrors::CommitmentPoolFull)
    );
    assert_eq!(pool.commitment_count, 1000);
}

#[test]
fn deposit_of_a_held_commitment_into_a_full_pool_is_refused_as_full() {
    let mut pool = full_pool();
    assert_eq!(
        _deposit(&mut pool, &input(sample(3))),
        Err(KasbahErrors::CommitmentPoolFull)
    );
    assert_eq!(pool.commitment_count, 1000);
}

#[test]
fn deposit_decoded_goes_by_what_it_is_told() {
    let mut pool = full_pool();
    for decoded in [None, Some(true), Some(false)] {
        assert_eq!(
            deposit_decoded(&mut pool, &input(sample(2000)), decoded),
            Err(KasbahErrors::CommitmentPoolFull)
        );
    }
    assert_eq!(pool.commitment_count, 1000);
    let mut pool = CommitmentPool::new(1, 255);
    let deposit = input(sample(4));
    assert_eq!(
        deposit_decoded(&mut pool, &deposit, None),
        Err(KasbahErrors::InvalidCommitment)
    );
    assert_eq!(
        deposit_decoded(&mut pool, &deposit, Some(true)),
        Err(KasbahErrors::InvalidCommitment)
    );
    assert_eq!(pool.commitment_count, 0);
    assert_eq!(deposit_decoded(&mut pool, &deposit, Some(false)), Ok(()));
    assert_eq!(pool.commitments, vec![sample(4)]);
}

#[test]
fn the_administrator_is_the_listed_address() {
    let listed = Pubkey::from_str_const("ALAAqK8zJkFsU2FmzzBypJZmJngBuQ6ayHeR2cHsTJN1");
    assert_eq!(ADMIN, listed.to_bytes());
    assert!(assert_eq_admin(listed.to_bytes()));
    let other = Pubkey::from_str_const("bob4ZvJTTbsctjEnY33kjiYuKuo32F9mpAcjH9yzRUe");
    assert!(!assert_eq_admin(other.to_bytes()));
}

#[test]
fn any_list_of_administrators_can_be_asked() {
    assert_eq!(ADMINS, [ADMIN]);
    assert!(is_listed(&ADMINS, ADMIN));
    assert!(is_listed(&[sample(1), sample(2)], sample(2)));
    assert!(!is_listed(&[sample(1), sample(2)], sample(3)));
    assert!(!is_listed(&[], ADMIN));
}

#[test]
fn genesis_by_the_administrator_makes_treasury_and_first_pool() {
    let authority = sample(77);
    let (treasury, pool) =
        _genesis(ADMIN, &GenesisInput { treasury_authority: authority }, 254, 253).unwrap();
    assert_eq!(
        treasury,
        Treasury { authority, bump: 254, fixed_fee: 100_000 }
    );
    assert_eq!(pool.id, COMMITMENT_POOL_GENESIS_ID);
    assert_eq!(pool.id, 1);
    assert_eq!(pool.bump, 253);
    assert_eq!(pool.commitment_count, 0);
    assert_eq!(pool.nullifier_count, 0);
    assert!(pool.commitments.is_empty());
    assert!(pool.nullifiers.is_empty());
}

#[test]
fn genesis_by_another_signer_is_refused() {
    let result = _genesis(sample(1), &GenesisInput { treasury_authority: sample(2) }, 254, 253);
    assert_eq!(result.err(), Some(KasbahErrors::InvalidAdmin));
}

#[test]
fn ledger_errors_have_their_messages() {
    assert_eq!(KasbahErrors::InvalidAdmin.message(), "Invalid admin error");
    assert_eq!(KasbahErrors::CommitmentPoolFull.message(), "Commitment pool is full");
    assert_eq!(KasbahErrors::CommitmentAlreadyExists.message(), "Commitment already exists");
    assert_eq!(KasbahErrors::InvalidCommitment.message(), "Invalid commitment");
    assert_eq!(KasbahErrors::InvalidNullifier.message(), "Invalid nullifier");
    assert_eq!(KasbahErrors::DoubleSpend.message(), "Nullifier already exists");
}
