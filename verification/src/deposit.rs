use vstd::prelude::*;
use crate::constants::PEDERSEN_COMMITMENT_LEN;
use crate::curve25519::{commitment_is_identity, commitment_point};
use crate::errors::KasbahErrors;
use crate::pool::{CommitmentPool, PoolState};

verus! {

/// What the deposit instruction is called with.
#[derive(Clone, Copy, Debug, PartialEq, Eq)]
pub struct DepositInput {
    pub commitment_pool_id: u64,
    /// The compressed Pedersen commitment to the amount.
    pub commitment: [u8; PEDERSEN_COMMITMENT_LEN],
    pub amount: u64,
}

/// What a deposit answers, given what the commitment decodes to: nothing
/// where it is no point, else whether the point is the identity. A deposit to
/// a full pool is refused first, then a commitment that is no point or is the
/// identity, then a commitment that the pool holds already.
pub open spec fn deposit_result(
    pool: PoolState,
    commitment: [u8; PEDERSEN_COMMITMENT_LEN],
    decoded: Option<bool>,
) -> Result<(), KasbahErrors> {
    if pool.is_full() {
        Err(KasbahErrors::CommitmentPoolFull)
    } else if decoded != Some(false) {
        Err(KasbahErrors::InvalidCommitment)
    } else {
        pool.add_commitment_result(commitment)
    }
}

/// The pool after a deposit: with the commitment appended where the deposit
/// succeeds, and as it was where it fails.
pub open spec fn deposit_state(
    pool: PoolState,
    commitment: [u8; PEDERSEN_COMMITMENT_LEN],
    decoded: Option<bool>,
) -> PoolState {
    if deposit_result(pool, commitment, decoded) is Ok {
        pool.add_commitment(commitment)
    } else {
        pool
    }
}

/// A deposit of a commitment of which it is known what it decodes to.
pub fn deposit_decoded(
    pool: &mut CommitmentPool,
    input: &DepositInput,
    decoded: Option<bool>,
) -> (result: Result<(), KasbahErrors>)
    requires
        old(pool).wf(),
    ensures
        final(pool).wf(),
        result == deposit_result(old(pool)@, input.commitment, decoded),
        final(pool)@ == deposit_state(old(pool)@, input.commitment, decoded),
        result is Err ==> *final(pool) == *old(pool),
{
    if pool.is_full() {
        return Err(KasbahErrors::CommitmentPoolFull);
    }
    // The commitment must be a point of the curve other than the identity.
    match decoded {
        Some(false) => pool.add_unique_commitment(input.commitment),
        _ => Err(KasbahErrors::InvalidCommitment),
    }
}

/// Deposits a commitment into the pool that the host has picked by the id in
/// `input`. The pool must have room, the commitment must decode to a point of
/// the curve other than the identity, and the pool must not hold it yet;
/// where the deposit is refused the pool stays as it was.
pub fn _deposit(pool: &mut CommitmentPool, input: &DepositInput) -> (result: Result<
    (),
    KasbahErrors,
>)
    requires
        old(pool).wf(),
    ensures
        final(pool).wf(),
        result == deposit_result(old(pool)@, input.commitment, commitment_point(input.commitment@)),
        final(pool)@ == deposit_state(
            old(pool)@,
            input.commitment,
            commitment_point(input.commitment@),
        ),
        result is Err ==> *final(pool) == *old(pool),
        old(pool)@.is_full() ==> result == Err::<(), KasbahErrors>(
            KasbahErrors::CommitmentPoolFull,
        ),
{
    let decoded = commitment_is_identity(&input.commitment);
    deposit_decoded(pool, input, decoded)
}

/// Two different commitments that are points other than the identity,
/// deposited into an empty pool, are both kept, in the order of their
/// arrival: the pool then counts two.
pub proof fn lemma_two_deposits(pool: PoolState, first: [u8; 32], second: [u8; 32])
    requires
        pool.wf(),
        pool.commitment_count == 0,
        first != second,
    ensures
        deposit_result(pool, first, Some(false)) is Ok,
        deposit_result(deposit_state(pool, first, Some(false)), second, Some(false)) is Ok,
        ({
            let after = deposit_state(deposit_state(pool, first, Some(false)), second, Some(false));
            &&& after == pool.add_commitment(first).add_commitment(second)
            &&& after.wf()
            &&& after.commitment_count == 2
            &&& after.commitments == seq![first, second]
            &&& after.commitments.contains(first)
            &&& after.commitments.contains(second)
        }),
{
    let one = pool.add_commitment(first);
    assert(one.commitments =~= seq![first]);
    assert(!one.commitments.contains(second)) by {
        if one.commitments.contains(second) {
            let i = choose|i: int| 0 <= i < one.commitments.len() && one.commitments[i] == second;
            assert(one.commitments[i] == first);
        }
    }
    let two = one.add_commitment(second);
    assert(two.commitments =~= seq![first, second]);
    assert(two.commitments[0] == first);
    assert(two.commitments[1] == second);
}

/// A commitment deposited a second time is refused as already there, and the
/// pool still counts one.
pub proof fn lemma_repeated_deposit(pool: PoolState, commitment: [u8; 32])
    requires
        pool.wf(),
        pool.commitment_count == 0,
    ensures
        deposit_result(pool, commitment, Some(false)) is Ok,
        ({
            let once = deposit_state(pool, commitment, Some(false));
            &&& deposit_result(once, commitment, Some(false)) == Err::<(), KasbahErrors>(
                KasbahErrors::CommitmentAlreadyExists,
            )
            &&& deposit_state(once, commitment, Some(false)) == once
            &&& once == pool.add_commitment(commitment)
            &&& once.add_commitment(commitment) == once
            &&& once.add_commitment_result(commitment) == Err::<(), KasbahErrors>(
                KasbahErrors::CommitmentAlreadyExists,
            )
            &&& once.wf()
            &&& once.commitment_count == 1
            &&& once.commitments == seq![commitment]
        }),
{
    let one = pool.add_commitment(commitment);
    assert(one.commitments =~= seq![commitment]);
    assert(one.commitments[0] == commitment);
}

/// A deposit into a full pool is refused because the pool is full, whatever
/// is deposited, and the pool stays as it was.
pub proof fn lemma_full_pool_refuses(
    pool: PoolState,
    commitment: [u8; 32],
    decoded: Option<bool>,
)
    requires
        pool.is_full(),
    ensures
        deposit_result(pool, commitment, decoded) == Err::<(), KasbahErrors>(
            KasbahErrors::CommitmentPoolFull,
        ),
        deposit_state(pool, commitment, decoded) == pool,
{
}

/// A deposit never makes a pool shorter: a pool that is full stays full.
pub proof fn lemma_deposit_keeps_full(
    pool: PoolState,
    commitment: [u8; 32],
    decoded: Option<bool>,
)
    ensures
        deposit_state(pool, commitment, decoded).commitment_count >= pool.commitment_count,
        pool.is_full() ==> deposit_state(pool, commitment, decoded).is_full(),
{
}

/// Whatever a deposit is refused for, the pool stays as it was. It succeeds
/// only for a point other than the identity that a pool with room does not
/// hold yet, and the pool then has grown by that one commitment.
pub proof fn lemma_deposit_all_or_nothing(
    pool: PoolState,
    commitment: [u8; 32],
    decoded: Option<bool>,
)
    ensures
        deposit_result(pool, commitment, decoded) is Err ==> deposit_state(
            pool,
            commitment,
            decoded,
        ) == pool,
        deposit_result(pool, commitment, decoded) is Ok ==> decoded == Some(false)
            && !pool.is_full() && !pool.commitments.contains(commitment) && deposit_state(
            pool,
            commitment,
            decoded,
        ).commitments == pool.commitments.push(commitment),
{
}

} // verus!
