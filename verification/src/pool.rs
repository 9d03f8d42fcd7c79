use vstd::prelude::*;
use crate::constants::{MAX_COMMITMENTS_PER_POOL, NULLIFIER_LEN, PEDERSEN_COMMITMENT_LEN};
use crate::errors::KasbahErrors;

verus! {

/// What a pool holds, as mathematics: two sequences in the order of arrival,
/// and the count kept of each.
pub struct PoolState {
    pub id: u64,
    pub commitments: Seq<[u8; PEDERSEN_COMMITMENT_LEN]>,
    pub nullifiers: Seq<[u8; NULLIFIER_LEN]>,
    pub commitment_count: nat,
    pub nullifier_count: nat,
    pub bump: u8,
}

impl PoolState {
    /// The counts equal the lengths, neither sequence is longer than the
    /// capacity, and nothing occurs twice.
    pub open spec fn wf(self) -> bool {
        &&& self.commitment_count == self.commitments.len()
        &&& self.nullifier_count == self.nullifiers.len()
        &&& self.commitment_count <= MAX_COMMITMENTS_PER_POOL
        &&& self.nullifier_count <= MAX_COMMITMENTS_PER_POOL
        &&& self.commitments.no_duplicates()
        &&& self.nullifiers.no_duplicates()
    }

    /// An empty pool.
    pub open spec fn empty(id: u64, bump: u8) -> PoolState {
        PoolState {
            id,
            commitments: Seq::empty(),
            nullifiers: Seq::empty(),
            commitment_count: 0,
            nullifier_count: 0,
            bump,
        }
    }

    /// The pool as it is after `commitment` was submitted to it.
    pub open spec fn add_commitment(self, commitment: [u8; PEDERSEN_COMMITMENT_LEN]) -> PoolState {
        if self.commitments.contains(commitment) {
            self
        } else {
            PoolState {
                commitments: self.commitments.push(commitment),
                commitment_count: self.commitment_count + 1,
                ..self
            }
        }
    }

    /// What submitting `commitment` answers.
    pub open spec fn add_commitment_result(
        self,
        commitment: [u8; PEDERSEN_COMMITMENT_LEN],
    ) -> Result<(), KasbahErrors> {
        if self.commitments.contains(commitment) {
            Err(KasbahErrors::CommitmentAlreadyExists)
        } else {
            Ok(())
        }
    }

    /// The pool as it is after `nullifier` was submitted to it.
    pub open spec fn add_nullifier(self, nullifier: [u8; NULLIFIER_LEN]) -> PoolState {
        if self.nullifiers.contains(nullifier) {
            self
        } else {
            PoolState {
                nullifiers: self.nullifiers.push(nullifier),
                nullifier_count: self.nullifier_count + 1,
                ..self
            }
        }
    }

    /// What submitting `nullifier` answers: a nullifier that the pool holds
    /// already is an attempt to spend a deposit twice.
    pub open spec fn add_nullifier_result(self, nullifier: [u8; NULLIFIER_LEN]) -> Result<
        (),
        KasbahErrors,
    > {
        if self.nullifiers.contains(nullifier) {
            Err(KasbahErrors::DoubleSpend)
        } else {
            Ok(())
        }
    }

    /// Whether no further commitment fits.
    pub open spec fn is_full(self) -> bool {
        self.commitment_count >= MAX_COMMITMENTS_PER_POOL
    }

    /// Whether no further nullifier fits.
    pub open spec fn nullifiers_full(self) -> bool {
        self.nullifier_count >= MAX_COMMITMENTS_PER_POOL
    }
}

/// The commitment pool is an indexed collection of all commitments, with the
/// nullifiers of those that were redeemed. Entries are only ever appended.
pub struct CommitmentPool {
    pub id: u64,
    /// Compressed Pedersen commitments.
    pub commitments: Vec<[u8; PEDERSEN_COMMITMENT_LEN]>,
    /// Hashed secrets of the redeemed deposits.
    pub nullifiers: Vec<[u8; NULLIFIER_LEN]>,
    pub commitment_count: u16,
    pub nullifier_count: u16,
    pub bump: u8,
}

impl View for CommitmentPool {
    type V = PoolState;

    open spec fn view(&self) -> PoolState {
        PoolState {
            id: self.id,
            commitments: self.commitments@,
            nullifiers: self.nullifiers@,
            commitment_count: self.commitment_count as nat,
            nullifier_count: self.nullifier_count as nat,
            bump: self.bump,
        }
    }
}

/// Whether `a` and `b` hold the same 32 bytes.
pub fn bytes32_eq(a: &[u8; 32], b: &[u8; 32]) -> (same: bool)
    ensures
        same == (*a == *b),
{
    let mut i: usize = 0;
    while i < 32
        invariant
            i <= 32,
            forall|j: int| 0 <= j < i ==> a[j] == b[j],
        decreases 32 - i,
    {
        if a[i] != b[i] {
            return false;
        }
        i += 1;
    }
    assert(*a =~= *b);
    true
}

/// Whether `entries` holds `wanted`.
pub fn contains_bytes32(entries: &[[u8; 32]], wanted: &[u8; 32]) -> (found: bool)
    ensures
        found == entries@.contains(*wanted),
{
    let mut i: usize = 0;
    while i < entries.len()
        invariant
            i <= entries.len(),
            forall|j: int| 0 <= j < i ==> entries@[j] != *wanted,
        decreases entries.len() - i,
    {
        if bytes32_eq(&entries[i], wanted) {
            return true;
        }
        i += 1;
    }
    false
}

/// Whether nothing occurs twice in `entries`.
pub fn all_distinct(entries: &Vec<[u8; 32]>) -> (distinct: bool)
    ensures
        distinct == entries@.no_duplicates(),
{
    let mut i: usize = 0;
    while i < entries.len()
        invariant
            i <= entries.len(),
            forall|a: int, b: int| 0 <= a < b < i ==> entries@[a] != entries@[b],
        decreases entries.len() - i,
    {
        let mut j: usize = 0;
        while j < i
            invariant
                j <= i,
                i < entries.len(),
                forall|a: int| 0 <= a < j ==> entries@[a] != entries@[i as int],
            decreases i - j,
        {
            if bytes32_eq(&entries[j], &entries[i]) {
                return false;
            }
            j += 1;
        }
        i += 1;
    }
    true
}

impl CommitmentPool {
    /// The counts equal the lengths, neither sequence is longer than the
    /// capacity, and nothing occurs twice.
    pub open spec fn wf(&self) -> bool {
        self@.wf()
    }

    /// Whether the pool is well formed, for a caller that has the pool from
    /// elsewhere.
    pub fn is_well_formed(&self) -> (well_formed: bool)
        ensures
            well_formed == self.wf(),
    {
        let capacity: usize = 1000;
        if self.commitments.len() > capacity || self.nullifiers.len() > capacity {
            return false;
        }
        if self.commitment_count as usize != self.commitments.len() {
            return false;
        }
        if self.nullifier_count as usize != self.nullifiers.len() {
            return false;
        }
        all_distinct(&self.commitments) && all_distinct(&self.nullifiers)
    }

    /// An empty pool.
    pub fn new(id: u64, bump: u8) -> (pool: CommitmentPool)
        ensures
            pool.wf(),
            pool@ == PoolState::empty(id, bump),
    {
        CommitmentPool {
            id,
            commitments: Vec::new(),
            nullifiers: Vec::new(),
            commitment_count: 0,
            nullifier_count: 0,
            bump,
        }
    }

    /// Appends `commitment` unless the pool holds it already. The caller has
    /// made sure that the pool is not full.
    pub fn add_unique_commitment(&mut self, commitment: [u8; PEDERSEN_COMMITMENT_LEN]) -> (result:
        Result<(), KasbahErrors>)
        requires
            old(self).wf(),
            !old(self)@.is_full(),
        ensures
            final(self).wf(),
            final(self)@ == old(self)@.add_commitment(commitment),
            result == old(self)@.add_commitment_result(commitment),
            result is Err ==> *final(self) == *old(self),
    {
        if !contains_bytes32(self.commitments.as_slice(), &commitment) {
            self.commitments.push(commitment);
            self.commitment_count += 1;
            Ok(())
        } else {
            Err(KasbahErrors::CommitmentAlreadyExists)
        }
    }

    /// Records `nullifier` as spent: appends it unless the pool holds it
    /// already. A nullifier that the pool holds is an attempt to spend a
    /// deposit twice: it is refused, and nothing changes.
    pub fn add_unique_nullifier(&mut self, nullifier: [u8; NULLIFIER_LEN]) -> (result: Result<
        (),
        KasbahErrors,
    >)
        requires
            old(self).wf(),
            !old(self)@.nullifiers_full() || old(self)@.nullifiers.contains(nullifier),
        ensures
            final(self).wf(),
            final(self)@ == old(self)@.add_nullifier(nullifier),
            result == old(self)@.add_nullifier_result(nullifier),
            result is Err ==> *final(self) == *old(self),
    {
        if !contains_bytes32(self.nullifiers.as_slice(), &nullifier) {
            self.nullifiers.push(nullifier);
            self.nullifier_count += 1;
            Ok(())
        } else {
            Err(KasbahErrors::DoubleSpend)
        }
    }

    /// Whether the pool holds as many commitments as it may.
    pub fn is_full(&self) -> (full: bool)
        ensures
            full == self@.is_full(),
    {
        self.commitment_count >= MAX_COMMITMENTS_PER_POOL
    }
}

/// Submitting a commitment or a nullifier removes nothing and moves nothing:
/// what the pool held, it holds after, at the same places.
pub proof fn lemma_pool_only_grows(pool: PoolState, entry: [u8; 32])
    ensures
        pool.commitments.is_prefix_of(pool.add_commitment(entry).commitments),
        pool.add_commitment(entry).nullifiers == pool.nullifiers,
        pool.nullifiers.is_prefix_of(pool.add_nullifier(entry).nullifiers),
        pool.add_nullifier(entry).commitments == pool.commitments,
        pool.add_commitment(entry).commitments.contains(entry),
        pool.add_nullifier(entry).nullifiers.contains(entry),
{
    let with_commitment = pool.add_commitment(entry).commitments;
    if !pool.commitments.contains(entry) {
        assert(with_commitment[pool.commitments.len() as int] == entry);
    }
    let with_nullifier = pool.add_nullifier(entry).nullifiers;
    if !pool.nullifiers.contains(entry) {
        assert(with_nullifier[pool.nullifiers.len() as int] == entry);
    }
}

/// A nullifier submitted a second time is refused as a double spend, and
/// changes nothing.
pub proof fn lemma_nullifier_spent_once(pool: PoolState, nullifier: [u8; 32])
    ensures
        pool.add_nullifier(nullifier).add_nullifier(nullifier) == pool.add_nullifier(nullifier),
        pool.add_nullifier(nullifier).add_nullifier_result(nullifier) == Err::<(), KasbahErrors>(
            KasbahErrors::DoubleSpend,
        ),
{
    lemma_pool_only_grows(pool, nullifier);
}

} // verus!
