use vstd::prelude::*;
use crate::constants::{NULLIFIER_LEN, PEDERSEN_COMMITMENT_LEN, PEDERSEN_OPENING_LEN, PUBKEY_LEN};
use crate::curve25519::{
    blake3_digest,
    blake3_hash,
    elgamal_public_key,
    elgamal_pubkey,
    is_scalar,
    pedersen_commitment,
    pedersen_new,
    zero_bytes,
    UNIT_LEN,
};
use crate::encoding::{le_bytes, lemma_le_value_of_le_bytes, pow256, push_u64_le};
use crate::errors::SdkError;
use crate::pool::bytes32_eq;
use crate::secrets::KasbahSecrets;

verus! {

/// A deposit as its maker holds it: the commitment that goes to the ledger,
/// and what opens and redeems it.
#[derive(Clone, Copy, Debug, PartialEq, Eq)]
pub struct KasbahDepositReceipt {
    pub commitment: [u8; PEDERSEN_COMMITMENT_LEN],
    pub pool_index: u64,
    pub opening: [u8; PEDERSEN_OPENING_LEN],
    pub nullifier: [u8; NULLIFIER_LEN],
    pub amount: u64,
    pub elgamal_secret: [u8; UNIT_LEN],
}

/// What is hashed into a nullifier: the opening, the recipient's address, the
/// pool's number in eight bytes from the least significant up, and the
/// recipient's one-time public key.
pub open spec fn nullifier_preimage(
    opening: Seq<u8>,
    recipient: Seq<u8>,
    pool_index: u64,
    elgamal_pubkey: Seq<u8>,
) -> Seq<u8> {
    opening + recipient + le_bytes(pool_index as nat, 8) + elgamal_pubkey
}

/// The nullifier of a deposit: the BLAKE3 hash of `nullifier_preimage`.
pub open spec fn nullifier_of(
    opening: Seq<u8>,
    recipient: Seq<u8>,
    pool_index: u64,
    elgamal_pubkey: Seq<u8>,
) -> Seq<u8> {
    blake3_digest(nullifier_preimage(opening, recipient, pool_index, elgamal_pubkey))
}

/// Whether `secret` can be a secret key: a scalar in canonical form, not zero.
pub open spec fn is_secret_key(secret: Seq<u8>) -> bool {
    is_scalar(secret) && secret != zero_bytes()
}

/// Whether the 32 bytes are all zero.
pub fn is_zero_bytes(bytes: &[u8; 32]) -> (zero: bool)
    ensures
        zero == (bytes@ == zero_bytes()),
{
    let zeros = [0u8; 32];
    assert(zeros@ =~= zero_bytes());
    let same = bytes32_eq(bytes, &zeros);
    assert(same == (bytes@ == zero_bytes())) by {
        if *bytes == zeros {
        } else {
            if bytes@ == zeros@ {
                assert(*bytes =~= zeros);
            }
        }
    }
    same
}

/// The nullifier that binds an opening to a recipient, a pool and the
/// recipient's one-time public key.
pub fn derive_nullifier(
    opening: &[u8; PEDERSEN_OPENING_LEN],
    recipient: &[u8; PUBKEY_LEN],
    pool_index: u64,
    elgamal_pubkey: &[u8; UNIT_LEN],
) -> (nullifier: [u8; NULLIFIER_LEN])
    ensures
        nullifier@ == nullifier_of(opening@, recipient@, pool_index, elgamal_pubkey@),
{
    let mut preimage: Vec<u8> = Vec::with_capacity(104);
    preimage.extend_from_slice(opening.as_slice());
    preimage.extend_from_slice(recipient.as_slice());
    push_u64_le(&mut preimage, pool_index);
    preimage.extend_from_slice(elgamal_pubkey.as_slice());
    assert(preimage@ =~= nullifier_preimage(opening@, recipient@, pool_index, elgamal_pubkey@));
    blake3_hash(preimage.as_slice())
}

impl KasbahDepositReceipt {
    /// Whether the receipt is one for a deposit of `amount` to `recipient` in
    /// pool `pool_index`, to be redeemed with `elgamal_secret`: the
    /// commitment is the one to the amount under the receipt's opening, and
    /// the nullifier the one of that opening.
    pub open spec fn is_for(
        &self,
        amount: u64,
        recipient: [u8; PUBKEY_LEN],
        elgamal_secret: [u8; UNIT_LEN],
        pool_index: u64,
    ) -> bool {
        &&& self.amount == amount
        &&& self.pool_index == pool_index
        &&& self.elgamal_secret == elgamal_secret
        &&& is_scalar(self.opening@)
        &&& self.commitment@ == pedersen_commitment(amount, self.opening@)
        &&& self.nullifier@ == nullifier_of(
            self.opening@,
            recipient@,
            pool_index,
            elgamal_public_key(elgamal_secret@),
        )
    }

    /// Makes a deposit of `amount` to `bob` in pool `pool_index`: commits to
    /// the amount under a fresh random opening and derives the nullifier that
    /// binds the opening to `bob`, the pool and the public key of
    /// `elgamal_secret`. A secret that is zero, or no scalar in canonical
    /// form, is refused.
    pub fn new(
        amount: u64,
        bob: [u8; PUBKEY_LEN],
        elgamal_secret: [u8; UNIT_LEN],
        pool_index: u64,
    ) -> (result: Result<KasbahDepositReceipt, SdkError>)
        ensures
            is_secret_key(elgamal_secret@) ==> (result matches Ok(receipt) && receipt.is_for(
                amount,
                bob,
                elgamal_secret,
                pool_index,
            )),
            !is_secret_key(elgamal_secret@) ==> (result matches Err(err) && err
                == SdkError::InvalidSecretKey),
    {
        if is_zero_bytes(&elgamal_secret) {
            return Err(SdkError::InvalidSecretKey);
        }
        // 1. Pedersen commitment with a random opening
        let (commitment, opening) = pedersen_new(amount);
        let elgamal_pk = match elgamal_pubkey(&elgamal_secret) {
            Some(pubkey) => pubkey,
            None => return Err(SdkError::InvalidSecretKey),
        };
        // 2. Nullifier bound to Bob's address
        let nullifier = derive_nullifier(&opening, &bob, pool_index, &elgamal_pk);
        Ok(
            KasbahDepositReceipt {
                opening,
                nullifier,
                elgamal_secret,
                amount,
                commitment,
                pool_index,
            },
        )
    }

    /// The part of the receipt that goes to the recipient.
    pub fn secrets(&self) -> (secrets: KasbahSecrets)
        ensures
            secrets.opening == self.opening,
            secrets.nullifier == self.nullifier,
            secrets.amount == self.amount,
    {
        KasbahSecrets { opening: self.opening, nullifier: self.nullifier, amount: self.amount }
    }
}

/// Two preimages of nullifiers are equal only if they were made of the same
/// opening, recipient, pool and key: nothing but a collision of the hash
/// gives two deposits one nullifier.
pub proof fn lemma_nullifier_preimage_injective(
    opening1: Seq<u8>,
    recipient1: Seq<u8>,
    pool_index1: u64,
    elgamal_pubkey1: Seq<u8>,
    opening2: Seq<u8>,
    recipient2: Seq<u8>,
    pool_index2: u64,
    elgamal_pubkey2: Seq<u8>,
)
    requires
        opening1.len() == 32,
        opening2.len() == 32,
        recipient1.len() == 32,
        recipient2.len() == 32,
        nullifier_preimage(opening1, recipient1, pool_index1, elgamal_pubkey1)
            == nullifier_preimage(opening2, recipient2, pool_index2, elgamal_pubkey2),
    ensures
        opening1 == opening2,
        recipient1 == recipient2,
        pool_index1 == pool_index2,
        elgamal_pubkey1 == elgamal_pubkey2,
{
    let p1 = nullifier_preimage(opening1, recipient1, pool_index1, elgamal_pubkey1);
    let p2 = nullifier_preimage(opening2, recipient2, pool_index2, elgamal_pubkey2);
    assert(opening1 =~= p1.subrange(0, 32));
    assert(opening2 =~= p2.subrange(0, 32));
    assert(recipient1 =~= p1.subrange(32, 64));
    assert(recipient2 =~= p2.subrange(32, 64));
    assert(le_bytes(pool_index1 as nat, 8) =~= p1.subrange(64, 72));
    assert(le_bytes(pool_index2 as nat, 8) =~= p2.subrange(64, 72));
    assert(elgamal_pubkey1 =~= p1.subrange(72, p1.len() as int));
    assert(elgamal_pubkey2 =~= p2.subrange(72, p2.len() as int));
    lemma_le_value_of_le_bytes(pool_index1 as nat, 8);
    lemma_le_value_of_le_bytes(pool_index2 as nat, 8);
    assert(pow256(8) == 0x1_0000_0000_0000_0000) by {
        reveal_with_fuel(pow256, 9);
    }
}

/// A receipt made for a secret key is without fault: its secret key and its
/// opening are scalars, and its commitment is the one to its amount under its
/// opening. So it is owed a redemption package.
pub proof fn lemma_fresh_receipt_has_no_fault(
    receipt: KasbahDepositReceipt,
    amount: u64,
    recipient: [u8; PUBKEY_LEN],
    elgamal_secret: [u8; UNIT_LEN],
    pool_index: u64,
)
    requires
        is_secret_key(elgamal_secret@),
        receipt.is_for(amount, recipient, elgamal_secret, pool_index),
    ensures
        crate::redemption::receipt_fault(receipt) is None,
{
}

/// Two receipts for the same deposit that hold the same opening hold the same
/// commitment and the same nullifier: but for the opening, which is drawn at
/// random, a receipt is a function of what it was made from.
pub proof fn lemma_receipt_determined_by_opening(
    first: KasbahDepositReceipt,
    second: KasbahDepositReceipt,
    amount: u64,
    recipient: [u8; PUBKEY_LEN],
    elgamal_secret: [u8; UNIT_LEN],
    pool_index: u64,
)
    requires
        first.is_for(amount, recipient, elgamal_secret, pool_index),
        second.is_for(amount, recipient, elgamal_secret, pool_index),
        first.opening == second.opening,
    ensures
        first == second,
{
    assert(first.commitment =~= second.commitment);
    assert(first.nullifier =~= second.nullifier);
}

} // verus!
