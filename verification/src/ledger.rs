//! The ledger collaborator's dispatch rules, modeled on plain state.
//!
//! Public balances are kept as an append-only book of postings (the most
//! recent posting for an account is its balance), and the private-coin
//! entry points decide exactly as the on-chain dispatcher does: a mint
//! burns one coin nomination from the caller after its proof checks out
//! and its commitment is fresh; a claim credits one nomination after its
//! proof checks out.  Proof checking itself decodes the public values and
//! defers to the external proof system.

use vstd::prelude::*;
use crate::field::{Fp, fp_from_bytes, fp_vals, le_val, modulus};
use crate::circuit::{claim_public_inputs, mint_public_inputs};
use crate::proofsystem::{VerifyingKey, accepts, decoded_proof, groth16_verdict, proof_decodes,
    proof_from_bytes, verify};
use crate::types::{Balance, HashDigest, MerkleRoot, Utxo, VoidNumber, ZKP, COIN_NOMINATION,
    MERKLE_TREE_DEPTH};

verus! {

/// Checks a mint proof over the fixed coin nomination and the commitment
/// bytes: it accepts exactly when both decode — a non-canonical
/// commitment or a malformed proof is a rejection, never a crash — and
/// the proof system's verdict on [nomination, commitment] is positive.
pub fn is_valid_mint(vk: &VerifyingKey, utxo: Utxo, proof: ZKP) -> (r: bool)
    ensures
        r == ({
            &&& le_val(utxo@) < modulus()
            &&& proof_decodes(proof@)
            &&& groth16_verdict(
                *vk,
                seq![COIN_NOMINATION as nat, le_val(utxo@)],
                decoded_proof(proof@),
            )
        }),
{
    let utxo_fp = match fp_from_bytes(&utxo) {
        Some(f) => f,
        None => {
            return false;
        },
    };
    let proof = match proof_from_bytes(&proof) {
        Some(p) => p,
        None => {
            return false;
        },
    };
    let value = Fp::from_u64(COIN_NOMINATION);
    let inputs = mint_public_inputs(&value, &utxo_fp);
    proof {
        assert(fp_vals(inputs@) =~= seq![COIN_NOMINATION as nat, le_val(utxo@)]);
    }
    accepts(verify(vk, &inputs, &proof))
}

/// Checks a claim proof over the fixed coin nomination, the root bytes
/// and the nullifier bytes: it accepts exactly when all three decode —
/// anything non-canonical is a rejection, never a crash — and the proof
/// system's verdict on [nomination, root, nullifier] is positive.
pub fn is_valid_claim(vk: &VerifyingKey, merkle_root: MerkleRoot, void_number: VoidNumber, proof: ZKP) -> (r: bool)
    ensures
        r == ({
            &&& le_val(merkle_root@) < modulus()
            &&& le_val(void_number@) < modulus()
            &&& proof_decodes(proof@)
            &&& groth16_verdict(
                *vk,
                seq![COIN_NOMINATION as nat, le_val(merkle_root@), le_val(void_number@)],
                decoded_proof(proof@),
            )
        }),
{
    let root_fp = match fp_from_bytes(&merkle_root) {
        Some(f) => f,
        None => {
            return false;
        },
    };
    let void_number_fp = match fp_from_bytes(&void_number) {
        Some(f) => f,
        None => {
            return false;
        },
    };
    let proof = match proof_from_bytes(&proof) {
        Some(p) => p,
        None => {
            return false;
        },
    };
    let value = Fp::from_u64(COIN_NOMINATION);
    let inputs = claim_public_inputs(&value, &root_fp, &void_number_fp);
    proof {
        assert(fp_vals(inputs@) =~= seq![
            COIN_NOMINATION as nat,
            le_val(merkle_root@),
            le_val(void_number@),
        ]);
    }
    accepts(verify(vk, &inputs, &proof))
}

/// A Merkle path as the ledger stores it: the sibling of the current
/// leaf, the leaf's index, and the digests of the inner path above it.
#[derive(Clone, Debug, PartialEq, Eq)]
pub struct CurrentPath {
    pub sibling_digest: HashDigest,
    pub leaf_index: u32,
    pub inner_path: Vec<HashDigest>,
}

impl CurrentPath {
    /// Largest encoding the ledger ever stores for a path: one digest per
    /// tree level beside the leaf's own sibling and index.
    pub fn max_encoded_len() -> (r: usize)
        ensures
            r == 32 + 4 + 32 * MERKLE_TREE_DEPTH,
    {
        32usize + 4 + 32 * MERKLE_TREE_DEPTH
    }
}

/// The stored accumulator position: the digest of the current leaf, if
/// one was inserted, and the path from it to the root.
#[derive(Clone, Debug, PartialEq, Eq)]
pub struct UtxoMerkleTreePath {
    pub leaf_digest: Option<HashDigest>,
    pub current_path: CurrentPath,
}

/// An account identifier.
pub type AccountId = u64;

/// One balance posting: the account's balance as of this posting.
#[derive(Clone, Copy, Debug, PartialEq, Eq, Structural)]
pub struct Posting {
    pub account: AccountId,
    pub amount: Balance,
}

/// The balance of `who`: the amount of its most recent posting, zero
/// before any posting.
pub open spec fn balance_of(book: Seq<Posting>, who: AccountId) -> nat
    decreases book.len(),
{
    if book.len() == 0 {
        0
    } else if book.last().account == who {
        book.last().amount as nat
    } else {
        balance_of(book.drop_last(), who)
    }
}

/// Why a dispatch was rejected.
#[derive(Clone, Copy, Debug, PartialEq, Eq, Structural)]
pub enum Error {
    NotEnoughBalance,
    DuplicateUtxo,
    InvalidMintZKP,
    InvalidClaimZKP,
}

/// What a successful dispatch announced.
#[derive(Clone, Copy, Debug, PartialEq, Eq)]
pub enum Event {
    PublicCoinMint(AccountId, Balance),
    PublicTransfer(AccountId, AccountId, Balance),
    PrivateIOUMint(AccountId, Balance, Utxo, ZKP),
    PrivateIOUClaimed(AccountId, Balance),
}

/// The ledger state: public balances, the spent commitments and
/// nullifiers seen so far, and the commitments in insertion order.
pub struct Ledger {
    pub balances: Vec<Posting>,
    pub utxo_set: Vec<Utxo>,
    pub void_number_set: Vec<VoidNumber>,
    pub utxo_insertion_order: Vec<Utxo>,
}

/// Whether the byte string occurs in the set.
pub open spec fn set_contains(set: Seq<Utxo>, item: Utxo) -> bool {
    exists|i: int| 0 <= i < set.len() && set[i]@ == item@
}

/// Compares two digests byte by byte.
fn bytes_equal(lhs: &Utxo, rhs: &Utxo) -> (r: bool)
    ensures
        r == (lhs@ == rhs@),
{
    let mut i: usize = 0;
    while i < 32
        invariant
            i <= 32,
            forall|k: int| 0 <= k < i ==> lhs@[k] == rhs@[k],
        decreases 32 - i,
    {
        if lhs[i] != rhs[i] {
            return false;
        }
        i = i + 1;
    }
    proof {
        assert(lhs@ =~= rhs@);
    }
    true
}

impl Ledger {
    /// An empty ledger.
    pub fn new() -> (r: Ledger)
        ensures
            r.balances@.len() == 0,
            r.utxo_set@.len() == 0,
            r.void_number_set@.len() == 0,
            r.utxo_insertion_order@.len() == 0,
    {
        Ledger {
            balances: Vec::new(),
            utxo_set: Vec::new(),
            void_number_set: Vec::new(),
            utxo_insertion_order: Vec::new(),
        }
    }

    /// The current public balance of `who`.
    pub fn balance(&self, who: AccountId) -> (r: Balance)
        ensures
            r as nat == balance_of(self.balances@, who),
    {
        let ghost book = self.balances@;
        let mut i = self.balances.len();
        proof {
            assert(book.take(i as int) =~= book);
        }
        while i > 0
            invariant
                book == self.balances@,
                i <= book.len(),
                balance_of(book, who) == balance_of(book.take(i as int), who),
            decreases i,
        {
            i = i - 1;
            proof {
                assert(book.take(i as int + 1).last() == book[i as int]);
                assert(book.take(i as int + 1).drop_last() =~= book.take(i as int));
            }
            if self.balances[i].account == who {
                return self.balances[i].amount;
            }
        }
        proof {
            assert(book.take(0) =~= Seq::<Posting>::empty());
        }
        0
    }

    /// Records a commitment that entered the accumulator: the dispatcher
    /// calls this after a successful mint, so that a duplicate is refused
    /// next time.
    pub fn record_utxo(&mut self, utxo: Utxo)
        ensures
            final(self).utxo_set@ == old(self).utxo_set@.push(utxo),
            final(self).utxo_insertion_order@ == old(self).utxo_insertion_order@.push(utxo),
            final(self).balances == old(self).balances,
            final(self).void_number_set == old(self).void_number_set,
    {
        self.utxo_set.push(utxo);
        self.utxo_insertion_order.push(utxo);
    }

    /// Records a published nullifier, the double-spend bookkeeping of a
    /// successful claim.
    pub fn record_void_number(&mut self, void_number: VoidNumber)
        ensures
            final(self).void_number_set@ == old(self).void_number_set@.push(void_number),
            final(self).balances == old(self).balances,
            final(self).utxo_set == old(self).utxo_set,
    {
        self.void_number_set.push(void_number);
    }

    /// Whether a commitment was already seen.
    pub fn contains_utxo(&self, utxo: &Utxo) -> (r: bool)
        ensures
            r == set_contains(self.utxo_set@, *utxo),
    {
        let n = self.utxo_set.len();
        let mut i: usize = 0;
        while i < n
            invariant
                n == self.utxo_set@.len(),
                i <= n,
                forall|k: int| 0 <= k < i ==> self.utxo_set@[k]@ != utxo@,
            decreases n - i,
        {
            if bytes_equal(&self.utxo_set[i], utxo) {
                return true;
            }
            i = i + 1;
        }
        false
    }

    /// Moves `value` from the caller to `destination`, rejecting a caller
    /// whose balance does not cover it.
    pub fn public_transfer(&mut self, who: AccountId, destination: AccountId, value: Balance) -> (r:
        Result<Event, Error>)
        requires
            balance_of(old(self).balances@, destination) + value <= Balance::MAX,
        ensures
            final(self).utxo_set == old(self).utxo_set,
            balance_of(old(self).balances@, who) < value ==> r == Result::<Event, Error>::Err(
                Error::NotEnoughBalance,
            ) && *final(self) == *old(self),
            balance_of(old(self).balances@, who) >= value ==> {
                &&& r == Result::<Event, Error>::Ok(Event::PublicTransfer(who, destination, value))
                &&& balance_of(final(self).balances@, destination) == balance_of(
                    old(self).balances@,
                    destination,
                ) + value
                &&& who != destination ==> balance_of(final(self).balances@, who) == balance_of(
                    old(self).balances@,
                    who,
                ) - value
                &&& forall|a: AccountId|
                    a != who && a != destination ==> balance_of(final(self).balances@, a)
                        == balance_of(old(self).balances@, a)
            },
    {
        let ghost book0 = self.balances@;
        let sender_balance = self.balance(who);
        if sender_balance < value {
            return Err(Error::NotEnoughBalance);
        }
        let receiver_balance = self.balance(destination);
        self.balances.push(Posting { account: who, amount: sender_balance - value });
        let ghost book1 = self.balances@;
        self.balances.push(Posting { account: destination, amount: receiver_balance + value });
        proof {
            let book2 = self.balances@;
            assert(book2.drop_last() =~= book1);
            assert(book1.drop_last() =~= book0);
            assert forall|a: AccountId| a != destination implies balance_of(book2, a) == balance_of(
                book1,
                a,
            ) by {}
        }
        Ok(Event::PublicTransfer(who, destination, value))
    }

    /// Credits freshly minted public coins to the caller.
    pub fn mint_public_coin(&mut self, who: AccountId, value: Balance) -> (r: Result<Event, Error>)
        requires
            balance_of(old(self).balances@, who) + value <= Balance::MAX,
        ensures
            r == Result::<Event, Error>::Ok(Event::PublicCoinMint(who, value)),
            final(self).utxo_set == old(self).utxo_set,
            balance_of(final(self).balances@, who) == balance_of(old(self).balances@, who) + value,
            forall|a: AccountId|
                a != who ==> balance_of(final(self).balances@, a) == balance_of(
                    old(self).balances@,
                    a,
                ),
    {
        let ghost book0 = self.balances@;
        let previous_balance = self.balance(who);
        self.balances.push(Posting { account: who, amount: previous_balance + value });
        proof {
            assert(self.balances@.drop_last() =~= book0);
        }
        Ok(Event::PublicCoinMint(who, value))
    }

    /// Burns one coin nomination from the caller against a mint whose
    /// proof already checked out (`mint_valid`) and whose commitment is
    /// fresh; the accepted proof is announced with the event.
    pub fn mint_private_iou(
        &mut self,
        who: AccountId,
        utxo: Utxo,
        proof: ZKP,
        mint_valid: bool,
    ) -> (r: Result<Event, Error>)
        ensures
            ({
                let b = balance_of(old(self).balances@, who);
                &&& b < COIN_NOMINATION ==> r == Result::<Event, Error>::Err(
                    Error::NotEnoughBalance,
                ) && *final(self) == *old(self)
                &&& b >= COIN_NOMINATION && !mint_valid ==> r == Result::<Event, Error>::Err(
                    Error::InvalidMintZKP,
                ) && *final(self) == *old(self)
                &&& b >= COIN_NOMINATION && mint_valid && set_contains(old(self).utxo_set@, utxo)
                    ==> r == Result::<Event, Error>::Err(Error::DuplicateUtxo) && *final(self)
                    == *old(self)
                &&& b >= COIN_NOMINATION && mint_valid && !set_contains(old(self).utxo_set@, utxo)
                    ==> {
                    &&& r == Result::<Event, Error>::Ok(
                        Event::PrivateIOUMint(who, COIN_NOMINATION, utxo, proof),
                    )
                    &&& balance_of(final(self).balances@, who) == b - COIN_NOMINATION
                    &&& forall|a: AccountId|
                        a != who ==> balance_of(final(self).balances@, a) == balance_of(
                            old(self).balances@,
                            a,
                        )
                    &&& final(self).utxo_set == old(self).utxo_set
                }
            }),
    {
        let ghost book0 = self.balances@;
        let previous_balance = self.balance(who);
        if previous_balance < COIN_NOMINATION {
            return Err(Error::NotEnoughBalance);
        }
        if !mint_valid {
            return Err(Error::InvalidMintZKP);
        }
        if self.contains_utxo(&utxo) {
            return Err(Error::DuplicateUtxo);
        }
        self.balances.push(Posting { account: who, amount: previous_balance - COIN_NOMINATION });
        proof {
            assert(self.balances@.drop_last() =~= book0);
        }
        Ok(Event::PrivateIOUMint(who, COIN_NOMINATION, utxo, proof))
    }

    /// Credits one coin nomination to the caller against a claim whose
    /// proof already checked out (`claim_valid`).
    pub fn claim_private_iou(&mut self, who: AccountId, claim_valid: bool) -> (r: Result<
        Event,
        Error,
    >)
        requires
            balance_of(old(self).balances@, who) + COIN_NOMINATION <= Balance::MAX,
        ensures
            !claim_valid ==> r == Result::<Event, Error>::Err(Error::InvalidClaimZKP)
                && *final(self) == *old(self),
            claim_valid ==> {
                &&& r == Result::<Event, Error>::Ok(
                    Event::PrivateIOUClaimed(who, COIN_NOMINATION),
                )
                &&& balance_of(final(self).balances@, who) == balance_of(old(self).balances@, who)
                    + COIN_NOMINATION
                &&& forall|a: AccountId|
                    a != who ==> balance_of(final(self).balances@, a) == balance_of(
                        old(self).balances@,
                        a,
                    )
                &&& final(self).utxo_set == old(self).utxo_set
            },
    {
        let ghost book0 = self.balances@;
        let previous_balance = self.balance(who);
        if !claim_valid {
            return Err(Error::InvalidClaimZKP);
        }
        self.balances.push(Posting { account: who, amount: previous_balance + COIN_NOMINATION });
        proof {
            assert(self.balances@.drop_last() =~= book0);
        }
        Ok(Event::PrivateIOUClaimed(who, COIN_NOMINATION))
    }
}

} // verus!
