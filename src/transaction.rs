use vstd::prelude::*;
use crate::digest::{sha256_hex, sha256_hex_of, DIGEST_LEN};
use crate::encoding::{decimal, is_lower_hex, push_decimal};
use crate::traits::Hashable;

verus! {

/// The reward credited to the miner of each block.
pub const COINBASE_REWARD: u64 = 50;

/// A coinbase transaction: a fixed reward credited to a miner.
#[derive(Debug, Clone)]
pub struct Transaction {
    pub amount: u64,
    pub recipient: String,
}

/// The text whose digest is a transaction's hash: the amount in decimal,
/// a colon, then the recipient.
pub open spec fn tx_preimage(amount: u64, recipient: Seq<char>) -> Seq<char> {
    decimal(amount as nat) + seq![':'] + recipient
}

impl Transaction {
    pub fn new_coinbase(recipient: String) -> (r: Transaction)
        ensures
            r.amount == COINBASE_REWARD,
            r.recipient@ == recipient@,
    {
        Transaction { amount: COINBASE_REWARD, recipient }
    }
}

impl Hashable for Transaction {
    open spec fn spec_hash(&self) -> Seq<char> {
        sha256_hex(tx_preimage(self.amount, self.recipient@))
    }

    fn hash(&self) -> (r: String)
        ensures
            r@.len() == DIGEST_LEN,
            is_lower_hex(r@),
    {
        let mut text = String::new();
        push_decimal(&mut text, self.amount);
        text.append(":");
        text.append(self.recipient.as_str());
        proof {
            reveal_strlit(":");
        }
        assert(text@ =~= tx_preimage(self.amount, self.recipient@));
        sha256_hex_of(text.as_str())
    }
}

/// A transaction's digest depends on its amount and recipient alone.
pub proof fn lemma_tx_hash_determined(a: Transaction, b: Transaction)
    requires
        a.amount == b.amount,
        a.recipient@ == b.recipient@,
    ensures
        a.spec_hash() == b.spec_hash(),
{
}

/// Coinbase transactions for different recipients are digests of different
/// texts. That their digests differ too rests on SHA-256 being free of
/// collisions, which is not stated here.
pub proof fn lemma_recipients_distinct_preimages(r1: Seq<char>, r2: Seq<char>)
    requires
        r1 != r2,
    ensures
        tx_preimage(COINBASE_REWARD, r1) != tx_preimage(COINBASE_REWARD, r2),
{
    let head = decimal(COINBASE_REWARD as nat) + seq![':'];
    let t1 = tx_preimage(COINBASE_REWARD, r1);
    let t2 = tx_preimage(COINBASE_REWARD, r2);
    assert(t1.subrange(head.len() as int, t1.len() as int) =~= r1);
    assert(t2.subrange(head.len() as int, t2.len() as int) =~= r2);
}

} // verus!
