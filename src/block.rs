use vstd::prelude::*;
use crate::digest::{sha256_hex, sha256_hex_of, DIGEST_LEN};
use crate::encoding::{decimal, lemma_decimal_injective, hex_digit_value, hex_value, is_hex_char, is_lower_hex, push_decimal};
use crate::random::random_u64;
use crate::traits::{Hashable, Validatable};
use crate::transaction::{Transaction, COINBASE_REWARD};

verus! {

/// Number of leading digest characters that the proof of work reads.
pub const WORK_DIGITS: usize = 8;

/// A block: transactions, a link to its predecessor, and a nonce.
#[derive(Debug, Clone)]
pub struct Block {
    /// Position in the chain.
    pub index: u64,
    pub transactions: Vec<Transaction>,
    /// Input varied by the proof-of-work search.
    pub nonce: u64,
    /// Digest of the preceding block.
    pub prev_hash: String,
    /// Set by a successful proof-of-work search, and for the genesis block.
    pub is_valid: bool,
}

/// The digests of `txs`, concatenated in order.
pub open spec fn concat_hashes(txs: Seq<Transaction>) -> Seq<char>
    decreases txs.len(),
{
    if txs.len() == 0 {
        Seq::empty()
    } else {
        concat_hashes(txs.drop_last()) + txs.last().spec_hash()
    }
}

/// The text whose digest is a block's hash: the transactions' digests, the
/// previous digest, then the nonce in decimal.
pub open spec fn block_preimage(txs: Seq<Transaction>, prev_hash: Seq<char>, nonce: u64) -> Seq<
    char,
> {
    concat_hashes(txs) + prev_hash + decimal(nonce as nat)
}

/// The previous-digest field of the genesis block: 64 zeros.
pub open spec fn zero_hash() -> Seq<char> {
    Seq::new(DIGEST_LEN as nat, |_i: int| '0')
}

/// The recipient of the genesis block's coinbase.
pub open spec fn genesis_recipient() -> Seq<char> {
    seq!['g', 'e', 'n', 'e', 's', 'i', 's']
}

/// `b` is the genesis block.
pub open spec fn is_genesis(b: Block) -> bool {
    &&& b.index == 0
    &&& b.nonce == 0
    &&& b.prev_hash@ == zero_hash()
    &&& b.is_valid
    &&& b.transactions@.len() == 1
    &&& b.transactions@[0].amount == COINBASE_REWARD
    &&& b.transactions@[0].recipient@ == genesis_recipient()
}

/// The proof-of-work value of a digest: its first eight characters read as
/// a base-16 `i32`. A reading beyond `i32::MAX` does not fit and counts as
/// `i32::MAX`, so the value is never negative.
pub open spec fn work_value(h: Seq<char>) -> int {
    let v = hex_value(h.take(WORK_DIGITS as int));
    if v <= i32::MAX as nat {
        v as int
    } else {
        i32::MAX as int
    }
}

/// A digest is accepted under `ceiling` when its value is strictly below it.
pub open spec fn meets_ceiling(h: Seq<char>, ceiling: i32) -> bool {
    work_value(h) < ceiling as int
}

/// Sixteen to the power `n`.
pub open spec fn pow16(n: nat) -> nat
    decreases n,
{
    if n == 0 {
        1
    } else {
        16 * pow16((n - 1) as nat)
    }
}

proof fn lemma_pow16_monotonic(a: nat, b: nat)
    requires
        a <= b,
    ensures
        pow16(a) <= pow16(b),
    decreases b,
{
    if a < b {
        lemma_pow16_monotonic(a, (b - 1) as nat);
    }
}

proof fn lemma_pow16_seven()
    ensures
        pow16(7) == 0x1000_0000,
{
    assert(pow16(0) == 1);
    assert(pow16(1) == 16);
    assert(pow16(2) == 0x100);
    assert(pow16(3) == 0x1000);
    assert(pow16(4) == 0x1_0000);
    assert(pow16(5) == 0x10_0000);
    assert(pow16(6) == 0x100_0000);
}

/// A number of `n` base-16 digits is below `pow16(n)`.
proof fn lemma_hex_value_bound(s: Seq<char>)
    requires
        forall|i: int| 0 <= i < s.len() ==> is_hex_char(#[trigger] s[i]),
    ensures
        hex_value(s) < pow16(s.len()),
    decreases s.len(),
{
    if s.len() > 0 {
        let p = s.drop_last();
        assert forall|i: int| 0 <= i < p.len() implies is_hex_char(#[trigger] p[i]) by {
            assert(p[i] == s[i]);
        }
        lemma_hex_value_bound(p);
        assert(is_hex_char(s[s.len() - 1]));
        let a = hex_value(p);
        let b = pow16(p.len());
        let d = hex_digit_value(s.last());
        assert(a * 16 + d < 16 * b) by (nonlinear_arith)
            requires
                a < b,
                d < 16,
        ;
    }
}

/// Reads the proof-of-work value of a digest.
pub fn leading_value(h: &str) -> (r: i32)
    requires
        h@.len() >= WORK_DIGITS,
        forall|i: int| 0 <= i < WORK_DIGITS ==> is_hex_char(#[trigger] h@[i]),
    ensures
        r as int == work_value(h@),
{
    let mut acc: u64 = 0;
    let mut i: usize = 0;
    while i < WORK_DIGITS
        invariant
            i <= WORK_DIGITS,
            h@.len() >= WORK_DIGITS,
            forall|j: int| 0 <= j < WORK_DIGITS ==> is_hex_char(#[trigger] h@[j]),
            acc as nat == hex_value(h@.take(i as int)),
            acc < pow16(i as nat),
        decreases WORK_DIGITS - i,
    {
        proof {
            lemma_pow16_monotonic(i as nat, 7);
            lemma_pow16_seven();
        }
        let c = h.get_char(i);
        let d: u64 = if '0' <= c && c <= '9' {
            (c as u32 - '0' as u32) as u64
        } else if 'a' <= c && c <= 'f' {
            (c as u32 - 'a' as u32 + 10) as u64
        } else {
            (c as u32 - 'A' as u32 + 10) as u64
        };
        assert(d as nat == hex_digit_value(h@[i as int]));
        assert(h@.take(i + 1).drop_last() =~= h@.take(i as int));
        proof {
            let t = h@.take(i + 1);
            assert forall|j: int| 0 <= j < t.len() implies is_hex_char(#[trigger] t[j]) by {
                assert(t[j] == h@[j]);
            }
            lemma_hex_value_bound(t);
        }
        acc = acc * 16 + d;
        i = i + 1;
    }
    if acc <= i32::MAX as u64 {
        acc as i32
    } else {
        i32::MAX
    }
}

impl Block {
    /// A block not yet proven: nonce zero, not valid.
    pub fn new(index: u64, transactions: Vec<Transaction>, prev_hash: String) -> (r: Block)
        requires
            transactions@.len() > 0,
        ensures
            r.index == index,
            r.transactions@ == transactions@,
            r.nonce == 0,
            r.prev_hash@ == prev_hash@,
            !r.is_valid,
    {
        Block { index, transactions, nonce: 0, prev_hash, is_valid: false }
    }

    /// The first block of every chain, valid without a search.
    pub fn genesis() -> (r: Block)
        ensures
            is_genesis(r),
    {
        let recipient = String::from_str("genesis");
        proof {
            reveal_strlit("genesis");
            reveal_strlit("0");
        }
        assert(recipient@ =~= genesis_recipient());
        let coinbase = Transaction::new_coinbase(recipient);
        let mut prev_hash = String::new();
        let mut i: usize = 0;
        while i < DIGEST_LEN
            invariant
                i <= DIGEST_LEN,
                prev_hash@ =~= Seq::new(i as nat, |_j: int| '0'),
            decreases DIGEST_LEN - i,
        {
            proof {
                reveal_strlit("0");
            }
            prev_hash.append("0");
            i = i + 1;
        }
        let r = Block { index: 0, transactions: vec![coinbase], nonce: 0, prev_hash, is_valid: true };
        assert(r.transactions@ =~= seq![coinbase]);
        r
    }

    /// One proof-of-work attempt: draws a random nonce and accepts it when the
    /// new digest meets `ceiling`. A rejected nonce is left in place.
    pub fn try_nonce(&mut self, ceiling: i32) -> (r: bool)
        ensures
            final(self).index == old(self).index,
            final(self).transactions@ == old(self).transactions@,
            final(self).prev_hash@ == old(self).prev_hash@,
            r == meets_ceiling(final(self).spec_hash(), ceiling),
            final(self).is_valid == (old(self).is_valid || r),
            ceiling <= 0 ==> !r,
    {
        let nonce = random_u64();
        self.try_with_nonce(nonce, ceiling)
    }

    /// The proof-of-work trial of a given nonce: stores it and accepts it when
    /// the new digest meets `ceiling`. A rejected nonce is left in place.
    pub fn try_with_nonce(&mut self, nonce: u64, ceiling: i32) -> (r: bool)
        ensures
            final(self).index == old(self).index,
            final(self).transactions@ == old(self).transactions@,
            final(self).prev_hash@ == old(self).prev_hash@,
            final(self).nonce == nonce,
            r == meets_ceiling(final(self).spec_hash(), ceiling),
            final(self).is_valid == (old(self).is_valid || r),
            ceiling <= 0 ==> !r,
    {
        self.nonce = nonce;
        let h = self.hash();
        let value = leading_value(h.as_str());
        if value < ceiling {
            self.is_valid = true;
            true
        } else {
            false
        }
    }
}

impl Hashable for Block {
    open spec fn spec_hash(&self) -> Seq<char> {
        sha256_hex(block_preimage(self.transactions@, self.prev_hash@, self.nonce))
    }

    fn hash(&self) -> (r: String)
        ensures
            r@.len() == DIGEST_LEN,
            is_lower_hex(r@),
    {
        let mut text = String::new();
        let mut i: usize = 0;
        while i < self.transactions.len()
            invariant
                i <= self.transactions@.len(),
                text@ == concat_hashes(self.transactions@.take(i as int)),
            decreases self.transactions@.len() - i,
        {
            let h = self.transactions[i].hash();
            text.append(h.as_str());
            assert(self.transactions@.take(i + 1).drop_last() =~= self.transactions@.take(i as int));
            i = i + 1;
        }
        assert(self.transactions@.take(i as int) =~= self.transactions@);
        text.append(self.prev_hash.as_str());
        push_decimal(&mut text, self.nonce);
        assert(text@ =~= block_preimage(self.transactions@, self.prev_hash@, self.nonce));
        sha256_hex_of(text.as_str())
    }
}

impl Validatable for Block {
    open spec fn spec_valid(&self) -> bool {
        self.is_valid
    }

    fn is_valid(&self) -> (r: bool) {
        self.is_valid
    }
}

/// Transaction lists that agree on each amount and recipient have the same
/// concatenated digests.
proof fn lemma_concat_hashes_determined(a: Seq<Transaction>, b: Seq<Transaction>)
    requires
        a.len() == b.len(),
        forall|i: int|
            0 <= i < a.len() ==> #[trigger] a[i].amount == b[i].amount && a[i].recipient@
                == b[i].recipient@,
    ensures
        concat_hashes(a) == concat_hashes(b),
    decreases a.len(),
{
    if a.len() > 0 {
        lemma_concat_hashes_determined(a.drop_last(), b.drop_last());
        assert(a.last().amount == b.last().amount);
    }
}

/// A block's digest depends on its transactions, its previous digest and its
/// nonce alone: not on its index or its validity flag.
pub proof fn lemma_block_hash_determined(a: Block, b: Block)
    requires
        a.transactions@.len() == b.transactions@.len(),
        forall|i: int|
            0 <= i < a.transactions@.len() ==> #[trigger] a.transactions@[i].amount
                == b.transactions@[i].amount && a.transactions@[i].recipient@
                == b.transactions@[i].recipient@,
        a.prev_hash@ == b.prev_hash@,
        a.nonce == b.nonce,
    ensures
        a.spec_hash() == b.spec_hash(),
{
    lemma_concat_hashes_determined(a.transactions@, b.transactions@);
}

/// Changing only the nonce changes the text whose digest is the block's
/// hash. That the digest changes too rests on SHA-256 being free of
/// collisions, which is not stated here.
pub proof fn lemma_nonce_distinct_preimages(
    txs: Seq<Transaction>,
    prev_hash: Seq<char>,
    n1: u64,
    n2: u64,
)
    requires
        n1 != n2,
    ensures
        block_preimage(txs, prev_hash, n1) != block_preimage(txs, prev_hash, n2),
{
    let head = concat_hashes(txs) + prev_hash;
    let t1 = block_preimage(txs, prev_hash, n1);
    let t2 = block_preimage(txs, prev_hash, n2);
    assert(t1.subrange(head.len() as int, t1.len() as int) =~= decimal(n1 as nat));
    assert(t2.subrange(head.len() as int, t2.len() as int) =~= decimal(n2 as nat));
    if t1 == t2 {
        lemma_decimal_injective(n1 as nat, n2 as nat);
    }
}

/// A nonce trial never succeeds under a ceiling of zero or below: every
/// proof-of-work value is at least zero.
pub proof fn lemma_nonpositive_ceiling_unreachable(h: Seq<char>, ceiling: i32)
    requires
        ceiling <= 0,
    ensures
        !meets_ceiling(h, ceiling),
{
}

/// Under the largest ceiling a digest is accepted exactly when its first
/// eight digits read below `0x7fff_ffff`.
pub proof fn lemma_max_ceiling_acceptance(h: Seq<char>)
    ensures
        meets_ceiling(h, i32::MAX) <==> hex_value(h.take(WORK_DIGITS as int)) < 0x7fff_ffff,
{
}

} // verus!
