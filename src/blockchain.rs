use vstd::prelude::*;
use crate::block::{concat_hashes, is_genesis, meets_ceiling, Block};
use crate::digest::sha256_hex;
use crate::encoding::decimal;
use crate::random::random_u64;
use crate::config::Config;
use crate::traits::Hashable;
use crate::transaction::{tx_preimage, Transaction, COINBASE_REWARD};

verus! {

/// An append-only chain of blocks that starts with the genesis block.
pub struct Blockchain {
    pub blocks: Vec<Block>,
    pub config: Config,
}

/// `b` is the block mined on top of `pre` for `miner`: next index, linked to
/// the last digest of `pre`, one coinbase for `miner`, proven.
pub open spec fn is_mined_on(pre: Seq<Block>, b: Block, miner: Seq<char>) -> bool {
    &&& b.index == pre.len()
    &&& b.prev_hash@ == pre.last().spec_hash()
    &&& b.transactions@.len() == 1
    &&& b.transactions@[0].amount == COINBASE_REWARD
    &&& b.transactions@[0].recipient@ == miner
    &&& b.is_valid
}

/// `post` is `pre` with one block mined for `miner` appended, whose digest
/// meets the ceiling.
pub open spec fn extends(pre: Blockchain, post: Blockchain, miner: Seq<char>) -> bool {
    &&& post.config == pre.config
    &&& post.blocks@.len() == pre.blocks@.len() + 1
    &&& post.blocks@.drop_last() == pre.blocks@
    &&& is_mined_on(pre.blocks@, post.blocks@.last(), miner)
    &&& meets_ceiling(post.blocks@.last().spec_hash(), pre.config.ceiling)
}

/// The digest of the block that would be mined on top of `pre` for `miner`
/// with `nonce`: one coinbase for `miner`, linked to the last digest of `pre`.
pub open spec fn candidate_hash(pre: Seq<Block>, miner: Seq<char>, nonce: u64) -> Seq<char> {
    sha256_hex(
        sha256_hex(tx_preimage(COINBASE_REWARD, miner)) + pre.last().spec_hash() + decimal(
            nonce as nat,
        ),
    )
}

/// A chain that holds the genesis block alone.
pub open spec fn is_fresh(c: Blockchain) -> bool {
    &&& c.blocks@.len() == 1
    &&& is_genesis(c.blocks@[0])
}

/// Where the last `n` blocks of a chain of `len` blocks begin.
pub open spec fn tail_start(len: nat, n: nat) -> nat {
    if len > n {
        (len - n) as nat
    } else {
        0
    }
}

impl Blockchain {
    /// The chain's shape: genesis first, each block at its own index, and
    /// each later block linked to the digest of the one before it.
    pub open spec fn wf(&self) -> bool {
        &&& self.blocks@.len() >= 1
        &&& is_genesis(self.blocks@[0])
        &&& forall|i: int| 0 <= i < self.blocks@.len() ==> #[trigger] self.blocks@[i].index == i
        &&& forall|i: int|
            0 < i < self.blocks@.len() ==> #[trigger] self.blocks@[i].prev_hash@ == self.blocks@[i
                - 1].spec_hash()
    }

    pub fn new(config: Config) -> (r: Blockchain)
        ensures
            is_fresh(r),
            r.config == config,
            r.wf(),
    {
        let genesis = Block::genesis();
        let r = Blockchain { blocks: vec![genesis], config };
        assert(r.blocks@ =~= seq![genesis]);
        r
    }

    /// The most recently appended block.
    pub fn latest_block(&self) -> (r: &Block)
        requires
            self.blocks@.len() > 0,
        ensures
            *r == self.blocks@.last(),
    {
        &self.blocks[self.blocks.len() - 1]
    }

    /// One mining attempt for `miner_id`: draws a random nonce and mines the
    /// next block with it, as `mine_with_nonce` does.
    pub fn try_mine_block(&mut self, miner_id: &str) -> (r: bool)
        requires
            old(self).blocks@.len() > 0,
        ensures
            r ==> extends(*old(self), *final(self), miner_id@),
            !r ==> *final(self) == *old(self),
            !r ==> exists|n: u64|
                !meets_ceiling(
                    #[trigger] candidate_hash(old(self).blocks@, miner_id@, n),
                    old(self).config.ceiling,
                ),
            old(self).config.ceiling <= 0 ==> !r,
            old(self).wf() ==> final(self).wf(),
    {
        let nonce = random_u64();
        self.mine_with_nonce(miner_id, nonce)
    }

    /// The proof-of-work trial of `nonce` for the next block, crediting
    /// `miner_id`: the block is appended exactly when its digest meets the
    /// ceiling; otherwise nothing changes.
    pub fn mine_with_nonce(&mut self, miner_id: &str, nonce: u64) -> (r: bool)
        requires
            old(self).blocks@.len() > 0,
        ensures
            r == meets_ceiling(
                candidate_hash(old(self).blocks@, miner_id@, nonce),
                old(self).config.ceiling,
            ),
            r ==> extends(*old(self), *final(self), miner_id@),
            r ==> final(self).blocks@.last().nonce == nonce,
            r ==> final(self).blocks@.last().spec_hash() == candidate_hash(
                old(self).blocks@,
                miner_id@,
                nonce,
            ),
            !r ==> *final(self) == *old(self),
            old(self).config.ceiling <= 0 ==> !r,
            old(self).wf() ==> final(self).wf(),
    {
        let coinbase = Transaction::new_coinbase(String::from_str(miner_id));
        let prev_hash = self.latest_block().hash();
        let index = self.blocks.len() as u64;
        let mut new_block = Block::new(index, vec![coinbase], prev_hash);
        assert(new_block.transactions@ =~= seq![coinbase]);
        let ok = new_block.try_with_nonce(nonce, self.config.ceiling);
        proof {
            let txs = new_block.transactions@;
            assert(txs.drop_last() =~= Seq::<Transaction>::empty());
            assert(concat_hashes(txs.drop_last()) =~= Seq::<char>::empty());
            assert(txs.last() == coinbase);
            assert(concat_hashes(txs) =~= coinbase.spec_hash());
            assert(new_block.spec_hash() == candidate_hash(self.blocks@, miner_id@, nonce));
        }
        if ok {
            let ghost pre = *self;
            self.blocks.push(new_block);
            assert(self.blocks@.drop_last() =~= pre.blocks@);
            proof {
                if pre.wf() {
                    lemma_extends_wf(pre, *self, miner_id@);
                }
            }
            true
        } else {
            false
        }
    }

    /// The last `min(n, len)` blocks, oldest first.
    pub fn last_n_blocks(&self, n: usize) -> (r: Vec<&Block>)
        ensures
            r@.len() == self.blocks@.len() - tail_start(self.blocks@.len(), n as nat),
            forall|i: int|
                0 <= i < r@.len() ==> *#[trigger] r@[i] == self.blocks@[tail_start(
                    self.blocks@.len(),
                    n as nat,
                ) + i],
            self.wf() ==> forall|i: int|
                0 <= i < r@.len() ==> #[trigger] r@[i].index == tail_start(
                    self.blocks@.len(),
                    n as nat,
                ) + i,
    {
        let len = self.blocks.len();
        let start = if len > n {
            len - n
        } else {
            0
        };
        let mut r: Vec<&Block> = Vec::new();
        let mut i: usize = start;
        while i < len
            invariant
                start <= i <= len,
                len == self.blocks@.len(),
                start == tail_start(len as nat, n as nat),
                r@.len() == i - start,
                forall|j: int| 0 <= j < r@.len() ==> *#[trigger] r@[j] == self.blocks@[start + j],
            decreases len - i,
        {
            r.push(&self.blocks[i]);
            i = i + 1;
        }
        r
    }

    pub fn len(&self) -> (r: usize)
        ensures
            r == self.blocks@.len(),
    {
        self.blocks.len()
    }

    /// Never true of a chain built by `new`, which holds the genesis block.
    pub fn is_empty(&self) -> (r: bool)
        ensures
            r == (self.blocks@.len() == 0),
    {
        self.blocks.len() == 0
    }
}

/// Appending a mined block keeps a well-formed chain well formed.
pub proof fn lemma_extends_wf(pre: Blockchain, post: Blockchain, miner: Seq<char>)
    requires
        pre.wf(),
        extends(pre, post, miner),
    ensures
        post.wf(),
{
    let n = pre.blocks@.len();
    assert forall|i: int| 0 <= i < n implies post.blocks@[i] == pre.blocks@[i] by {
        assert(post.blocks@.drop_last()[i] == post.blocks@[i]);
    }
    assert forall|i: int| 0 <= i < post.blocks@.len() implies #[trigger] post.blocks@[i].index
        == i by {
        if i < n {
            assert(post.blocks@[i] == pre.blocks@[i]);
        }
    }
    assert forall|i: int| 0 < i < post.blocks@.len() implies #[trigger] post.blocks@[i].prev_hash@
        == post.blocks@[i - 1].spec_hash() by {
        if i < n {
            assert(post.blocks@[i] == pre.blocks@[i]);
            assert(post.blocks@[i - 1] == pre.blocks@[i - 1]);
        } else {
            assert(post.blocks@[i - 1] == pre.blocks@.last());
        }
    }
}

/// A fresh chain after a run of successful mining steps, one per miner in
/// `miners`, holds one block more than the run has steps, and each block
/// sits at its own index: `0, 1, ..., miners.len()`.
pub proof fn lemma_mining_run(run: Seq<Blockchain>, miners: Seq<Seq<char>>)
    requires
        run.len() == miners.len() + 1,
        is_fresh(run[0]),
        forall|k: int| 0 <= k < miners.len() ==> extends(#[trigger] run[k], run[k + 1], miners[k]),
    ensures
        run.last().blocks@.len() == miners.len() + 1,
        forall|i: int|
            0 <= i < run.last().blocks@.len() ==> #[trigger] run.last().blocks@[i].index == i,
        run.last().wf(),
    decreases miners.len(),
{
    if miners.len() == 0 {
        assert(run.last() == run[0]);
    } else {
        let k = miners.len() - 1;
        let shorter = run.drop_last();
        assert forall|j: int| 0 <= j < miners.drop_last().len() implies extends(
            #[trigger] shorter[j],
            shorter[j + 1],
            miners.drop_last()[j],
        ) by {
            assert(extends(run[j], run[j + 1], miners[j]));
        }
        lemma_mining_run(shorter, miners.drop_last());
        assert(shorter.last() == run[k]);
        assert(extends(run[k], run[k + 1], miners[k]));
        lemma_extends_wf(run[k], run.last(), miners[k]);
    }
}

} // verus!
