use pow_sim::{Blockchain, Config, Hashable};

#[test]
fn test_blockchain_creation() {
    let config = Config::default();
    let blockchain = Blockchain::new(config);
    assert_eq!(blockchain.len(), 1);
    assert!(!blockchain.is_empty());
}

#[test]
fn test_blockchain_genesis() {
    let config = Config::default();
    let blockchain = Blockchain::new(config);
    let genesis = blockchain.latest_block();
    assert_eq!(genesis.index, 0);
    assert!(genesis.is_valid);
}

#[test]
fn test_mine_block() {
    let config = Config::default();
    let mut blockchain = Blockchain::new(config);

    let mut success = false;
    for _ in 0..100 {
        if blockchain.try_mine_block("miner1") {
            success = true;
            break;
        }
    }
    assert!(success);
    assert_eq!(blockchain.len(), 2);
}

#[test]
fn test_mine_multiple_blocks() {
    let config = Config::default();
    let mut blockchain = Blockchain::new(config);

    for i in 0..5 {
        let mut success = false;
        for _ in 0..100 {
            if blockchain.try_mine_block(&format!("miner{}", i)) {
                success = true;
                break;
            }
        }
        assert!(success);
    }

    assert_eq!(blockchain.len(), 6);
}

#[test]
fn test_last_n_blocks() {
    let config = Config::default();
    let mut blockchain = Blockchain::new(config);

    for i in 0..5 {
        while !blockchain.try_mine_block(&format!("miner{}", i)) {}
    }

    let last_3 = blockchain.last_n_blocks(3);
    assert_eq!(last_3.len(), 3);
    assert_eq!(last_3[0].index, 3);
    assert_eq!(last_3[1].index, 4);
    assert_eq!(last_3[2].index, 5);
}

#[test]
fn test_last_n_blocks_more_than_available() {
    let config = Config::default();
    let blockchain = Blockchain::new(config);

    let last_10 = blockchain.last_n_blocks(10);
    assert_eq!(last_10.len(), 1);
}

#[test]
fn test_mine_with_impossible_ceiling() {
    let config = Config::new(0, 1);
    let mut blockchain = Blockchain::new(config);

    let result = blockchain.try_mine_block("miner1");
    assert!(!result);
    assert_eq!(blockchain.len(), 1);
}

#[test]
fn mined_chain_indices_and_links() {
    let mut blockchain = Blockchain::new(Config::default());
    for i in 0..4 {
        while !blockchain.try_mine_block(&format!("m{}", i)) {}
    }
    assert_eq!(blockchain.len(), 5);
    for (i, b) in blockchain.blocks.iter().enumerate() {
        assert_eq!(b.index, i as u64);
        assert!(b.is_valid);
    }
    for i in 1..blockchain.blocks.len() {
        assert_eq!(blockchain.blocks[i].prev_hash, blockchain.blocks[i - 1].hash());
        assert_eq!(blockchain.blocks[i].transactions.len(), 1);
        assert_eq!(blockchain.blocks[i].transactions[0].recipient, format!("m{}", i - 1));
    }
    assert_eq!(blockchain.latest_block().index, 4);
}

#[test]
fn last_n_blocks_zero_and_all() {
    let mut blockchain = Blockchain::new(Config::default());
    while !blockchain.try_mine_block("m") {}
    assert_eq!(blockchain.last_n_blocks(0).len(), 0);
    let all = blockchain.last_n_blocks(2);
    assert_eq!(all.len(), 2);
    assert_eq!(all[0].index, 0);
    assert_eq!(all[1].index, 1);
    assert_eq!(blockchain.last_n_blocks(usize::MAX).len(), 2);
}

#[test]
fn failed_mining_leaves_chain_unchanged() {
    let mut blockchain = Blockchain::new(Config::new(-5, 0));
    let before = blockchain.latest_block().hash();
    for _ in 0..50 {
        assert!(!blockchain.try_mine_block("m"));
    }
    assert_eq!(blockchain.len(), 1);
    assert_eq!(blockchain.latest_block().hash(), before);
}

#[test]
fn mine_with_nonce_accepts_exactly_below_ceiling() {
    let mut rejected = Blockchain::new(Config::new(1435897627, 1));
    assert!(!rejected.mine_with_nonce("m", 0));
    assert_eq!(rejected.len(), 1);

    let mut accepted = Blockchain::new(Config::new(1435897628, 1));
    assert!(accepted.mine_with_nonce("m", 0));
    assert_eq!(accepted.len(), 2);
    let block = accepted.latest_block();
    assert_eq!(block.index, 1);
    assert_eq!(block.nonce, 0);
    assert!(block.is_valid);
    assert_eq!(
        block.hash(),
        "55960f1bb7984f4d9d318974f2f3a30232d0573f5146ee81372c6ae9d4b7bf11"
    );
    assert_eq!(
        block.prev_hash,
        "fac9448b05c86b5166a25b7b6d8d4374f19a3e298ce075db709ec730504380dd"
    );
}

#[test]
fn mine_with_nonce_top_bit_digest_fails_max_ceiling() {
    let mut blockchain = Blockchain::new(Config::default());
    assert!(!blockchain.mine_with_nonce("m", 3));
    assert!(!blockchain.mine_with_nonce("m", 4));
    assert_eq!(blockchain.len(), 1);
    assert!(blockchain.mine_with_nonce("m", 2));
    assert_eq!(blockchain.len(), 2);
}
