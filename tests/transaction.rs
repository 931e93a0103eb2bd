use pow_sim::{Hashable, Transaction};

#[test]
fn test_transaction_creation() {
    let tx = Transaction::new_coinbase("miner1".to_string());
    assert_eq!(tx.amount, 50);
    assert_eq!(tx.recipient, "miner1");
}

#[test]
fn test_transaction_hash() {
    let tx = Transaction::new_coinbase("miner1".to_string());
    let hash = tx.hash();
    assert_eq!(hash.len(), 64);
}

#[test]
fn test_transaction_hash_consistency() {
    let tx1 = Transaction::new_coinbase("miner1".to_string());
    let tx2 = Transaction::new_coinbase("miner1".to_string());
    assert_eq!(tx1.hash(), tx2.hash());
}

#[test]
fn test_transaction_hash_different_recipients() {
    let tx1 = Transaction::new_coinbase("miner1".to_string());
    let tx2 = Transaction::new_coinbase("miner2".to_string());
    assert_ne!(tx1.hash(), tx2.hash());
}

#[test]
fn transaction_hash_exact_value() {
    let tx = Transaction::new_coinbase("miner1".to_string());
    assert_eq!(
        tx.hash(),
        "1853666b29adc3c9cf6ce6d367dc7947482b7ddfb5fbd45cbca57aa8560d1333"
    );
    let tx2 = Transaction::new_coinbase("miner2".to_string());
    assert_eq!(
        tx2.hash(),
        "4e421b326c762aaaeeb54d1371c193fefc1545e6ad1a9468119a7f4371a4776a"
    );
}

#[test]
fn transaction_hash_is_lower_hex() {
    let h = Transaction::new_coinbase("x".to_string()).hash();
    assert!(h.chars().all(|c| c.is_ascii_digit() || ('a'..='f').contains(&c)));
}
