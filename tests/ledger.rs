use retailchain::blockchain::BlockchainError;
use retailchain::digest::digest_of_bytes;
use retailchain::encoding::encode_block;
use retailchain::models::{Block, Currency, RetailToken, Transaction, TransactionStatus};
use retailchain::Blockchain;

fn tx(id: u128, from: &str, to: &str, amount: &str, currency: Currency) -> Transaction {
    Transaction {
        id,
        from_address: from.to_string(),
        to_address: to.to_string(),
        amount: amount.to_string(),
        currency,
        timestamp: "2024-01-01T00:00:00+00:00".to_string(),
        status: TransactionStatus::Completed,
    }
}

fn same_transaction(a: &Transaction, b: &Transaction) -> bool {
    a.id == b.id
        && a.from_address == b.from_address
        && a.to_address == b.to_address
        && a.amount == b.amount
        && a.currency == b.currency
        && a.timestamp == b.timestamp
        && a.status == b.status
}

#[test]
fn test_blockchain_validity() {
    let blockchain = Blockchain::new();
    assert!(blockchain.is_chain_valid());
}

#[test]
fn test_currency_equality() {
    let btc1 = Currency::BTC;
    let btc2 = Currency::BTC;
    let eth = Currency::ETH;

    assert_eq!(btc1, btc2);
    assert_ne!(btc1, eth);
}

#[test]
fn retail_tokens_compare_by_symbol() {
    let a = Currency::RETAIL(RetailToken {
        symbol: "RETAIL".to_string(),
        amount: "50".to_string(),
        loyalty_points: 100,
    });
    let b = Currency::RETAIL(RetailToken {
        symbol: "RETAIL".to_string(),
        amount: "1".to_string(),
        loyalty_points: 0,
    });
    let c = Currency::RETAIL(RetailToken {
        symbol: "OTHER".to_string(),
        amount: "50".to_string(),
        loyalty_points: 100,
    });
    assert_eq!(a, b);
    assert_ne!(a, c);
    assert_ne!(a, Currency::USDT);
}

#[test]
fn fresh_ledger_has_only_genesis() {
    let chain = Blockchain::new();
    assert_eq!(chain.get_chain_length(), 1);
    assert_eq!(chain.get_pending_transactions_count(), 0);
    let genesis = chain.get_last_block().unwrap();
    assert_eq!(genesis.index, 0);
    assert_eq!(genesis.previous_hash, "0");
    assert!(genesis.transactions.is_empty());
    assert_eq!(genesis.nonce, 0);
    assert_eq!(genesis.hash.len(), 64);
}

#[test]
fn sealing_an_empty_pool_fails() {
    let mut chain = Blockchain::new();
    let r = chain.mine_block();
    assert!(matches!(r, Err(BlockchainError::NoTransactions)));
    assert_eq!(chain.get_chain_length(), 1);
    assert_eq!(chain.get_pending_transactions_count(), 0);
}

#[test]
fn sealing_two_transactions() {
    let mut chain = Blockchain::with_difficulty(2);
    let a = tx(1, "addr1", "addr2", "100", Currency::USDT);
    let b = tx(2, "addr3", "addr4", "2.5", Currency::BTC);
    chain.add_transaction(a.clone());
    chain.add_transaction(b.clone());
    assert_eq!(chain.get_pending_transactions_count(), 2);

    let genesis_hash = chain.get_last_block().unwrap().hash.clone();
    let block = chain.mine_block().unwrap();
    assert_eq!(block.index, 1);
    assert_eq!(block.transactions.len(), 2);
    assert!(same_transaction(&block.transactions[0], &a));
    assert!(same_transaction(&block.transactions[1], &b));
    assert_eq!(block.previous_hash, genesis_hash);
    assert!(block.hash.starts_with("00"));
    assert_eq!(block.hash.len(), 64);
    assert!(block.hash.chars().all(|c| c.is_ascii_digit() || ('a'..='f').contains(&c)));
    assert_eq!(chain.get_chain_length(), 2);
    assert_eq!(chain.get_pending_transactions_count(), 0);
    assert!(chain.is_chain_valid());
    assert_eq!(chain.first_invalid_block(), None);

    chain.chain[1].transactions.push(tx(3, "x", "y", "1", Currency::ETH));
    assert!(!chain.is_chain_valid());
    assert_eq!(chain.first_invalid_block(), Some(1));
}

#[test]
fn sealed_nonce_is_the_least_that_meets_the_difficulty() {
    let mut chain = Blockchain::with_difficulty(1);
    chain.add_transaction(tx(7, "a", "b", "3", Currency::ETH));
    let block = chain.mine_block().unwrap();
    assert!(block.hash.starts_with('0'));
    let mut probe = block.clone();
    let mut n: u64 = 0;
    while n < block.nonce {
        probe.nonce = n;
        let d = digest_of_bytes(&encode_block(&probe));
        assert!(!d.starts_with('0'));
        n += 1;
    }
    probe.nonce = block.nonce;
    assert_eq!(digest_of_bytes(&encode_block(&probe)), block.hash);
}

#[test]
fn zero_difficulty_seals_with_nonce_zero() {
    let mut chain = Blockchain::with_difficulty(0);
    chain.add_transaction(tx(1, "a", "b", "1", Currency::USDT));
    let block = chain.mine_block().unwrap();
    assert_eq!(block.nonce, 0);
    assert!(chain.is_chain_valid());
}

#[test]
fn tampering_reports_the_first_altered_block() {
    let mut chain = Blockchain::with_difficulty(1);
    for i in 0..3u128 {
        chain.add_transaction(tx(i, "a", "b", "1", Currency::USDT));
        chain.mine_block().unwrap();
    }
    assert_eq!(chain.get_chain_length(), 4);
    assert!(chain.is_chain_valid());

    let mut nonce_changed = Blockchain::with_difficulty(1);
    nonce_changed.chain = chain.chain.clone();
    nonce_changed.chain[2].nonce += 1;
    assert_eq!(nonce_changed.first_invalid_block(), Some(2));

    let mut link_changed = Blockchain::with_difficulty(1);
    link_changed.chain = chain.chain.clone();
    link_changed.chain[3].previous_hash = "0".to_string();
    assert_eq!(link_changed.first_invalid_block(), Some(3));

    let mut digest_changed = Blockchain::with_difficulty(1);
    digest_changed.chain = chain.chain.clone();
    digest_changed.chain[1].hash = "0".repeat(64);
    assert_eq!(digest_changed.first_invalid_block(), Some(1));
}

#[test]
fn genesis_block_is_not_rechecked() {
    let mut chain = Blockchain::new();
    chain.chain[0].transactions.push(tx(9, "a", "b", "1", Currency::BTC));
    chain.chain[0].nonce = 5;
    assert!(chain.is_chain_valid());
}

#[test]
fn validity_check_is_repeatable() {
    let mut chain = Blockchain::with_difficulty(1);
    chain.add_transaction(tx(1, "a", "b", "1", Currency::USDT));
    chain.mine_block().unwrap();
    chain.add_transaction(tx(2, "c", "d", "2", Currency::USDT));
    let first = chain.is_chain_valid();
    let second = chain.is_chain_valid();
    assert_eq!(first, second);
    assert_eq!(chain.get_chain_length(), 2);
    assert_eq!(chain.get_pending_transactions_count(), 1);
}

#[test]
fn digest_is_sha256_in_lower_case_hex() {
    assert_eq!(
        digest_of_bytes(b"abc"),
        "ba7816bf8f01cfea414140de5dae2223b00361a396177a9cb410ff61f20015ad"
    );
}

#[test]
fn block_encoding_is_canonical() {
    let block = Block {
        index: 12,
        timestamp: "T".to_string(),
        transactions: vec![tx(
            5,
            "a\"b",
            "c\\d",
            "7.5",
            Currency::RETAIL(RetailToken {
                symbol: "RETAIL".to_string(),
                amount: "7.5".to_string(),
                loyalty_points: 30,
            }),
        )],
        previous_hash: "p".to_string(),
        hash: "ignored".to_string(),
        nonce: 305,
    };
    let expected = String::from("{\"index\":12,\"nonce\":305,\"previous_hash\":\"p\",\"timestamp\":\"T\",")
        + "\"transactions\":[{\"amount\":\"7.5\","
        + "\"currency\":{\"RETAIL\":{\"amount\":\"7.5\",\"loyalty_points\":30,\"symbol\":\"RETAIL\"}},"
        + "\"from_address\":\"a\\\"b\",\"id\":5,\"status\":\"Completed\","
        + "\"timestamp\":\"2024-01-01T00:00:00+00:00\",\"to_address\":\"c\\\\d\"}]}";
    assert_eq!(String::from_utf8(encode_block(&block)).unwrap(), expected);

    let mut two = block.clone();
    two.transactions.push(tx(6, "e", "f", "1", Currency::BTC));
    two.transactions[1].status = TransactionStatus::Pending;
    let text = String::from_utf8(encode_block(&two)).unwrap();
    assert!(text.contains("\"c\\\\d\"},{\"amount\":\"1\",\"currency\":\"BTC\""));
    assert!(text.contains("\"status\":\"Pending\""));
}
