use blockchain::block::{Block, BlockError};
use blockchain::currency::Amount;
use blockchain::keypair::KeyPair;
use blockchain::merkle::calculate_merkle_root;
use blockchain::timestamp::Timestamp;
use blockchain::transaction::Transaction;
use sha2::{Digest, Sha256};

fn reward(to: &str, sats: u64) -> Transaction {
    Transaction::new_reward(to.to_string(), Amount::from_satoshis(sats)).unwrap()
}

fn leaf_of(tx: &Transaction) -> [u8; 32] {
    let data = format!(
        "{}|{}|{}|{}|{}",
        tx.from_address(),
        tx.to_address(),
        tx.amount().satoshis(),
        tx.fee().satoshis(),
        tx.signature().unwrap_or("")
    );
    let first = Sha256::digest(data.as_bytes());
    Sha256::digest(first).into()
}

fn at(secs: i64) -> Timestamp {
    Timestamp { secs, nanos: 0 }
}

#[test]
fn origin_block_fields_and_hash() {
    let txs = vec![reward("alice", 5), reward("bob", 7)];
    let leaves: Vec<[u8; 32]> = txs.iter().map(leaf_of).collect();
    let block = Block::origin_at(txs, "0".to_string(), at(1_700_000_000));
    assert_eq!(block.timestamp(), "2023-11-14T22:13:20+00:00");
    assert_eq!(block.previous_hash(), "0");
    assert_eq!(block.nonce(), 0);
    assert_eq!(*block.merkle_root(), calculate_merkle_root(&leaves));
    let data = format!(
        "{}{}{}{}",
        block.timestamp(),
        hex::encode(block.merkle_root()),
        "0",
        0
    );
    assert_eq!(block.hash(), hex::encode(Sha256::digest(data.as_bytes())));
    assert_eq!(block.calculate_hash(), block.hash());
    assert!(block.validate_block());
    assert!(block.has_valid_transactions());
}

#[test]
fn empty_block_has_zero_root() {
    let block = Block::origin(Vec::new(), "0".to_string());
    assert_eq!(*block.merkle_root(), [0u8; 32]);
    assert!(block.validate_block());
}

#[test]
fn tampered_block_fails_validation() {
    let block = Block::origin_at(vec![reward("alice", 5)], "0".to_string(), at(1_700_000_000));
    let forged = Block::from_parts(
        block.timestamp().to_string(),
        vec![reward("mallory", 5)],
        *block.merkle_root(),
        block.previous_hash().to_string(),
        block.hash().to_string(),
        block.nonce(),
    );
    assert!(!forged.validate_block());
    let rehashed = Block::from_parts(
        block.timestamp().to_string(),
        vec![reward("alice", 5)],
        *block.merkle_root(),
        block.previous_hash().to_string(),
        "00".to_string(),
        block.nonce(),
    );
    assert!(!rehashed.validate_block());
}

#[test]
fn mining_finds_a_hash_with_leading_zeros() {
    let mut block = Block::origin_at(vec![reward("alice", 5)], "0".to_string(), at(1_700_000_000));
    block.mine_block(2);
    assert!(block.hash().starts_with("00"));
    assert_eq!(block.calculate_hash(), block.hash());
    assert!(block.validate_block());
}

#[test]
fn proofs_for_every_transaction() {
    let txs: Vec<Transaction> = (1..=5).map(|i| reward("alice", i)).collect();
    let block = Block::origin_at(txs, "0".to_string(), at(1_700_000_000));
    for i in 0..5 {
        let proof = block.get_transaction_proof(i).unwrap();
        let tx = &block.transactions()[i];
        assert!(block.verify_transaction_proof(tx, i, &proof));
        assert!(Block::verify_proof_with_root(tx, i, &proof, block.merkle_root()));
        let spv = block.create_spv_proof(i).unwrap();
        assert!(spv.verify());
        assert_eq!(spv.tx_index, i);
        assert_eq!(spv.block_hash, block.hash());
    }
    let proof = block.get_transaction_proof(0).unwrap();
    assert!(!block.verify_transaction_proof(&block.transactions()[1], 0, &proof));
    match block.get_transaction_proof(5) {
        Err(BlockError::InvalidTransaction(msg)) => assert_eq!(msg, "Transaction index out of bounds"),
        _ => panic!("expected an index error"),
    }
    assert!(matches!(block.create_spv_proof(9), Err(BlockError::InvalidTransaction(_))));
}

#[test]
fn new_block_must_be_later_than_median_time_past() {
    let previous: Vec<Block> = (0..3)
        .map(|i| Block::origin_at(Vec::new(), "0".to_string(), at(1_700_000_000 + 100 * i)))
        .collect();
    // median of 1_700_000_000, +100, +200 is +100
    match Block::new_at(Vec::new(), "h".to_string(), &previous, at(1_700_000_100), at(1_800_000_000)) {
        Err(BlockError::InvalidTimestamp(msg)) => assert_eq!(
            msg,
            "Block timestamp (2023-11-14T22:15:00+00:00) must be greater than Median Time Past (2023-11-14T22:15:00+00:00)"
        ),
        _ => panic!("expected a median time past error"),
    }
    match Block::new_at(Vec::new(), "h".to_string(), &previous, at(1_700_000_101), at(1_700_000_000)) {
        Err(BlockError::InvalidTimestamp(msg)) => assert_eq!(
            msg,
            "Block timestamp (2023-11-14T22:15:01+00:00) is too far in the future. Max allowed: 2023-11-14T22:13:20+00:00"
        ),
        _ => panic!("expected a drift error"),
    }
    let block = Block::new_at(Vec::new(), "h".to_string(), &previous, at(1_700_000_101), at(1_800_000_000)).unwrap();
    assert_eq!(block.previous_hash(), "h");
    assert!(block.validate_timestamp_at(&previous, at(1_800_000_000)).is_ok());
    assert!(block.validate_timestamp(&previous).is_ok());
    assert!(matches!(
        block.validate_timestamp_at(&previous, at(1_700_000_000)),
        Err(BlockError::InvalidTimestamp(_))
    ));
}

#[test]
fn median_uses_the_last_eleven_blocks() {
    let mut previous: Vec<Block> = (0..12)
        .map(|i| Block::origin_at(Vec::new(), "0".to_string(), at(1_000 + i)))
        .collect();
    // the last eleven are 1_001 ..= 1_011, whose median is 1_006
    assert!(Block::new_at(Vec::new(), "h".to_string(), &previous, at(1_006), at(5_000)).is_err());
    assert!(Block::new_at(Vec::new(), "h".to_string(), &previous, at(1_007), at(5_000)).is_ok());
    // a timestamp that does not parse is left out
    previous.push(Block::from_parts("garbage".to_string(), Vec::new(), [0u8; 32], "0".to_string(), String::new(), 0));
    assert!(Block::new_at(Vec::new(), "h".to_string(), &previous, at(1_007), at(5_000)).is_err());
    assert!(Block::new_at(Vec::new(), "h".to_string(), &previous, at(1_008), at(5_000)).is_ok());
}

#[test]
fn unparsable_timestamp_is_refused() {
    let block = Block::from_parts("yesterday".to_string(), Vec::new(), [0u8; 32], "0".to_string(), String::new(), 0);
    match block.validate_timestamp(&[]) {
        Err(BlockError::InvalidTimestamp(msg)) => {
            assert_eq!(msg, "Invalid timestamp format: premature end of input")
        }
        _ => panic!("expected a format error"),
    }
}

#[test]
fn fresh_block_uses_the_clock() {
    let block = Block::new(vec![reward("alice", 1)], "0".to_string(), &[]).unwrap();
    assert!(block.validate_block());
    assert!(block.validate_timestamp(&[]).is_ok());
}

#[test]
fn signed_transactions_make_valid_blocks() {
    let kp = KeyPair::generate().unwrap();
    let addr = kp.get_public_key().to_string();
    let mut tx = Transaction::new(addr.clone(), "bob".to_string(), Amount::from_satoshis(5), Amount::from_satoshis(1)).unwrap();
    tx.sign(kp.get_private_key()).unwrap();
    let good = Block::origin_at(vec![tx, reward("miner", 1)], "0".to_string(), at(1_700_000_000));
    assert!(good.has_valid_transactions());
    let unsigned = Transaction::new(addr, "bob".to_string(), Amount::from_satoshis(5), Amount::from_satoshis(1)).unwrap();
    let bad = Block::origin_at(vec![unsigned], "0".to_string(), at(1_700_000_000));
    assert!(!bad.has_valid_transactions());
}

#[test]
fn block_error_messages() {
    assert_eq!(BlockError::InvalidTransaction("x".to_string()).message(), "invalid transaction: x");
    assert_eq!(BlockError::InvalidTimestamp("y".to_string()).message(), "invalid timestamp: y");
    assert_eq!(BlockError::MiningError("z".to_string()).message(), "mining error: z");
}

#[test]
fn median_of_unreadable_timestamps_is_the_epoch() {
    let previous = vec![Block::from_parts("not a time".to_string(), Vec::new(), [0u8; 32], "0".to_string(), String::new(), 0)];
    match Block::new_at(Vec::new(), "h".to_string(), &previous, at(0), at(10)) {
        Err(BlockError::InvalidTimestamp(msg)) => assert_eq!(
            msg,
            "Block timestamp (1970-01-01T00:00:00+00:00) must be greater than Median Time Past (1970-01-01T00:00:00+00:00)"
        ),
        _ => panic!("expected a median time past error"),
    }
    assert!(Block::new_at(Vec::new(), "h".to_string(), &previous, at(1), at(10)).is_ok());
}

/// The last second that `chrono` can represent (the end of its last year).
const LAST_SECOND: i64 = 8_210_266_876_799;

#[test]
fn new_block_is_checked_against_the_clock_reading() {
    let previous: Vec<Block> = (0..3)
        .map(|i| Block::origin_at(Vec::new(), "0".to_string(), at(1_700_000_000 + 100 * i)))
        .collect();
    match Block::new_now(Vec::new(), "h".to_string(), &previous, at(1_700_000_100), at(1_800_000_000)) {
        Err(BlockError::InvalidTimestamp(msg)) => assert_eq!(
            msg,
            "Block timestamp (2023-11-14T22:15:00+00:00) must be greater than Median Time Past (2023-11-14T22:15:00+00:00)"
        ),
        _ => panic!("expected a median time past error"),
    }
    // the clock reads two hours and one second before the block's time
    match Block::new_now(Vec::new(), "h".to_string(), &previous, at(1_700_000_101), at(1_699_992_900)) {
        Err(BlockError::InvalidTimestamp(msg)) => assert_eq!(
            msg,
            "Block timestamp (2023-11-14T22:15:01+00:00) is too far in the future. Max allowed: 2023-11-14T22:15:00+00:00"
        ),
        _ => panic!("expected a drift error"),
    }
    // exactly two hours ahead is still allowed
    let block = Block::new_now(Vec::new(), "h".to_string(), &previous, at(1_700_000_101), at(1_699_992_901)).unwrap();
    assert_eq!(block.timestamp(), "2023-11-14T22:15:01+00:00");
    assert_eq!(block.nonce(), 0);
    assert_eq!(block.hash(), block.calculate_hash());
    assert!(block.validate_block());
    // the block passes the timestamp check at its own reading and at later ones
    assert!(block.validate_timestamp_now(&previous, at(1_699_992_901)).is_ok());
    assert!(block.validate_timestamp_now(&previous, at(1_800_000_000)).is_ok());
    // a clock reading whose latest allowed time is out of range is refused
    match Block::new_now(Vec::new(), "h".to_string(), &[], at(1_700_000_101), at(LAST_SECOND)) {
        Err(BlockError::InvalidTimestamp(msg)) => {
            assert_eq!(msg, "the latest allowed block time is out of range")
        }
        _ => panic!("expected a range error"),
    }
    // the median time past is checked before the range
    match Block::new_now(Vec::new(), "h".to_string(), &previous, at(1_700_000_000), at(LAST_SECOND)) {
        Err(BlockError::InvalidTimestamp(msg)) => assert!(msg.contains("Median Time Past")),
        _ => panic!("expected a median time past error"),
    }
}

#[test]
fn timestamp_checks_against_the_clock_reading() {
    let previous: Vec<Block> = (0..3)
        .map(|i| Block::origin_at(Vec::new(), "0".to_string(), at(1_700_000_000 + 100 * i)))
        .collect();
    let block = Block::origin_at(Vec::new(), "h".to_string(), at(1_700_000_101));
    assert!(block.validate_timestamp_now(&previous, at(1_699_992_901)).is_ok());
    match block.validate_timestamp_now(&previous, at(1_699_992_900)) {
        Err(BlockError::InvalidTimestamp(msg)) => assert_eq!(
            msg,
            "Block timestamp too far in future. Block: 2023-11-14T22:15:01+00:00, Max: 2023-11-14T22:15:00+00:00"
        ),
        _ => panic!("expected a drift error"),
    }
    let stale = Block::origin_at(Vec::new(), "h".to_string(), at(1_700_000_100));
    match stale.validate_timestamp_now(&previous, at(1_800_000_000)) {
        Err(BlockError::InvalidTimestamp(msg)) => assert_eq!(
            msg,
            "Block timestamp must be greater than Median Time Past. Block: 2023-11-14T22:15:00+00:00, MTP: 2023-11-14T22:15:00+00:00"
        ),
        _ => panic!("expected a median time past error"),
    }
    match block.validate_timestamp_now(&previous, at(LAST_SECOND)) {
        Err(BlockError::InvalidTimestamp(msg)) => {
            assert_eq!(msg, "the latest allowed block time is out of range")
        }
        _ => panic!("expected a range error"),
    }
    // with no previous block only the clock matters
    assert!(block.validate_timestamp_now(&[], at(1_699_992_901)).is_ok());
    assert!(block.validate_timestamp_now(&[], at(1_699_992_900)).is_err());
}

#[test]
fn timestamps_from_the_clock_and_from_text() {
    let now = Timestamp::now();
    assert!(now.secs > 1_600_000_000);
    assert!(now.nanos < 1_000_000_000);
    assert_eq!(Timestamp::parse("2023-11-14T22:13:20+00:00"), Some(at(1_700_000_000)));
    assert_eq!(Timestamp::parse("2023-11-15T00:13:20+02:00"), Some(at(1_700_000_000)));
    assert_eq!(Timestamp::parse("yesterday"), None);
    let block = Block::origin_at(Vec::new(), "h".to_string(), Timestamp::parse("2023-11-14T22:15:01+00:00").unwrap());
    assert!(block.validate_timestamp_now(&[], now).is_ok());
}
