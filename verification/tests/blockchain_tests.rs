use blockchain::block::Block;
use blockchain::blockchain::{Blockchain, BlockchainError};
use blockchain::currency::Amount;
use blockchain::keypair::KeyPair;
use blockchain::transaction::Transaction;

const COIN: u64 = 100_000_000;

fn make_test_blockchain() -> (Blockchain, KeyPair, String) {
    let kp = KeyPair::generate().unwrap();
    let addr = kp.get_public_key().to_string();
    let mut bc = Blockchain::new(1, Amount::from_satoshis(10 * COIN), 1, addr.clone());
    let mut tx = Transaction::new(addr.clone(), addr.clone(), Amount::from_satoshis(COIN), Amount::from_satoshis(100_000)).unwrap();
    tx.sign(kp.get_private_key()).unwrap();
    bc.add_transaction(tx).unwrap();
    bc.mine_pending_transactions(addr.clone()).unwrap();
    (bc, kp, addr)
}

#[test]
fn genesis_pays_the_miner() {
    let kp = KeyPair::generate().unwrap();
    let addr = kp.get_public_key().to_string();
    let bc = Blockchain::new(2, Amount::from_satoshis(10 * COIN), 3, addr.clone());
    assert_eq!(bc.chain().len(), 1);
    assert_eq!(bc.difficulty(), 2);
    assert_eq!(bc.mining_reward().satoshis(), 10 * COIN);
    assert_eq!(bc.min_fee_rate(), 3);
    assert!(bc.pending_transactions().is_empty());
    assert_eq!(bc.get_balance(&addr).satoshis(), 10 * COIN);
    assert_eq!(bc.get_balance("someone else").satoshis(), 0);
    let genesis = bc.get_latest_block().unwrap();
    assert_eq!(genesis.previous_hash(), "0");
    assert_eq!(genesis.transactions().len(), 1);
    assert!(bc.is_chain_valid());
}

#[test]
fn mined_chain_is_valid_and_balances_add_up() {
    let (bc, _kp, addr) = make_test_blockchain();
    assert_eq!(bc.chain().len(), 2);
    assert!(bc.is_chain_valid());
    assert!(bc.pending_transactions().is_empty());
    let block = &bc.chain()[1];
    assert!(block.validate_block());
    assert!(block.hash().starts_with('0'));
    assert_eq!(block.previous_hash(), bc.chain()[0].hash());
    assert_eq!(block.transactions().len(), 2);
    // 10 from genesis, -1.001 +1 for the self-transfer, 10.001 for the reward
    assert_eq!(bc.get_balance(&addr).satoshis(), 20 * COIN);
    assert_eq!(bc.get_available_balance(&addr).satoshis(), 20 * COIN);
}

#[test]
fn pending_spend_lowers_available_balance() {
    let kp = KeyPair::generate().unwrap();
    let addr = kp.get_public_key().to_string();
    let mut bc = Blockchain::new(1, Amount::from_satoshis(10 * COIN), 1, addr.clone());
    let mut tx = Transaction::new(addr.clone(), "bob".to_string(), Amount::from_satoshis(3 * COIN), Amount::from_satoshis(1000)).unwrap();
    tx.sign(kp.get_private_key()).unwrap();
    bc.add_transaction(tx).unwrap();
    assert_eq!(bc.pending_transactions().len(), 1);
    assert_eq!(bc.get_balance(&addr).satoshis(), 10 * COIN);
    assert_eq!(bc.get_available_balance(&addr).satoshis(), 7 * COIN - 1000);
}

#[test]
fn refused_transactions() {
    let kp = KeyPair::generate().unwrap();
    let addr = kp.get_public_key().to_string();
    let mut bc = Blockchain::new(1, Amount::from_satoshis(10 * COIN), 1, addr.clone());

    let no_sender = Transaction::new_reward(addr.clone(), Amount::from_satoshis(COIN)).unwrap();
    assert!(matches!(bc.add_transaction(no_sender), Err(BlockchainError::EmptyAddress)));

    let cheap = Transaction::new(addr.clone(), "bob".to_string(), Amount::from_satoshis(COIN), Amount::from_satoshis(0)).unwrap();
    match bc.add_transaction(cheap) {
        Err(BlockchainError::InvalidTransaction(msg)) => {
            assert_eq!(msg, "fee too low: 0.00000000 coins, minimum 0.00000250 coins")
        }
        _ => panic!("expected a fee error"),
    }

    let rich = Transaction::new(addr.clone(), "bob".to_string(), Amount::from_satoshis(11 * COIN), Amount::from_satoshis(100_000)).unwrap();
    match bc.add_transaction(rich) {
        Err(BlockchainError::InvalidTransaction(msg)) => assert_eq!(
            msg,
            "insufficient funds: has 10.00000000 coins, trying to send 11.00100000 coins (amount: 11.00000000, fee: 0.00100000)"
        ),
        _ => panic!("expected a funds error"),
    }

    let unsigned = Transaction::new(addr.clone(), "bob".to_string(), Amount::from_satoshis(COIN), Amount::from_satoshis(100_000)).unwrap();
    match bc.add_transaction(unsigned) {
        Err(BlockchainError::InvalidSignature(msg)) => assert_eq!(msg, "crypto error: transaction is not signed"),
        _ => panic!("expected a signature error"),
    }
    assert!(bc.pending_transactions().is_empty());
}

#[test]
fn mining_errors() {
    let kp = KeyPair::generate().unwrap();
    let addr = kp.get_public_key().to_string();
    let mut bc = Blockchain::new(1, Amount::from_satoshis(COIN), 1, addr.clone());
    match bc.mine_pending_transactions(String::new()) {
        Err(BlockchainError::InvalidTransaction(msg)) => assert_eq!(msg, "from or to address is empty"),
        _ => panic!("expected an address error"),
    }
    assert!(bc.pending_transactions().is_empty());

    let mut empty = Blockchain::from_parts(Vec::new(), 1, Vec::new(), Amount::from_satoshis(COIN), 1);
    assert!(matches!(empty.get_latest_block(), Err(BlockchainError::NoBlocks)));
    assert!(matches!(empty.mine_pending_transactions(addr.clone()), Err(BlockchainError::NoBlocks)));
    assert_eq!(empty.pending_transactions().len(), 1);
    assert_eq!(empty.pending_transactions()[0].amount().satoshis(), COIN);
}

#[test]
fn reward_includes_fees() {
    let kp = KeyPair::generate().unwrap();
    let addr = kp.get_public_key().to_string();
    let mut bc = Blockchain::new(1, Amount::from_satoshis(10 * COIN), 1, addr.clone());
    let mut tx = Transaction::new(addr.clone(), "bob".to_string(), Amount::from_satoshis(COIN), Amount::from_satoshis(5_000)).unwrap();
    tx.sign(kp.get_private_key()).unwrap();
    bc.add_transaction(tx).unwrap();
    bc.mine_pending_transactions("miner".to_string()).unwrap();
    let block = bc.get_latest_block().unwrap();
    let reward = &block.transactions()[1];
    assert_eq!(reward.from_address(), "");
    assert_eq!(reward.to_address(), "miner");
    assert_eq!(reward.amount().satoshis(), 10 * COIN + 5_000);
    assert_eq!(bc.get_balance("bob").satoshis(), COIN);
    assert_eq!(bc.get_balance(&addr).satoshis(), 9 * COIN - 5_000);
    assert!(bc.is_chain_valid());
}

#[test]
fn replace_chain_takes_only_longer_valid_chains() {
    let (mut bc, _kp, addr) = make_test_blockchain();
    let shorter: Vec<Block> = vec![bc.chain()[0].clone()];
    assert!(!bc.replace_chain(shorter));
    assert_eq!(bc.chain().len(), 2);

    let mut longer = Blockchain::from_parts(bc.chain().to_vec(), 1, Vec::new(), Amount::from_satoshis(COIN), 1);
    longer.mine_pending_transactions(addr.clone()).unwrap();
    assert!(bc.replace_chain(longer.chain().to_vec()));
    assert_eq!(bc.chain().len(), 3);

    let mut broken: Vec<Block> = bc.chain().to_vec();
    let last = broken.pop().unwrap();
    broken.push(Block::from_parts(
        last.timestamp().to_string(),
        Vec::new(),
        *last.merkle_root(),
        last.previous_hash().to_string(),
        last.hash().to_string(),
        last.nonce(),
    ));
    broken.push(last);
    assert!(!bc.replace_chain(broken));
    assert_eq!(bc.chain().len(), 3);
}

#[test]
fn blockchain_error_messages() {
    assert_eq!(BlockchainError::EmptyAddress.message(), "transaction must include from and to address");
    assert_eq!(BlockchainError::InvalidSignature("x".to_string()).message(), "invalid transaction signature: x");
    assert_eq!(BlockchainError::InvalidTransaction("y".to_string()).message(), "invalid transaction: y");
    assert_eq!(BlockchainError::NoBlocks.message(), "blockchain has no blocks");
}

fn at(secs: i64) -> blockchain::timestamp::Timestamp {
    blockchain::timestamp::Timestamp { secs, nanos: 0 }
}

#[test]
fn mining_at_given_clock_readings() {
    let kp = KeyPair::generate().unwrap();
    let addr = kp.get_public_key().to_string();
    let genesis = Block::origin_at(Vec::new(), "0".to_string(), at(1_700_000_000));
    let mut bc = Blockchain::from_parts(vec![genesis], 1, Vec::new(), Amount::from_satoshis(COIN), 1);
    match bc.mine_pending_transactions_now(String::new(), at(1_700_000_060), at(1_700_000_000)) {
        Err(BlockchainError::InvalidTransaction(msg)) => assert_eq!(msg, "from or to address is empty"),
        _ => panic!("expected an address error"),
    }
    assert!(bc.pending_transactions().is_empty());
    match bc.mine_pending_transactions_now(addr.clone(), at(1_700_000_000), at(1_800_000_000)) {
        Err(BlockchainError::InvalidTransaction(msg)) => assert_eq!(
            msg,
            "invalid timestamp: Block timestamp (2023-11-14T22:13:20+00:00) must be greater than Median Time Past (2023-11-14T22:13:20+00:00)"
        ),
        _ => panic!("expected a median time past error"),
    }
    assert_eq!(bc.pending_transactions().len(), 1);
    // the clock reads 7199 seconds before the block time: one second too early
    match bc.mine_pending_transactions_now(addr.clone(), at(1_700_000_060), at(1_699_992_801)) {
        Err(BlockchainError::InvalidTransaction(msg)) => assert_eq!(
            msg,
            "invalid timestamp: Block timestamp (2023-11-14T22:14:20+00:00) is too far in the future. Max allowed: 2023-11-14T22:13:21+00:00"
        ),
        _ => panic!("expected a drift error"),
    }
    assert_eq!(bc.pending_transactions().len(), 2);
    match bc.mine_pending_transactions_now(addr.clone(), at(1_700_000_060), at(8_210_266_876_799)) {
        Err(BlockchainError::InvalidTransaction(msg)) => assert_eq!(
            msg,
            "invalid timestamp: the latest allowed block time is out of range"
        ),
        _ => panic!("expected a range error"),
    }
    assert_eq!(bc.pending_transactions().len(), 3);
    bc.mine_pending_transactions_now(addr.clone(), at(1_700_000_060), at(1_700_000_060)).unwrap();
    assert!(bc.pending_transactions().is_empty());
    let block = bc.get_latest_block().unwrap();
    assert_eq!(block.timestamp(), "2023-11-14T22:14:20+00:00");
    assert_eq!(block.transactions().len(), 4);
    assert!(block.hash().starts_with('0'));
    assert!(Blockchain::validate_block_at(bc.chain(), 1, at(1_800_000_000)));
    assert!(!Blockchain::validate_block_at(bc.chain(), 1, at(1_700_000_000)));
    assert!(bc.is_chain_valid());
    assert_eq!(bc.get_balance(&addr).satoshis(), 4 * COIN);
}

#[test]
fn chain_validation_against_given_times() {
    let kp = KeyPair::generate().unwrap();
    let addr = kp.get_public_key().to_string();
    let genesis = Block::origin_at(Vec::new(), "0".to_string(), at(1_700_000_000));
    let mut source = Blockchain::from_parts(vec![genesis], 1, Vec::new(), Amount::from_satoshis(COIN), 1);
    source.mine_pending_transactions_now(addr.clone(), at(1_700_000_060), at(1_700_000_060)).unwrap();
    source.mine_pending_transactions_now(addr.clone(), at(1_700_000_120), at(1_700_000_120)).unwrap();
    let blocks = source.chain().to_vec();
    let late = vec![at(0), at(1_800_000_000), at(1_800_000_000)];
    let early = vec![at(0), at(1_800_000_000), at(1_700_000_100)];
    assert!(Blockchain::validate_chain_at(&blocks, &late));
    assert!(!Blockchain::validate_chain_at(&blocks, &early));
    // the genesis block is never checked, so a single block always validates
    assert!(Blockchain::validate_chain_at(&blocks[..1], &[at(0)]));
    assert!(Blockchain::validate_chain_at(&[], &[]));
    let mut broken = blocks.clone();
    broken.swap(1, 2);
    assert!(!Blockchain::validate_chain_at(&broken, &late));

    let mut local = Blockchain::from_parts(blocks[..1].to_vec(), 1, Vec::new(), Amount::from_satoshis(COIN), 1);
    assert!(!local.replace_chain_at(blocks.clone(), &early));
    assert_eq!(local.chain().len(), 1);
    assert!(!local.replace_chain_at(blocks[..1].to_vec(), &[at(0)]));
    assert!(local.replace_chain_at(blocks.clone(), &late));
    assert_eq!(local.chain().len(), 3);
    assert!(local.pending_transactions().is_empty());
    assert_eq!(local.chain()[2].hash(), blocks[2].hash());
    assert!(local.is_chain_valid());
}

#[test]
fn forged_signature_fails_verification() {
    let kp = KeyPair::generate().unwrap();
    let addr = kp.get_public_key().to_string();
    let mut bc = Blockchain::new(1, Amount::from_satoshis(10 * COIN), 1, addr.clone());
    let mut signed = Transaction::new(addr.clone(), "bob".to_string(), Amount::from_satoshis(COIN), Amount::from_satoshis(100_000)).unwrap();
    signed.sign(kp.get_private_key()).unwrap();
    let forged = Transaction::from_parts(
        signed.id().to_string(),
        addr.clone(),
        "bob".to_string(),
        Amount::from_satoshis(2 * COIN),
        Amount::from_satoshis(100_000),
        signed.signature().map(|s| s.to_string()),
    );
    match bc.add_transaction(forged) {
        Err(BlockchainError::InvalidSignature(msg)) => assert_eq!(msg, "signature verification failed"),
        _ => panic!("expected a failed verification"),
    }
    let unreadable = Transaction::from_parts(
        String::new(),
        addr.clone(),
        "bob".to_string(),
        Amount::from_satoshis(COIN),
        Amount::from_satoshis(100_000),
        Some("zz".to_string()),
    );
    match bc.add_transaction(unreadable) {
        Err(BlockchainError::InvalidSignature(msg)) => assert_eq!(
            msg,
            "crypto error: failed to decode signature: Invalid character 'z' at position 0"
        ),
        _ => panic!("expected a crypto error"),
    }
    assert!(bc.pending_transactions().is_empty());
    bc.add_transaction(signed).unwrap();
    assert_eq!(bc.get_available_balance(&addr).satoshis(), 10 * COIN - COIN - 100_000);
}

#[test]
fn cloned_chain_matches() {
    let (bc, _kp, addr) = make_test_blockchain();
    let copy = bc.clone();
    assert_eq!(copy.chain().len(), bc.chain().len());
    assert_eq!(copy.get_balance(&addr).satoshis(), bc.get_balance(&addr).satoshis());
    assert!(copy.is_chain_valid());
}

#[test]
fn available_balance_is_confirmed_less_pending_sends() {
    let kp = KeyPair::generate().unwrap();
    let addr = kp.get_public_key().to_string();
    let mut bc = Blockchain::new(1, Amount::from_satoshis(10 * COIN), 1, addr.clone());
    for (amount, fee) in [(2 * COIN, 1_000u64), (3 * COIN, 2_000u64)] {
        let mut tx = Transaction::new(addr.clone(), "bob".to_string(), Amount::from_satoshis(amount), Amount::from_satoshis(fee)).unwrap();
        tx.sign(kp.get_private_key()).unwrap();
        bc.add_transaction(tx).unwrap();
    }
    let confirmed = bc.get_balance(&addr).satoshis();
    assert_eq!(confirmed, 10 * COIN);
    assert_eq!(bc.get_available_balance(&addr).satoshis(), confirmed - (2 * COIN + 1_000) - (3 * COIN + 2_000));
    // a pending payment to bob is not counted for bob
    assert_eq!(bc.get_available_balance("bob").satoshis(), 0);
    // a pool that sends more than the confirmed balance leaves zero
    let mut big = Transaction::new(addr.clone(), "carol".to_string(), Amount::from_satoshis(20 * COIN), Amount::from_satoshis(0)).unwrap();
    big.sign(kp.get_private_key()).unwrap();
    let pending = vec![bc.pending_transactions()[0].clone(), big];
    let over = Blockchain::from_parts(bc.chain().to_vec(), 1, pending, Amount::from_satoshis(COIN), 1);
    assert_eq!(over.get_available_balance(&addr).satoshis(), 0);
}
