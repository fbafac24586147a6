use blockchain::currency::{Amount, AmountError};
use blockchain::keypair::KeyPair;
use blockchain::transaction::{Transaction, TransactionError};
use sha2::{Digest, Sha256};

fn coins(c: u64) -> Amount {
    Amount::from_satoshis(c * 100_000_000)
}

#[test]
fn new_refuses_empty_addresses_and_zero_amounts() {
    assert!(matches!(
        Transaction::new(String::new(), "bob".to_string(), coins(1), coins(0)),
        Err(TransactionError::EmptyAddress)
    ));
    assert!(matches!(
        Transaction::new("alice".to_string(), String::new(), coins(1), coins(0)),
        Err(TransactionError::EmptyAddress)
    ));
    assert!(matches!(
        Transaction::new("alice".to_string(), "bob".to_string(), Amount::from_satoshis(0), coins(0)),
        Err(TransactionError::NonPositiveAmount)
    ));
}

#[test]
fn id_is_hex_sha256_of_data_text() {
    let tx = Transaction::new(
        "alice".to_string(),
        "bob".to_string(),
        Amount::from_satoshis(100),
        Amount::from_satoshis(1),
    )
    .unwrap();
    let data = "FromAddress:alice,ToAddress:bob,Amount:100,Fee:1";
    assert_eq!(tx.get_data_string(), data);
    assert_eq!(tx.id(), hex::encode(Sha256::digest(data.as_bytes())));
    assert_eq!(tx.from_address(), "alice");
    assert_eq!(tx.to_address(), "bob");
    assert_eq!(tx.amount().satoshis(), 100);
    assert_eq!(tx.fee().satoshis(), 1);
    assert_eq!(tx.signature(), None);
}

#[test]
fn reward_has_no_sender_and_no_fee() {
    let tx = Transaction::new_reward("miner".to_string(), coins(5)).unwrap();
    assert_eq!(tx.from_address(), "");
    assert_eq!(tx.fee().satoshis(), 0);
    assert_eq!(tx.get_data_string(), "FromAddress:,ToAddress:miner,Amount:500000000,Fee:0");
    assert!(matches!(
        Transaction::new_reward(String::new(), coins(5)),
        Err(TransactionError::EmptyAddress)
    ));
}

#[test]
fn size_fee_and_cost() {
    let tx = Transaction::new("a".to_string(), "b".to_string(), Amount::from_satoshis(10), Amount::from_satoshis(3)).unwrap();
    assert_eq!(tx.estimate_size(), 250);
    assert_eq!(tx.suggest_fee(2).satoshis(), 500);
    assert_eq!(tx.total_cost().satoshis(), 13);
    let big = Transaction::new("a".to_string(), "b".to_string(), Amount::from_satoshis(u64::MAX), Amount::from_satoshis(3)).unwrap();
    assert_eq!(big.total_cost().satoshis(), u64::MAX);
    let signed = Transaction::from_parts(
        "id".to_string(),
        "a".to_string(),
        "b".to_string(),
        Amount::from_satoshis(1),
        Amount::from_satoshis(1),
        Some("ab".repeat(70)),
    );
    assert_eq!(signed.estimate_size(), 178 + 70);
}

#[test]
fn signed_transaction_verifies() {
    let kp = KeyPair::generate().unwrap();
    let addr = kp.get_public_key().to_string();
    let mut tx = Transaction::new(addr.clone(), addr.clone(), coins(1), Amount::from_satoshis(100_000)).unwrap();
    tx.sign(kp.get_private_key()).unwrap();
    assert!(tx.signature().is_some());
    assert!(tx.verify_signature().unwrap());
    assert!(matches!(tx.sign(kp.get_private_key()), Err(TransactionError::ExistingSignature)));
}

#[test]
fn tampered_transaction_does_not_verify() {
    let kp = KeyPair::generate().unwrap();
    let addr = kp.get_public_key().to_string();
    let mut tx = Transaction::new(addr.clone(), "bob".to_string(), coins(1), coins(0)).unwrap();
    tx.sign(kp.get_private_key()).unwrap();
    let forged = Transaction::from_parts(
        tx.id().to_string(),
        addr,
        "bob".to_string(),
        coins(2),
        coins(0),
        tx.signature().map(|s| s.to_string()),
    );
    assert!(!forged.verify_signature().unwrap());
}

#[test]
fn signing_errors() {
    let kp = KeyPair::generate().unwrap();
    let other = KeyPair::generate().unwrap();
    let addr = kp.get_public_key().to_string();
    let mut tx = Transaction::new(addr, "bob".to_string(), coins(1), coins(0)).unwrap();
    match tx.sign(other.get_private_key()) {
        Err(TransactionError::CryptoError(msg)) => {
            assert_eq!(msg, "private key does not correspond to FromAddress")
        }
        _ => panic!("expected a key mismatch"),
    }
    match tx.sign("zz") {
        Err(TransactionError::CryptoError(msg)) => {
            assert_eq!(msg, "failed to decode private key: Invalid character 'z' at position 0")
        }
        _ => panic!("expected a decoding error"),
    }
    match tx.sign("abc") {
        Err(TransactionError::CryptoError(msg)) => {
            assert_eq!(msg, "failed to decode private key: Odd number of digits")
        }
        _ => panic!("expected a decoding error"),
    }
    match tx.sign(&"00".repeat(32)) {
        Err(TransactionError::CryptoError(msg)) => {
            assert_eq!(msg, "invalid private key bytes: crypto error")
        }
        _ => panic!("expected an invalid scalar"),
    }
    assert!(tx.signature().is_none());
}

#[test]
fn verification_errors() {
    let tx = Transaction::new("a".to_string(), "b".to_string(), coins(1), coins(0)).unwrap();
    match tx.verify_signature() {
        Err(TransactionError::CryptoError(msg)) => assert_eq!(msg, "transaction is not signed"),
        _ => panic!("expected an unsigned error"),
    }
    let bad_point = Transaction::from_parts(
        "id".to_string(),
        "0102".to_string(),
        "b".to_string(),
        coins(1),
        coins(0),
        Some("00".to_string()),
    );
    match bad_point.verify_signature() {
        Err(TransactionError::CryptoError(msg)) => assert_eq!(
            msg,
            "failed to parse public key point: elliptic curve point encoding error"
        ),
        _ => panic!("expected a point encoding error"),
    }
    let off_curve = Transaction::from_parts(
        "id".to_string(),
        format!("04{}", "01".repeat(64)),
        "b".to_string(),
        coins(1),
        coins(0),
        Some("00".to_string()),
    );
    match off_curve.verify_signature() {
        Err(TransactionError::CryptoError(msg)) => assert_eq!(msg, "failed to unmarshal public key"),
        _ => panic!("expected an invalid point"),
    }
}

#[test]
fn error_messages_and_conversions() {
    assert_eq!(TransactionError::EmptyAddress.message(), "from or to address is empty");
    assert_eq!(TransactionError::ExistingSignature.message(), "transaction is already signed");
    assert_eq!(
        TransactionError::CryptoError("x".to_string()).message(),
        "crypto error: x"
    );
    assert_eq!(
        TransactionError::AmountError(AmountError::Overflow).message(),
        "amount error: amount overflow"
    );
    assert!(matches!(TransactionError::from("m".to_string()), TransactionError::CryptoError(_)));
    assert!(matches!(
        TransactionError::from(AmountError::NonPositive),
        TransactionError::AmountError(AmountError::NonPositive)
    ));
}

#[test]
fn signed_size_stays_within_the_der_bound() {
    let kp = KeyPair::generate().unwrap();
    let addr = kp.get_public_key().to_string();
    let mut tx = Transaction::new(addr, "bob".to_string(), coins(1), coins(0)).unwrap();
    assert_eq!(tx.estimate_size(), 250);
    tx.sign(kp.get_private_key()).unwrap();
    let sig_len = tx.signature().unwrap().len();
    assert!(sig_len % 2 == 0 && sig_len <= 146);
    assert_eq!(tx.estimate_size(), 178 + sig_len / 2);
    assert!(tx.estimate_size() <= 251);
}

#[test]
fn verification_decoding_errors() {
    let kp = KeyPair::generate().unwrap();
    let addr = kp.get_public_key().to_string();
    let with_signature = |from: &str, sig: &str| {
        Transaction::from_parts("id".to_string(), from.to_string(), "b".to_string(), coins(1), coins(0), Some(sig.to_string()))
    };
    match with_signature("0g", "00").verify_signature() {
        Err(TransactionError::CryptoError(msg)) => {
            assert_eq!(msg, "failed to decode public key: Invalid character 'g' at position 1")
        }
        _ => panic!("expected a public key decoding error"),
    }
    match with_signature(&addr, "abc").verify_signature() {
        Err(TransactionError::CryptoError(msg)) => {
            assert_eq!(msg, "failed to decode signature: Odd number of digits")
        }
        _ => panic!("expected a signature decoding error"),
    }
    match with_signature(&addr, "0011").verify_signature() {
        Err(TransactionError::CryptoError(msg)) => {
            assert_eq!(msg, "failed to unmarshal signature: signature error")
        }
        _ => panic!("expected a DER error"),
    }
}
