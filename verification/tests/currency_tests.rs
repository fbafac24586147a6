use blockchain::currency::{Amount, AmountError, SATOSHIS_PER_COIN};

#[test]
fn satoshis_round_trip() {
    let a = Amount::from_satoshis(150_000_000);
    assert_eq!(a.satoshis(), 150_000_000);
    assert!(!a.is_zero());
    assert!(Amount::from_satoshis(0).is_zero());
    assert_eq!(SATOSHIS_PER_COIN, 100_000_000);
}

#[test]
fn checked_add_and_overflow() {
    let a = Amount::from_satoshis(40);
    let b = Amount::from_satoshis(2);
    assert_eq!(a.checked_add(b).unwrap().satoshis(), 42);
    let max = Amount::from_satoshis(u64::MAX);
    assert!(matches!(max.checked_add(b), Err(AmountError::Overflow)));
}

#[test]
fn checked_sub_and_underflow() {
    let a = Amount::from_satoshis(40);
    let b = Amount::from_satoshis(2);
    assert_eq!(a.checked_sub(b).unwrap().satoshis(), 38);
    assert!(matches!(b.checked_sub(a), Err(AmountError::NonPositive)));
    assert_eq!(a.checked_sub(a).unwrap().satoshis(), 0);
}

#[test]
fn coin_text_has_eight_decimals() {
    assert_eq!(Amount::from_satoshis(150_000_000).to_coin_string(), "1.50000000");
    assert_eq!(Amount::from_satoshis(1).to_coin_string(), "0.00000001");
    assert_eq!(Amount::from_satoshis(0).to_coin_string(), "0.00000000");
    assert_eq!(Amount::from_satoshis(1_000_100_000).to_coin_string(), "10.00100000");
}

#[test]
fn amount_error_messages() {
    assert_eq!(AmountError::Overflow.message(), "amount overflow");
    assert_eq!(AmountError::NonPositive.message(), "amount must be positive");
    assert_eq!(
        AmountError::ParseError("too small".to_string()).message(),
        "parse error: too small"
    );
}
