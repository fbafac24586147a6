use blockchain::keypair::{KeyError, KeyPair};

#[test]
fn generated_pair_is_accepted() {
    let kp = KeyPair::generate().unwrap();
    assert_eq!(kp.get_private_key().len(), 64);
    assert_eq!(kp.get_public_key().len(), 130);
    assert!(kp.get_public_key().starts_with("04"));
    let again = KeyPair::new(kp.get_private_key().to_string(), kp.get_public_key().to_string()).unwrap();
    assert_eq!(again.get_private_key(), kp.get_private_key());
    assert_eq!(again.get_public_key(), kp.get_public_key());
}

#[test]
fn non_hex_keys_are_wrong_format() {
    let kp = KeyPair::generate().unwrap();
    assert!(matches!(
        KeyPair::new("xyz".to_string(), kp.get_public_key().to_string()),
        Err(KeyError::WrongFormat)
    ));
    assert!(matches!(
        KeyPair::new(kp.get_private_key().to_string(), String::new()),
        Err(KeyError::WrongFormat)
    ));
}

#[test]
fn wrong_lengths_and_values() {
    let kp = KeyPair::generate().unwrap();
    match KeyPair::new("abcd".to_string(), kp.get_public_key().to_string()) {
        Err(KeyError::CryptoError(msg)) => {
            assert_eq!(msg, "private key must be 64 hex characters (32 bytes)")
        }
        _ => panic!("expected a length error"),
    }
    match KeyPair::new(kp.get_private_key().to_string(), "abcd".to_string()) {
        Err(KeyError::CryptoError(msg)) => {
            assert_eq!(msg, "public key must be 130 hex characters (65 bytes uncompressed)")
        }
        _ => panic!("expected a length error"),
    }
    match KeyPair::new("00".repeat(32), kp.get_public_key().to_string()) {
        Err(KeyError::CryptoError(msg)) => assert_eq!(msg, "invalid private key: crypto error"),
        _ => panic!("expected an invalid scalar"),
    }
    match KeyPair::new(kp.get_private_key().to_string(), "07".repeat(65)) {
        Err(KeyError::CryptoError(msg)) => assert_eq!(
            msg,
            "invalid public key format: elliptic curve point encoding error"
        ),
        _ => panic!("expected a format error"),
    }
    match KeyPair::new(kp.get_private_key().to_string(), format!("04{}", "01".repeat(64))) {
        Err(KeyError::CryptoError(msg)) => assert_eq!(msg, "invalid public key point"),
        _ => panic!("expected an invalid point"),
    }
}

#[test]
fn key_error_messages() {
    assert_eq!(KeyError::WrongFormat.message(), "invalid key formatting");
    assert_eq!(KeyError::CryptoError("x".to_string()).message(), "crypto error: x");
    assert!(matches!(KeyError::from("y".to_string()), KeyError::CryptoError(_)));
}

#[test]
fn generated_keys_are_lowercase_hex() {
    let kp = KeyPair::generate().unwrap();
    let private = kp.get_private_key();
    let public = kp.get_public_key();
    assert_eq!(private.len(), 64);
    assert_eq!(public.len(), 130);
    assert!(public.starts_with("04"));
    assert!(private.chars().chain(public.chars()).all(|c| c.is_ascii_digit() || ('a'..='f').contains(&c)));
}
