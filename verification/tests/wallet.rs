use tencoin::wallet::Wallet;

#[test]
fn test_wallet_creation() {
    let wallet = Wallet::new();
    assert!(!wallet.get_address().is_empty());
    assert!(wallet.get_address().starts_with("RC"));
}

#[test]
fn test_signature() {
    let wallet = Wallet::new();
    let data = "test message";

    let signature = wallet.sign_data(data).unwrap();
    let is_valid = Wallet::verify_signature(data, &signature, &wallet.get_public_key());

    assert!(is_valid);
}

const ONE: &str = "0000000000000000000000000000000000000000000000000000000000000001";

#[test]
fn wallet_of_known_private_key() {
    let w = Wallet::from_private_key(ONE).unwrap();
    assert_eq!(
        w.get_public_key(),
        "0279be667ef9dcbbac55a06295ce870b07029bfcdb2dce28d959f2815b16f81798"
    );
    assert_eq!(w.get_address(), "RC0f715baf5d4c2ed329785cef29e562f73488c8a2");
    assert_eq!(w.get_private_key(), ONE);
}

#[test]
fn invalid_private_keys_are_refused() {
    assert_eq!(Wallet::from_private_key("xyz").unwrap_err(), "کلید خصوصی is invalid");
    let zero = "00".repeat(32);
    assert!(Wallet::from_private_key(&zero).is_err());
    let order = "fffffffffffffffffffffffffffffffebaaedce6af48a03bbfd25e8cd0364141";
    assert!(Wallet::from_private_key(order).is_err());
    assert!(Wallet::from_private_key("01").is_err());
}

#[test]
fn signatures_are_deterministic_and_bound_to_data() {
    let w = Wallet::from_private_key(ONE).unwrap();
    let s1 = w.sign_data("hello").unwrap();
    let s2 = w.sign_data("hello").unwrap();
    assert_eq!(s1, s2);
    assert_eq!(s1.len(), 128);
    assert!(Wallet::verify_signature("hello", &s1, &w.get_public_key()));
    assert!(!Wallet::verify_signature("hellO", &s1, &w.get_public_key()));
    let other = Wallet::new();
    assert!(!Wallet::verify_signature("hello", &s1, &other.get_public_key()));
    assert!(!Wallet::verify_signature("hello", "zz", &w.get_public_key()));
    assert!(!Wallet::verify_signature("hello", &s1, "02"));
}

#[test]
fn seeded_wallet_is_well_formed() {
    let w = Wallet::from_seed("anything").unwrap();
    assert!(w.get_address().starts_with("RC"));
    assert_eq!(w.get_address().len(), 42);
    let again = Wallet::from_private_key(&w.get_private_key()).unwrap();
    assert_eq!(again.get_address(), w.get_address());
}
