use tencoin::address::{AddressGenerator, AddressType, WalletManager};

#[test]
fn test_bech32_address_generation() {
    let wallet = AddressGenerator::generate_bech32_wallet().unwrap();
    assert!(wallet.address.starts_with("tc1q"));
    assert_eq!(wallet.private_keys.len(), 1);
    assert_eq!(wallet.public_keys.len(), 1);
}

#[test]
fn test_p2sh_address_generation() {
    let wallet = AddressGenerator::generate_p2sh_wallet(2, 3).unwrap();
    assert!(wallet.address.starts_with("tc3"));
    assert_eq!(wallet.private_keys.len(), 3);
    assert_eq!(wallet.public_keys.len(), 3);
    assert!(wallet.script.is_some());
}

#[test]
fn test_address_validation() {
    assert!(AddressGenerator::validate_address("tc1q1234567890abcdef"));
    assert!(AddressGenerator::validate_address("tc31234567890abcdef"));
    assert!(!AddressGenerator::validate_address("invalid_address"));
}

#[test]
fn validation_rejects_bare_prefixes_and_foreign_characters() {
    assert!(!AddressGenerator::validate_address("tc1q"));
    assert!(!AddressGenerator::validate_address("tc3"));
    assert!(!AddressGenerator::validate_address("tc3xyz"));
    assert!(AddressGenerator::validate_address("tc1qqqq"));
    assert!(!AddressGenerator::validate_address("tc3q"));
    assert!(AddressGenerator::validate_address("tc3ABCdef"));
    assert!(!AddressGenerator::validate_address(""));
}

#[test]
fn address_type_by_prefix() {
    assert_eq!(AddressGenerator::get_address_type("tc1qabc"), Some("bech32".to_string()));
    assert_eq!(AddressGenerator::get_address_type("tc3abc"), Some("p2sh".to_string()));
    assert_eq!(AddressGenerator::get_address_type("xyz"), None);
}

#[test]
fn generated_addresses_validate() {
    let w = AddressGenerator::generate_wallet(AddressType::Bech32).unwrap();
    assert!(AddressGenerator::validate_address(&w.address));
    assert_eq!(w.address.len(), 44);
    let w = AddressGenerator::generate_wallet(AddressType::P2SH { required: 2, total: 4 }).unwrap();
    assert!(AddressGenerator::validate_address(&w.address));
    assert_eq!(w.address.len(), 43);
}

#[test]
fn bech32_address_of_known_key() {
    let pk = "0279be667ef9dcbbac55a06295ce870b07029bfcdb2dce28d959f2815b16f81798";
    assert_eq!(
        AddressGenerator::create_bech32_address(pk).unwrap(),
        "tc1q751e76e8199196d454941c45d1b3a323f1433bd6"
    );
    assert_eq!(
        AddressGenerator::create_bech32_address("zz").unwrap_err(),
        "کلید عمومی نامعتبر است"
    );
}

#[test]
fn multisig_settings_are_checked() {
    assert_eq!(
        AddressGenerator::generate_p2sh_wallet(3, 2).unwrap_err(),
        "تنظیمات multisig نامعتبر است"
    );
    assert!(AddressGenerator::generate_p2sh_wallet(0, 2).is_err());
    assert!(AddressGenerator::generate_p2sh_wallet(1, 0).is_err());
}

#[test]
fn multisig_script_layout() {
    let keys = vec!["0a0b".to_string(), "0c".to_string()];
    let script = AddressGenerator::create_multisig_script(1, &keys).unwrap();
    assert_eq!(script, "51020a0b010c52ae");
    let bad = vec!["0g".to_string()];
    assert_eq!(
        AddressGenerator::create_multisig_script(1, &bad).unwrap_err(),
        "کلید عمومی نامعتبر است"
    );
}

#[test]
fn p2sh_script_matches_keys() {
    let w = AddressGenerator::generate_p2sh_wallet(2, 3).unwrap();
    let script = w.script.clone().unwrap();
    assert_eq!(
        script,
        AddressGenerator::create_multisig_script(2, &w.public_keys).unwrap()
    );
    assert!(script.starts_with("5221"));
    assert!(script.ends_with("53ae"));
    assert_eq!(w.address, AddressGenerator::create_p2sh_address(&script).unwrap());
}

#[test]
fn manager_stores_and_signs() {
    let mut m = WalletManager::new();
    let w = m.create_wallet(AddressType::Bech32).unwrap();
    assert_eq!(m.list_wallets().len(), 1);
    assert_eq!(m.get_wallet(&w.address).unwrap().address, w.address);
    assert!(m.get_wallet("tc1qnothere").is_none());
    let sig = m.sign_transaction(&w.address, "data").unwrap();
    assert_eq!(sig.len(), 128);
    assert_eq!(m.sign_transaction("nowhere", "data").unwrap_err(), "کیف پول یافت نشد");
    let bad = m.create_wallet(AddressType::P2SH { required: 5, total: 1 });
    assert!(bad.is_err());
    assert_eq!(m.list_wallets().len(), 1);
}
