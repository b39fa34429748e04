use tencoin::menu::{amount_sendable, menu_choice, pick_receiver, pick_wallet, MenuChoice};
use tencoin::address::{AddressGenerator, AddressType, WalletManager};
use tencoin::amount::{amount_string, COIN};
use tencoin::block::Block;
use tencoin::blockchain::Blockchain;
use tencoin::transaction::Transaction;

fn quick_chain() -> Blockchain {
    Blockchain::from_parts(Vec::new(), 1, Vec::new(), 50 * COIN, Vec::new())
}

#[test]
fn new_chain_defaults() {
    let bc = Blockchain::new();
    assert_eq!(bc.get_chain_length(), 0);
    assert_eq!(bc.get_difficulty(), 5);
    assert_eq!(bc.get_mining_reward(), 50 * COIN);
    assert_eq!(bc.get_total_supply(), 0);
    assert!(bc.is_chain_valid());
    assert!(bc.get_latest_block().is_none());
    assert_eq!(bc.calculate_mining_reward(), 50 * COIN);
    assert_eq!(bc.check_halving(), None);
}

#[test]
fn genesis_block_issues_one_hundred() {
    let mut bc = Blockchain::new();
    bc.create_genesis_block();
    assert_eq!(bc.get_chain_length(), 1);
    assert_eq!(bc.get_balance("genesis_reward"), 100 * COIN);
    assert_eq!(bc.get_total_supply(), 100 * COIN as i128);
    assert!(bc.is_chain_valid());
    let g = bc.get_latest_block().unwrap();
    assert!(g.hash.starts_with("00"));
    assert_eq!(g.index, 0);
    assert_eq!(g.previous_hash, "");
    assert!(g.is_valid(""));
    assert_eq!(g.merkle_root, g.transactions[0].calculate_hash());
    bc.create_genesis_block();
    assert_eq!(bc.get_chain_length(), 1);
}

#[test]
fn mining_rewards_the_miner_and_links_blocks() {
    let mut bc = quick_chain();
    bc.create_genesis_block();
    assert_eq!(
        bc.mine_pending_transactions("tc1qminer").map(|_| ()),
        Ok(())
    );
    assert_eq!(bc.get_chain_length(), 2);
    assert_eq!(bc.get_balance("tc1qminer"), 50 * COIN);
    assert_eq!(bc.get_total_supply(), 150 * COIN as i128);
    assert!(bc.is_chain_valid());
    let blocks = bc.blocks();
    assert_eq!(blocks[1].previous_hash, blocks[0].hash);
    assert_eq!(blocks[1].index, 1);
    assert!(blocks[1].hash.starts_with('0'));
    let info = bc.get_chain_info();
    assert_eq!(info.total_blocks, 2);
    assert_eq!(info.total_transactions, 2);
    assert_eq!(info.total_supply, 150 * COIN as i128);
    assert_eq!(info.pending_transactions, 0);
}

#[test]
fn transfers_keep_supply_and_move_balances() {
    let mut bc = quick_chain();
    let mut m = WalletManager::new();
    let a = m.create_wallet(AddressType::Bech32).unwrap();
    let b = m.create_wallet(AddressType::Bech32).unwrap();
    bc.mine_pending_transactions(&a.address).unwrap();
    assert_eq!(bc.get_balance(&a.address), 50 * COIN);
    let t = Transaction::new_with_fee(a.address.clone(), b.address.clone(), 10 * COIN, 100_000, &a).unwrap();
    assert_eq!(t.amount, 10 * COIN);
    assert_eq!(t.fee, 100_000);
    assert_eq!(t.signature.as_ref().unwrap().len(), 128);
    assert_eq!(t.public_key.as_ref().unwrap(), &a.public_keys[0]);
    assert!(t.is_valid());
    bc.add_transaction(t).unwrap();
    assert_eq!(bc.get_pending_transactions_count(), 1);
    let supply = bc.get_total_supply();
    bc.mine_pending_transactions(&b.address).unwrap();
    assert_eq!(bc.get_pending_transactions_count(), 0);
    assert_eq!(bc.get_balance(&a.address), 40 * COIN - 100_000);
    assert_eq!(bc.get_balance(&b.address), 60 * COIN + 100_000);
    assert_eq!(bc.get_total_supply(), supply + 50 * COIN as i128);
    assert!(bc.is_chain_valid());
    assert_eq!(bc.get_transactions_for_address(&a.address).len(), 2);
    assert_eq!(bc.get_transactions_for_address(&b.address).len(), 2);
    assert_eq!(bc.get_transactions_for_address("nobody").len(), 0);
}

#[test]
fn overdraft_is_refused_with_balances_in_message() {
    let mut bc = quick_chain();
    let mut m = WalletManager::new();
    let a = m.create_wallet(AddressType::Bech32).unwrap();
    let t = Transaction::new(a.address.clone(), "tc1qbob".to_string(), COIN, &a).unwrap();
    assert!(t.is_valid());
    assert_eq!(
        bc.add_transaction(t).unwrap_err(),
        "موجودی ناکافی! موجودی فعلی: 0, مقدار درخواستی: 1"
    );
    assert_eq!(bc.get_pending_transactions_count(), 0);
}

#[test]
fn unsigned_transfers_are_invalid() {
    let mut bc = quick_chain();
    let t = Transaction {
        id: "x".to_string(),
        from_address: "tc1qa".to_string(),
        to_address: "tc1qb".to_string(),
        amount: 1,
        fee: 0,
        timestamp: 0,
        signature: None,
        public_key: None,
    };
    assert!(!t.is_valid());
    assert_eq!(bc.add_transaction(t).unwrap_err(), "تراکنش نامعتبر است");
}

#[test]
fn transaction_construction_errors() {
    let a = AddressGenerator::generate_bech32_wallet().unwrap();
    assert_eq!(
        Transaction::new(a.address.clone(), "x".to_string(), 0, &a).unwrap_err(),
        "مقدار تراکنش باید مثبت باشد"
    );
    assert_eq!(
        Transaction::new_with_fee(a.address.clone(), "x".to_string(), 5, -1, &a).unwrap_err(),
        "کارمزد نمی‌تواند منفی باشد"
    );
    assert_eq!(
        Transaction::new("other".to_string(), "x".to_string(), 5, &a).unwrap_err(),
        "شما نمی‌توانید تراکنش‌های دیگران را امضا کنید"
    );
}

#[test]
fn signed_transaction_carries_an_ecdsa_signature() {
    let a = AddressGenerator::generate_bech32_wallet().unwrap();
    let t = Transaction::new(a.address.clone(), "tc1qb".to_string(), 3, &a).unwrap();
    let sig = t.signature.clone().unwrap();
    assert_eq!(sig.len(), 128);
    assert!(tencoin::wallet::Wallet::verify_signature(&t.calculate_hash(), &sig, &a.public_keys[0]));
}

#[test]
fn nothing_to_mine_after_the_last_halving() {
    let mut blocks = Vec::new();
    for _ in 0..3 {
        blocks.push(Block::new(0, Vec::new(), String::new()));
    }
    let mut bc = Blockchain::from_parts(blocks, 1, Vec::new(), 0, Vec::new());
    assert_eq!(bc.calculate_mining_reward(), 0);
    assert_eq!(
        bc.mine_pending_transactions("m").unwrap_err(),
        "هیچ تراکنش برای استخراج وجود ندارد"
    );
    assert!(!bc.is_chain_valid());
}

#[test]
fn reward_is_capped_by_supply() {
    let bc = Blockchain::from_parts(
        Vec::new(),
        1,
        Vec::new(),
        50 * COIN,
        vec![("x".to_string(), 9_999_990 * COIN)],
    );
    assert_eq!(bc.calculate_mining_reward(), 10 * COIN);
    let full = Blockchain::from_parts(
        Vec::new(),
        1,
        Vec::new(),
        50 * COIN,
        vec![("x".to_string(), 10_000_000 * COIN)],
    );
    assert_eq!(full.calculate_mining_reward(), 0);
}

#[test]
fn merkle_root_pairs_hashes() {
    let t1 = Transaction::mining_reward("a".to_string(), 1);
    let t2 = Transaction::mining_reward("b".to_string(), 2);
    let t3 = Transaction::mining_reward("c".to_string(), 3);
    assert_eq!(Block::calculate_merkle_root(&[]), "");
    assert_eq!(Block::calculate_merkle_root(&[t1.clone()]), t1.calculate_hash());
    let h1 = t1.calculate_hash();
    let h2 = t2.calculate_hash();
    let h3 = t3.calculate_hash();
    let h12 = tencoin::digest::sha256_hex(&format!("{}{}", h1, h2));
    let h33 = tencoin::digest::sha256_hex(&format!("{}{}", h3, h3));
    let root = tencoin::digest::sha256_hex(&format!("{}{}", h12, h33));
    assert_eq!(Block::calculate_merkle_root(&[t1, t2, t3]), root);
}

#[test]
fn mining_finds_leading_zeros() {
    let mut b = Block::new(7, vec![Transaction::mining_reward("m".to_string(), 5)], "prev".to_string());
    assert!(b.mine_block(2));
    assert!(b.hash.starts_with("00"));
    assert_eq!(b.hash, b.calculate_hash());
    assert!(b.is_valid("prev"));
    assert!(!b.is_valid("other"));
    assert_eq!(b.get_transaction_count(), 1);
    assert_eq!(b.get_total_amount(), 5);
}

#[test]
fn amounts_are_written_in_tec() {
    assert_eq!(amount_string(100 * COIN), "100");
    assert_eq!(amount_string(10 * COIN + 100_000), "10.001");
    assert_eq!(amount_string(-COIN / 2), "-0.5");
    assert_eq!(amount_string(1), "0.00000001");
    assert_eq!(amount_string(0), "0");
}

#[test]
fn transaction_hash_covers_its_fields() {
    let t = Transaction {
        id: "id1".to_string(),
        from_address: "a".to_string(),
        to_address: "b".to_string(),
        amount: 10 * COIN + 100_000,
        fee: 0,
        timestamp: 0,
        signature: None,
        public_key: None,
    };
    assert_eq!(
        t.calculate_hash(),
        tencoin::digest::sha256_hex("ab10.0011970-01-01 00:00:00 UTCid1")
    );
    assert_eq!(
        tencoin::digest::sha256_hex("abc"),
        "ba7816bf8f01cfea414140de5dae2223b00361a396177a9cb410ff61f20015ad"
    );
}

#[test]
fn block_hash_covers_transactions_json() {
    let t = Transaction {
        id: "i\"d".to_string(),
        from_address: String::new(),
        to_address: "b".to_string(),
        amount: 2 * COIN,
        fee: 0,
        timestamp: 1_500_000_000,
        signature: None,
        public_key: None,
    };
    let b = Block {
        index: 3,
        timestamp: 0,
        transactions: vec![t],
        previous_hash: "p".to_string(),
        hash: String::new(),
        nonce: 9,
        merkle_root: "m".to_string(),
    };
    let json = "[{\"id\":\"i\\\"d\",\"from_address\":\"\",\"to_address\":\"b\",\"amount\":2.0,\"fee\":0.0,\"timestamp\":\"1970-01-01T00:00:01.500Z\",\"signature\":null,\"public_key\":null}]";
    let pre = format!("31970-01-01 00:00:00 UTCpm9{}", json);
    assert_eq!(b.calculate_hash(), tencoin::digest::sha256_hex(&pre));
}

#[test]
fn system_transfers_from_outside_are_refused() {
    let mut bc = Blockchain::new();
    let t = Transaction {
        id: "m".to_string(),
        from_address: String::new(),
        to_address: "evil".to_string(),
        amount: 1_000_000_000 * COIN,
        fee: 0,
        timestamp: 0,
        signature: None,
        public_key: None,
    };
    assert_eq!(bc.add_transaction(t).unwrap_err(), "system transactions are not accepted");
    assert_eq!(bc.get_pending_transactions_count(), 0);
}

#[test]
fn forged_and_foreign_signatures_are_invalid() {
    let a = AddressGenerator::generate_bech32_wallet().unwrap();
    let b = AddressGenerator::generate_bech32_wallet().unwrap();
    let mut t = Transaction {
        id: "t1".to_string(),
        from_address: a.address.clone(),
        to_address: "tc1qbbbb".to_string(),
        amount: COIN,
        fee: 0,
        timestamp: 0,
        signature: Some("x".to_string()),
        public_key: Some(a.public_keys[0].clone()),
    };
    assert!(!t.is_valid());
    t.signature = None;
    t.public_key = None;
    t.sign_transaction(&a).unwrap();
    assert!(t.is_valid());
    let mut other = t.clone();
    other.public_key = Some(b.public_keys[0].clone());
    assert!(!other.is_valid());
    let mut moved = t.clone();
    moved.amount = 2 * COIN;
    assert!(!moved.is_valid());
    let mut stolen = Transaction::new(b.address.clone(), "tc1qc".to_string(), 5, &b).unwrap();
    stolen.from_address = a.address.clone();
    assert!(!stolen.is_valid());
}

#[test]
fn mining_errors_are_told_apart() {
    let a = AddressGenerator::generate_bech32_wallet().unwrap();
    let bad = Transaction {
        id: "x".to_string(),
        from_address: a.address.clone(),
        to_address: "tc1qb".to_string(),
        amount: 1,
        fee: 0,
        timestamp: 0,
        signature: Some("00".to_string()),
        public_key: None,
    };
    let mut bc = Blockchain::from_parts(Vec::new(), 0, vec![bad], 50 * COIN, Vec::new());
    assert_eq!(bc.mine_pending_transactions("m").unwrap_err(), "بلاک استخراج شده نامعتبر است");
    assert_eq!(bc.get_pending_transactions_count(), 1);
    let to_full = Transaction::new(a.address.clone(), "m".to_string(), 1, &a).unwrap();
    let mut full = Blockchain::from_parts(
        Vec::new(),
        0,
        vec![to_full],
        50 * COIN,
        vec![("m".to_string(), i64::MAX), (a.address.clone(), COIN)],
    );
    assert_eq!(full.mine_pending_transactions("miner").unwrap_err(), "balance overflow");
    assert_eq!(full.get_balance("m"), i64::MAX);
    assert_eq!(full.get_pending_transactions_count(), 1);
    let mut easy = Blockchain::from_parts(Vec::new(), 0, Vec::new(), 50 * COIN, Vec::new());
    easy.mine_pending_transactions("miner").unwrap();
    assert_eq!(easy.get_balance("miner"), 50 * COIN);
    assert_eq!(easy.get_total_supply(), 50 * COIN as i128);
    assert_eq!(easy.get_pending_transactions_count(), 0);
    assert!(easy.is_chain_valid());
}

fn json_amount(amount: i64) -> String {
    let t = Transaction {
        id: "i".to_string(),
        from_address: String::new(),
        to_address: "b".to_string(),
        amount,
        fee: 0,
        timestamp: 0,
        signature: None,
        public_key: None,
    };
    let mut out = String::new();
    t.push_json(&mut out);
    let start = out.find("\"amount\":").unwrap() + 9;
    let end = out.find(",\"fee\"").unwrap();
    out[start..end].to_string()
}

#[test]
fn json_amounts_are_written_as_serde_json_writes_them() {
    assert_eq!(json_amount(1), "1e-8");
    assert_eq!(json_amount(10), "1e-7");
    assert_eq!(json_amount(12), "1.2e-7");
    assert_eq!(json_amount(100), "1e-6");
    assert_eq!(json_amount(120), "1.2e-6");
    assert_eq!(json_amount(123), "1.23e-6");
    assert_eq!(json_amount(999), "9.99e-6");
    assert_eq!(json_amount(-5), "-5e-8");
    assert_eq!(json_amount(1000), "0.00001");
    assert_eq!(json_amount(0), "0.0");
    assert_eq!(json_amount(2 * COIN), "2.0");
    assert_eq!(json_amount(10 * COIN + 100_000), "10.001");
    for units in [1i64, 12, 123, 999, 1000, 100_000, 2 * COIN] {
        assert_eq!(json_amount(units), serde_json::to_string(&(units as f64 / COIN as f64)).unwrap());
    }
}

#[test]
fn fees_go_to_the_miner() {
    let mut bc = quick_chain();
    let mut m = WalletManager::new();
    let a = m.create_wallet(AddressType::Bech32).unwrap();
    bc.mine_pending_transactions(&a.address).unwrap();
    let t = Transaction::new_with_fee(a.address.clone(), "tc1qbob".to_string(), COIN, 5_000, &a).unwrap();
    bc.add_transaction(t).unwrap();
    let supply = bc.get_total_supply();
    bc.mine_pending_transactions("tc1qminer").unwrap();
    assert_eq!(bc.get_balance(&a.address), 49 * COIN - 5_000);
    assert_eq!(bc.get_balance("tc1qbob"), COIN);
    assert_eq!(bc.get_balance("tc1qminer"), 50 * COIN + 5_000);
    assert_eq!(bc.get_total_supply(), supply + 50 * COIN as i128);
    let last = bc.get_latest_block().unwrap();
    assert_eq!(last.transactions[0].amount, 50 * COIN + 5_000);
    let too_much = Transaction::new_with_fee(a.address.clone(), "tc1qbob".to_string(), 49 * COIN, 1, &a).unwrap();
    assert_eq!(
        bc.add_transaction(too_much).unwrap_err(),
        "موجودی ناکافی! موجودی فعلی: 48.99995, مقدار درخواستی: 49.00000001"
    );
}

#[test]
fn empty_signature_is_invalid() {
    let a = AddressGenerator::generate_bech32_wallet().unwrap();
    let t = Transaction {
        id: "t".to_string(),
        from_address: a.address.clone(),
        to_address: "tc1qb".to_string(),
        amount: 1,
        fee: 0,
        timestamp: 0,
        signature: Some(String::new()),
        public_key: Some(a.public_keys[0].clone()),
    };
    assert!(!t.is_valid());
}

#[test]
fn menu_choices() {
    assert_eq!(menu_choice("4"), MenuChoice::CreateTransaction);
    assert_eq!(menu_choice("0"), MenuChoice::Exit);
    assert_eq!(menu_choice("10"), MenuChoice::Invalid);
    assert_eq!(pick_wallet(3, 3), Some(2));
    assert_eq!(pick_wallet(3, 0), None);
    assert_eq!(pick_receiver(3, 1, 2), None);
    assert_eq!(pick_receiver(3, 1, 1), Some(0));
    assert!(amount_sendable(5, 5));
    assert!(!amount_sendable(0, 5));
    assert!(!amount_sendable(6, 5));
}
