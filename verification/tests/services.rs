use tencoin::address::WalletManager;
use tencoin::amount::COIN;
use tencoin::api::{
    generate_wallet, generate_wallet_query, get_balance, get_blockchain_info, get_mining_stats,
    next_halving_height, send_transaction, TransactionRequest, WalletGenerateRequest,
};
use tencoin::blockchain::Blockchain;
use tencoin::mining::{begin_mining, mining_stats, next_step, MinerStep};
use tencoin::network::{handle_message, handshake_message, NetworkMessage};
use tencoin::text::parse_usize;

#[test]
fn halving_schedule_numbers() {
    assert_eq!(next_halving_height(0), 100_000);
    assert_eq!(next_halving_height(99_999), 100_000);
    assert_eq!(next_halving_height(100_000), 200_000);
    let mut bc = Blockchain::new();
    bc.create_genesis_block();
    let info = get_blockchain_info(&bc);
    assert_eq!(info.height, 1);
    assert_eq!(info.next_halving, 100_000);
    assert_eq!(info.halving_countdown, 99_999);
    assert_eq!(info.current_reward, 50 * COIN);
    assert_eq!(info.max_supply, 10_000_000 * COIN as i128);
    let stats = get_mining_stats(&bc);
    assert_eq!(stats.total_mined, 100 * COIN as i128);
    assert_eq!(stats.remaining_supply, 9_999_900 * COIN as i128);
    assert_eq!(stats.blocks_until_halving, 99_999);
    let bal = get_balance("genesis_reward".to_string(), &bc);
    assert_eq!(bal.balance, 100 * COIN);
    assert_eq!(bal.unconfirmed, 0);
}

#[test]
fn wallet_requests() {
    let mut m = WalletManager::new();
    let r = generate_wallet(
        WalletGenerateRequest { wallet_type: "bech32".to_string(), required: None, total: None },
        &mut m,
    );
    assert!(r.success);
    assert!(r.wallet.unwrap().address.starts_with("tc1q"));
    let r = generate_wallet(
        WalletGenerateRequest { wallet_type: "p2sh".to_string(), required: None, total: None },
        &mut m,
    );
    assert_eq!(r.wallet.unwrap().private_keys.len(), 3);
    let r = generate_wallet(
        WalletGenerateRequest { wallet_type: "other".to_string(), required: None, total: None },
        &mut m,
    );
    assert!(!r.success);
    assert_eq!(r.error.unwrap(), "نوع کیف پول نامعتبر است");
    let r = generate_wallet_query(Some("p2sh".to_string()), Some("2".to_string()), Some("4".to_string()), &mut m);
    assert_eq!(r.wallet.unwrap().public_keys.len(), 4);
    let r = generate_wallet_query(None, None, None, &mut m);
    assert!(r.wallet.unwrap().address.starts_with("tc1q"));
    assert_eq!(m.list_wallets().len(), 4);
    let r = generate_wallet_query(Some("p2sh".to_string()), Some("5".to_string()), Some("2".to_string()), &mut m);
    assert!(!r.success);
    assert!(r.wallet.is_none());
    assert_eq!(r.error.unwrap(), "تنظیمات multisig نامعتبر است");
    let r = generate_wallet_query(Some("nope".to_string()), None, None, &mut m);
    assert_eq!(r.error.unwrap(), "نوع کیف پول نامعتبر است");
    assert_eq!(m.list_wallets().len(), 4);
}

#[test]
fn send_requests() {
    let mut bc = Blockchain::from_parts(Vec::new(), 1, Vec::new(), 50 * COIN, Vec::new());
    let mut m = WalletManager::new();
    let r = generate_wallet(
        WalletGenerateRequest { wallet_type: "bech32".to_string(), required: None, total: None },
        &mut m,
    );
    let a = r.wallet.unwrap();
    let request = |amount: i64| TransactionRequest {
        from_address: a.address.clone(),
        to_address: "tc1qbob".to_string(),
        amount,
        fee: None,
        inputs: Vec::new(),
        outputs: Vec::new(),
    };
    let r = send_transaction(request(COIN), &mut bc, &m);
    assert!(!r.success);
    bc.mine_pending_transactions(&a.address).unwrap();
    let r = send_transaction(request(COIN), &mut bc, &m);
    assert!(r.success);
    assert_eq!(r.txid.unwrap().len(), 36);
    assert_eq!(bc.pending()[0].amount, COIN);
    assert_eq!(bc.pending()[0].fee, 100_000);
    let mut unknown = request(COIN);
    unknown.from_address = "tc1qnobody".to_string();
    let r = send_transaction(unknown, &mut bc, &m);
    assert_eq!(r.error.unwrap(), "کیف پول فرستنده یافت نشد");
    let mut with_fee = request(COIN);
    with_fee.fee = Some(7);
    let r = send_transaction(with_fee, &mut bc, &m);
    assert!(r.success);
    assert_eq!(bc.pending()[1].amount, COIN);
    assert_eq!(bc.pending()[1].fee, 7);
    assert!(bc.pending()[1].is_valid());
    let mut negative = request(COIN);
    negative.fee = Some(-1);
    assert_eq!(send_transaction(negative, &mut bc, &m).error.unwrap(), "کارمزد نمی‌تواند منفی باشد");
    assert_eq!(send_transaction(request(0), &mut bc, &m).error.unwrap(), "مقدار تراکنش باید مثبت باشد");
    let r = generate_wallet(
        WalletGenerateRequest { wallet_type: "p2sh".to_string(), required: None, total: None },
        &mut m,
    );
    let multisig = r.wallet.unwrap();
    let mut from_multisig = request(COIN);
    from_multisig.from_address = multisig.address.clone();
    let r = send_transaction(from_multisig, &mut bc, &m);
    assert_eq!(r.error.unwrap(), "تراکنش نامعتبر است");
    assert_eq!(bc.get_pending_transactions_count(), 2);
}

#[test]
fn numbers_parse_like_std() {
    assert_eq!(parse_usize("42"), Some(42));
    assert_eq!(parse_usize("+7"), Some(7));
    assert_eq!(parse_usize(""), None);
    assert_eq!(parse_usize("+"), None);
    assert_eq!(parse_usize("-1"), None);
    assert_eq!(parse_usize("1a"), None);
    assert_eq!(parse_usize("99999999999999999999999"), None);
    assert_eq!(parse_usize("007"), Some(7));
}

#[test]
fn miner_decisions() {
    assert!(begin_mining(false).is_ok());
    assert_eq!(begin_mining(true).unwrap_err(), "mining در حال حاضر active است");
    assert_eq!(next_step(false, true), MinerStep::Stop);
    assert_eq!(next_step(true, true), MinerStep::Mine);
    assert_eq!(next_step(true, false), MinerStep::Wait);
    let st = mining_stats(&vec![true, false, true], 4, 2);
    assert_eq!(st.total_miners, 3);
    assert_eq!(st.active_miners, 2);
    assert_eq!(st.total_blocks, 4);
}

#[test]
fn node_answers_messages() {
    let mut bc = Blockchain::new();
    let peers = vec!["10.0.0.1:8334".to_string()];
    let out = handle_message(NetworkMessage::Ping, "1.2.3.4:1", 5, "me", &peers, &mut bc);
    assert!(matches!(out.reply, Some(NetworkMessage::Pong)));
    let out = handle_message(handshake_message("peer", 3), "1.2.3.4:1", 5, "me", &peers, &mut bc);
    let p = out.new_peer.unwrap();
    assert_eq!(p.id, "peer");
    assert_eq!(p.blockchain_height, 3);
    assert!(matches!(out.reply, Some(NetworkMessage::HandshakeResponse { accepted: true, .. })));
    let out = handle_message(NetworkMessage::GetPeers, "x", 5, "me", &peers, &mut bc);
    match out.reply {
        Some(NetworkMessage::PeersResponse { peers: got }) => assert_eq!(got, peers),
        _ => panic!("expected peers"),
    }
    let out = handle_message(NetworkMessage::Pong, "x", 5, "me", &peers, &mut bc);
    assert!(out.reply.is_none());
}
