//! What the HTTP API answers: requests and responses, and the handlers'
//! logic over the blockchain and the wallet store. Amounts are in units.

use vstd::prelude::*;
use crate::address::{
    address_type_fits, bech32_address_of, decode_all, generated_wallet, multisig_script, multisig_settings_valid,
    p2sh_address_of, stored_wallet_wf, AddressType, Wallet, WalletManager,
};
use crate::blockchain::insufficient_message;
use crate::hexcodec::lemma_hex_roundtrip;
use crate::keys::{is_key_pair_text, public_key_of, public_key_text_of, secret_of_text, signature_text};
use crate::wallet::rc_address_of;
use crate::amount::MAX_SUPPLY;
use crate::blockchain::{reward_at, Blockchain, BlockchainView, HALVING_INTERVAL};
use crate::ledger::balance_in;
use crate::text::{parse_usize, parsed_usize};
use crate::transaction::{opt_text, tx_hash, tx_valid, Transaction};

verus! {

/// Fee of a transfer that names none: 0.001 TEC.
pub const DEFAULT_FEE: i64 = 100_000;

pub struct WalletGenerateRequest {
    pub wallet_type: String,
    pub required: Option<usize>,
    pub total: Option<usize>,
}

pub struct WalletGenerateResponse {
    pub success: bool,
    pub wallet: Option<Wallet>,
    pub error: Option<String>,
}

pub struct TransactionInput {
    pub txid: String,
    pub vout: u32,
    pub script_sig: String,
}

pub struct TransactionOutput {
    pub address: String,
    pub amount: i64,
}

pub struct TransactionRequest {
    pub from_address: String,
    pub to_address: String,
    pub amount: i64,
    pub fee: Option<i64>,
    pub inputs: Vec<TransactionInput>,
    pub outputs: Vec<TransactionOutput>,
}

pub struct TransactionResponse {
    pub success: bool,
    pub txid: Option<String>,
    pub error: Option<String>,
}

pub struct BlockchainInfoResponse {
    pub height: usize,
    pub total_supply: i128,
    pub max_supply: i128,
    pub current_reward: i64,
    pub difficulty: usize,
    pub pending_transactions: usize,
    pub next_halving: u64,
    pub halving_countdown: u64,
}

pub struct MiningStatsResponse {
    pub current_reward: i64,
    pub next_halving_block: u64,
    pub blocks_until_halving: u64,
    pub total_mined: i128,
    pub remaining_supply: i128,
    pub difficulty: usize,
}

pub struct BalanceRequest {
    pub address: String,
}

pub struct BalanceResponse {
    pub address: String,
    pub balance: i64,
    pub confirmed: i64,
    pub unconfirmed: i64,
}

pub open spec fn or_default(v: Option<usize>, d: usize) -> usize {
    match v {
        Some(x) => x,
        None => d,
    }
}

/// The address type that a request names: `bech32`, or `p2sh` with 2-of-3
/// where the counts are missing.
pub open spec fn requested_type(wallet_type: Seq<char>, required: Option<usize>, total: Option<usize>) -> Option<AddressType> {
    if wallet_type == "bech32"@ {
        Some(AddressType::Bech32)
    } else if wallet_type == "p2sh"@ {
        Some(AddressType::P2SH { required: or_default(required, 2), total: or_default(total, 3) })
    } else {
        None
    }
}

/// The wallet store accepts the address type: any multisig counts are valid.
pub open spec fn settings_accepted(t: AddressType) -> bool {
    match t {
        AddressType::P2SH { required, total } => multisig_settings_valid(required, total),
        AddressType::Bech32 => true,
    }
}

/// The first height of the next halving period.
pub open spec fn next_halving_of(height: nat) -> int {
    (height / (HALVING_INTERVAL as nat) + 1) * HALVING_INTERVAL
}

/// The first height of the next halving period.
pub fn next_halving_height(height: u64) -> (h: u64)
    requires
        height <= u64::MAX - HALVING_INTERVAL,
    ensures
        h == next_halving_of(height as nat),
        h > height,
{
    (height / HALVING_INTERVAL + 1) * HALVING_INTERVAL
}

/// The answer to `GET /blockchain/info`.
pub fn get_blockchain_info(blockchain: &Blockchain) -> (r: BlockchainInfoResponse)
    requires
        blockchain@.chain.len() <= u64::MAX - HALVING_INTERVAL,
    ensures
        r.height == blockchain@.chain.len(),
        r.total_supply == blockchain@.supply,
        r.max_supply == MAX_SUPPLY,
        r.current_reward == reward_at(blockchain@.chain.len(), blockchain@.supply, blockchain@.mining_reward as int),
        r.difficulty == blockchain@.difficulty,
        r.pending_transactions == blockchain@.pending.len(),
        r.next_halving == next_halving_of(blockchain@.chain.len()),
        r.halving_countdown == next_halving_of(blockchain@.chain.len()) - blockchain@.chain.len(),
{
    let height = blockchain.get_chain_length();
    let total_supply = blockchain.get_total_supply();
    let current_reward = blockchain.calculate_mining_reward();
    let next_halving = next_halving_height(height as u64);
    let halving_countdown = next_halving.saturating_sub(height as u64);
    BlockchainInfoResponse {
        height,
        total_supply,
        max_supply: MAX_SUPPLY,
        current_reward,
        difficulty: blockchain.get_difficulty(),
        pending_transactions: blockchain.get_pending_transactions_count(),
        next_halving,
        halving_countdown,
    }
}

/// The answer to `GET /mining/stats`.
pub fn get_mining_stats(blockchain: &Blockchain) -> (r: MiningStatsResponse)
    requires
        blockchain@.chain.len() <= u64::MAX - HALVING_INTERVAL,
    ensures
        r.current_reward == reward_at(blockchain@.chain.len(), blockchain@.supply, blockchain@.mining_reward as int),
        r.next_halving_block == next_halving_of(blockchain@.chain.len()),
        r.blocks_until_halving == next_halving_of(blockchain@.chain.len()) - blockchain@.chain.len(),
        r.total_mined == blockchain@.supply,
        r.remaining_supply == MAX_SUPPLY - blockchain@.supply,
        r.difficulty == blockchain@.difficulty,
{
    let height = blockchain.get_chain_length() as u64;
    let next_halving_block = next_halving_height(height);
    let blocks_until_halving = next_halving_block.saturating_sub(height);
    let total_mined = blockchain.get_total_supply();
    let remaining_supply = MAX_SUPPLY - total_mined;
    MiningStatsResponse {
        current_reward: blockchain.calculate_mining_reward(),
        next_halving_block,
        blocks_until_halving,
        total_mined,
        remaining_supply,
        difficulty: blockchain.get_difficulty(),
    }
}

/// The answer to `GET /balance/{address}`: all of the balance is confirmed.
pub fn get_balance(address: String, blockchain: &Blockchain) -> (r: BalanceResponse)
    ensures
        r.address@ == address@,
        r.balance == balance_in(blockchain@.balances, address@),
        r.confirmed == r.balance,
        r.unconfirmed == 0,
{
    let balance = blockchain.get_balance(address.as_str());
    BalanceResponse { address, balance, confirmed: balance, unconfirmed: 0 }
}

/// The address type that a request names, or the error of an unknown type.
pub fn wallet_type_of(request: &WalletGenerateRequest) -> (r: Result<AddressType, String>)
    ensures
        match r {
            Ok(t) => requested_type(request.wallet_type@, request.required, request.total) == Some(t),
            Err(e) => requested_type(request.wallet_type@, request.required, request.total) is None
                && e@ == "نوع کیف پول نامعتبر است"@,
        },
{
    let bech32 = "bech32".to_string();
    let p2sh = "p2sh".to_string();
    if request.wallet_type == bech32 {
        Ok(AddressType::Bech32)
    } else if request.wallet_type == p2sh {
        let required = match request.required {
            Some(r) => r,
            None => 2,
        };
        let total = match request.total {
            Some(t) => t,
            None => 3,
        };
        Ok(AddressType::P2SH { required, total })
    } else {
        Err("نوع کیف پول نامعتبر است".to_string())
    }
}

/// The answer to `POST /wallet/generate`: a wallet of the requested type,
/// generated and stored.
pub fn generate_wallet(request: WalletGenerateRequest, wallet_manager: &mut WalletManager) -> (r: WalletGenerateResponse)
    requires
        requested_type(request.wallet_type@, request.required, request.total) matches Some(t)
            ==> address_type_fits(t),
    ensures
        match requested_type(request.wallet_type@, request.required, request.total) {
            None => !r.success && r.wallet is None && opt_text(r.error) == Some("نوع کیف پول نامعتبر است"@)
                && final(wallet_manager)@ == old(wallet_manager)@,
            Some(t) => (r.success <==> settings_accepted(t)) && if r.success {
                r.wallet matches Some(w) && r.error is None && generated_wallet(w@, t)
                    && final(wallet_manager)@ == old(wallet_manager)@.insert(w@.address, w@)
            } else {
                r.wallet is None && opt_text(r.error) == Some("تنظیمات multisig نامعتبر است"@)
                    && final(wallet_manager)@ == old(wallet_manager)@
            },
        },
{
    let address_type = match wallet_type_of(&request) {
        Ok(t) => t,
        Err(e) => {
            return WalletGenerateResponse { success: false, wallet: None, error: Some(e) };
        },
    };
    match wallet_manager.create_wallet(address_type) {
        Ok(wallet) => WalletGenerateResponse { success: true, wallet: Some(wallet), error: None },
        Err(error) => WalletGenerateResponse { success: false, wallet: None, error: Some(error) },
    }
}

/// A number given in a query, or the default where it is missing or no number.
pub open spec fn query_number(text: Option<Seq<char>>, default: usize) -> usize {
    match text {
        Some(t) => or_default(parsed_usize(t), default),
        None => default,
    }
}

/// A number given in a query, or the default where it is missing or no number.
pub fn number_or(text: &Option<String>, default: usize) -> (n: usize)
    ensures
        n == query_number(opt_text(*text), default),
{
    match text {
        Some(t) => match parse_usize(t.as_str()) {
            Some(n) => n,
            None => default,
        },
        None => default,
    }
}

/// The answer to `GET /wallet/generate?type=..&required=..&total=..`: the type
/// defaults to `bech32`, the counts to 2-of-3.
pub fn generate_wallet_query(
    wallet_type: Option<String>,
    required: Option<String>,
    total: Option<String>,
    wallet_manager: &mut WalletManager,
) -> (r: WalletGenerateResponse)
    requires
        requested_type(
            match opt_text(wallet_type) {
                Some(t) => t,
                None => "bech32"@,
            },
            Some(query_number(opt_text(required), 2)),
            Some(query_number(opt_text(total), 3)),
        ) matches Some(t) ==> address_type_fits(t),
    ensures
        ({
            let t = requested_type(
                match opt_text(wallet_type) {
                    Some(t) => t,
                    None => "bech32"@,
                },
                Some(query_number(opt_text(required), 2)),
                Some(query_number(opt_text(total), 3)),
            );
            match t {
                None => !r.success && r.wallet is None && opt_text(r.error) == Some("نوع کیف پول نامعتبر است"@)
                    && final(wallet_manager)@ == old(wallet_manager)@,
                Some(t) => (r.success <==> settings_accepted(t)) && if r.success {
                    r.wallet matches Some(w) && r.error is None && generated_wallet(w@, t)
                        && final(wallet_manager)@ == old(wallet_manager)@.insert(w@.address, w@)
                } else {
                    r.wallet is None && opt_text(r.error) == Some("تنظیمات multisig نامعتبر است"@)
                        && final(wallet_manager)@ == old(wallet_manager)@
                },
            }
        }),
{
    let required = number_or(&required, 2);
    let total = number_or(&total, 3);
    let wallet_type = match wallet_type {
        Some(t) => t,
        None => "bech32".to_string(),
    };
    let request = WalletGenerateRequest { wallet_type, required: Some(required), total: Some(total) };
    generate_wallet(request, wallet_manager)
}

/// The fee of a request: the one given, or the default.
pub open spec fn fee_of(request: TransactionRequest) -> i64 {
    match request.fee {
        Some(f) => f,
        None => DEFAULT_FEE,
    }
}

/// A multisig address is no single key's address, so one signature cannot
/// spend from it.
proof fn lemma_p2sh_not_key_address(script: Seq<u8>, pk: Seq<u8>)
    ensures
        p2sh_address_of(script) != bech32_address_of(pk),
        p2sh_address_of(script) != rc_address_of(pk),
{
    let a = p2sh_address_of(script);
    assert(a[2] == '3');
    assert(bech32_address_of(pk)[2] == '1');
    assert(rc_address_of(pk)[0] == 'R');
    assert(a[0] == 't');
}

/// The answer to `POST /transaction/send`: a transfer of `amount` with a fee
/// for the miner (0.001 TEC unless given) from a stored wallet, signed with its key and put
/// in the pending pool. A multisig wallet cannot send: one key's signature is
/// not valid for its address. Nor can amount and fee together exceed the
/// largest amount.
pub fn send_transaction(
    request: TransactionRequest,
    blockchain: &mut Blockchain,
    wallet_manager: &WalletManager,
) -> (r: TransactionResponse)
    ensures
        ({
            let from = request.from_address@;
            let fee = fee_of(request);
            let w = wallet_manager@[from];
            let balance = balance_in(old(blockchain)@.balances, from);
            if !wallet_manager@.contains_key(from) {
                !r.success && opt_text(r.error) == Some("کیف پول فرستنده یافت نشد"@)
            } else if request.amount <= 0 {
                !r.success && opt_text(r.error) == Some("مقدار تراکنش باید مثبت باشد"@)
            } else if fee < 0 {
                !r.success && opt_text(r.error) == Some("کارمزد نمی‌تواند منفی باشد"@)
            } else if w.address_type != AddressType::Bech32 || request.amount + fee > i64::MAX {
                !r.success && opt_text(r.error) == Some("تراکنش نامعتبر است"@)
            } else if balance < request.amount + fee {
                !r.success && opt_text(r.error) == Some(insufficient_message(balance, request.amount + fee))
            } else {
                &&& r.success
                &&& r.txid is Some && r.error is None
                &&& final(blockchain)@.pending.len() == old(blockchain)@.pending.len() + 1
                &&& final(blockchain)@ == (BlockchainView {
                    pending: old(blockchain)@.pending.push(final(blockchain)@.pending.last()),
                    ..old(blockchain)@
                })
                &&& final(blockchain)@.pending.last().id == opt_text(r.txid)->0
                &&& final(blockchain)@.pending.last().from_address == from
                &&& final(blockchain)@.pending.last().to_address == request.to_address@
                &&& final(blockchain)@.pending.last().amount == request.amount
                &&& final(blockchain)@.pending.last().fee == fee
                &&& final(blockchain)@.pending.last().signature == signature_text(
                    w.private_keys[0],
                    tx_hash(final(blockchain)@.pending.last()),
                )
                &&& final(blockchain)@.pending.last().public_key == public_key_text_of(w.private_keys[0])
                &&& tx_valid(final(blockchain)@.pending.last())
            }
        }),
        !r.success ==> r.txid is None && r.error is Some && final(blockchain)@ == old(blockchain)@,
{
    let wallet = match wallet_manager.get_wallet(request.from_address.as_str()) {
        Some(w) => w,
        None => {
            return TransactionResponse {
                success: false,
                txid: None,
                error: Some("کیف پول فرستنده یافت نشد".to_string()),
            };
        },
    };
    let ghost from = request.from_address@;
    let ghost w = wallet@;
    let fee = match request.fee {
        Some(f) => f,
        None => DEFAULT_FEE,
    };
    proof {
        assert(stored_wallet_wf(w) && w.address == from);
        match w.address_type {
            AddressType::Bech32 => {
                let sk = secret_of_text(w.private_keys[0])->0;
                lemma_hex_roundtrip(public_key_of(sk));
            },
            AddressType::P2SH { required, total } => {
                assert(is_key_pair_text(w.private_keys[0], w.public_keys[0]));
                let sk = secret_of_text(w.private_keys[0])->0;
                lemma_hex_roundtrip(public_key_of(sk));
                lemma_p2sh_not_key_address(multisig_script(required, decode_all(w.public_keys)->0), public_key_of(sk));
            },
        }
    }
    match Transaction::new_with_fee(request.from_address, request.to_address, request.amount, fee, wallet) {
        Ok(transaction) => {
            let txid = transaction.id.clone();
            match blockchain.add_transaction(transaction) {
                Ok(()) => TransactionResponse { success: true, txid: Some(txid), error: None },
                Err(error) => TransactionResponse { success: false, txid: None, error: Some(error) },
            }
        },
        Err(error) => TransactionResponse { success: false, txid: None, error: Some(error) },
    }
}

} // verus!
