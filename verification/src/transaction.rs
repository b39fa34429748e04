//! Transfers of TEC between addresses.

use vstd::prelude::*;
use vstd::string::StrSliceExecFns;
use crate::address::{bech32_address_of, AddressGenerator, Wallet as AddressWallet};
use crate::amount::{amount_json, amount_text, push_amount, push_amount_json, COIN};
use crate::clock::{format_rfc3339, format_utc, new_uuid, now, utc_display_text, utc_rfc3339_text};
use crate::digest::{sha256_hex, text_hash};
use crate::json::{json_string, push_json_string};
use crate::hexcodec::{hex_decode, hex_decoded};
use crate::keys::{
    public_key_text, public_key_text_of, secret_of_text, sign_text, signature_text, signature_text_verifies,
    verify_text,
};
use crate::wallet::{rc_address_of, Wallet as KeyWallet};
use crate::text::same_text;

verus! {

/// A transfer of `amount` units from one address to another, paying `fee`
/// units to the miner of its block. An empty sender marks a transfer that the
/// system issues (genesis and mining rewards). A signed transfer carries the
/// signer's public key (hex), which must be the key of the sender's address.
#[derive(Debug, Clone)]
pub struct Transaction {
    pub id: String,
    pub from_address: String,
    pub to_address: String,
    pub amount: i64,
    pub fee: i64,
    pub timestamp: i64,
    pub signature: Option<String>,
    pub public_key: Option<String>,
}

/// What a transaction holds.
pub struct TransactionView {
    pub id: Seq<char>,
    pub from_address: Seq<char>,
    pub to_address: Seq<char>,
    pub amount: i64,
    pub fee: i64,
    pub timestamp: i64,
    pub signature: Option<Seq<char>>,
    pub public_key: Option<Seq<char>>,
}

pub open spec fn opt_text(s: Option<String>) -> Option<Seq<char>> {
    match s {
        Some(t) => Some(t@),
        None => None,
    }
}

impl View for Transaction {
    type V = TransactionView;

    open spec fn view(&self) -> TransactionView {
        TransactionView {
            id: self.id@,
            from_address: self.from_address@,
            to_address: self.to_address@,
            amount: self.amount,
            fee: self.fee,
            timestamp: self.timestamp,
            signature: opt_text(self.signature),
            public_key: opt_text(self.public_key),
        }
    }
}

/// The transaction with its signature replaced.
pub open spec fn with_signature(t: TransactionView, s: Option<Seq<char>>) -> TransactionView {
    TransactionView { signature: s, ..t }
}

/// What is hashed of a transaction: sender, receiver, amount, time, id and,
/// when there is one, the fee (after a `+`).
pub open spec fn tx_hash_preimage(t: TransactionView) -> Seq<char> {
    t.from_address + t.to_address + amount_text(t.amount as int) + utc_display_text(t.timestamp) + t.id + if t.fee
        == 0 {
        Seq::empty()
    } else {
        seq!['+'] + amount_text(t.fee as int)
    }
}

/// The hash of a transaction (hex of SHA-256); it does not cover the signature.
pub open spec fn tx_hash(t: TransactionView) -> Seq<char> {
    text_hash(tx_hash_preimage(t))
}

/// The transaction signed: the signature of its hash with the private key,
/// and the key's public key.
pub open spec fn signed_with(t: TransactionView, private_key: Seq<char>) -> TransactionView {
    TransactionView {
        signature: signature_text(private_key, tx_hash(t)),
        public_key: public_key_text_of(private_key),
        ..t
    }
}

/// The public key (hex) is that of the address: the address is its `tc1q`
/// or its `RC` address.
pub open spec fn key_owns_address(public_key: Seq<char>, address: Seq<char>) -> bool {
    match hex_decoded(public_key) {
        Some(pk) => address == bech32_address_of(pk) || address == rc_address_of(pk),
        None => false,
    }
}

/// A transaction is valid when the system issues it, or when its signature is
/// an ECDSA signature of its hash that verifies under the public key it
/// carries, and that key is the sender's.
pub open spec fn tx_valid(t: TransactionView) -> bool {
    t.from_address.len() == 0 || {
        &&& 0 <= t.fee && t.amount + t.fee <= i64::MAX
        &&& t.signature matches Some(s)
        &&& t.public_key matches Some(k)
        &&& signature_text_verifies(tx_hash(t), s, k)
        &&& key_owns_address(k, t.from_address)
    }
}

/// A JSON string, or `null`.
pub open spec fn opt_json(o: Option<Seq<char>>) -> Seq<char> {
    match o {
        Some(s) => json_string(s),
        None => "null"@,
    }
}

/// The JSON fields of a transaction up to its time.
pub open spec fn tx_json_head(t: TransactionView) -> Seq<char> {
    "{\"id\":"@ + json_string(t.id) + ",\"from_address\":"@ + json_string(t.from_address)
        + ",\"to_address\":"@ + json_string(t.to_address) + ",\"amount\":"@ + amount_json(t.amount as int)
        + ",\"fee\":"@ + amount_json(t.fee as int)
        + ",\"timestamp\":"@ + json_string(utc_rfc3339_text(t.timestamp))
}

/// The JSON object of a transaction, fields in declaration order.
pub open spec fn tx_json(t: TransactionView) -> Seq<char> {
    tx_json_head(t) + ",\"signature\":"@ + opt_json(t.signature) + ",\"public_key\":"@ + opt_json(t.public_key)
        + "}"@
}

/// Appends a JSON string, or `null`.
fn push_opt_json(out: &mut String, o: &Option<String>)
    ensures
        final(out)@ == old(out)@ + opt_json(opt_text(*o)),
{
    match o {
        Some(s) => push_json_string(out, s.as_str()),
        None => out.append("null"),
    }
}

/// The JSON objects of transactions, separated by commas.
pub open spec fn txs_items(ts: Seq<TransactionView>) -> Seq<char>
    decreases ts.len(),
{
    if ts.len() == 0 {
        Seq::empty()
    } else if ts.len() == 1 {
        tx_json(ts[0])
    } else {
        txs_items(ts.drop_last()) + ","@ + tx_json(ts.last())
    }
}

/// The JSON array of transactions.
pub open spec fn txs_json(ts: Seq<TransactionView>) -> Seq<char> {
    "["@ + txs_items(ts) + "]"@
}

/// Views of a list of transactions.
pub open spec fn tx_views(ts: Seq<Transaction>) -> Seq<TransactionView> {
    ts.map_values(|t: Transaction| t@)
}

/// The simple signature: `sig_` and the first 16 characters of the hash.
pub open spec fn simple_signature(t: TransactionView) -> Seq<char> {
    "sig_"@ + tx_hash(t).take(16)
}

/// Appends the JSON array of transactions.
pub fn push_transactions_json(out: &mut String, ts: &[Transaction])
    ensures
        final(out)@ == old(out)@ + txs_json(tx_views(ts@)),
{
    let ghost o = out@;
    out.append("[");
    let mut i: usize = 0;
    while i < ts.len()
        invariant
            i <= ts@.len(),
            out@ == o + "["@ + txs_items(tx_views(ts@).take(i as int)),
        decreases ts@.len() - i,
    {
        let ghost before = out@;
        if i > 0 {
            out.append(",");
        }
        ts[i].push_json(out);
        proof {
            let p = tx_views(ts@).take(i + 1);
            assert(p.drop_last() =~= tx_views(ts@).take(i as int));
            assert(p.last() == ts@[i as int]@);
            if i == 0 {
                assert(p.len() == 1);
                assert(out@ =~= o + "["@ + txs_items(p));
            } else {
                assert(out@ =~= o + "["@ + txs_items(p));
            }
        }
        i = i + 1;
    }
    out.append("]");
    proof {
        assert(tx_views(ts@).take(ts@.len() as int) =~= tx_views(ts@));
        assert(out@ =~= o + txs_json(tx_views(ts@)));
    }
}

/// Whether the public key (hex) is that of the address: its `tc1q` or its
/// `RC` address.
pub fn key_owns(public_key: &str, address: &str) -> (ok: bool)
    ensures
        ok == key_owns_address(public_key@, address@),
{
    let bytes = match hex_decode(public_key) {
        Some(b) => b,
        None => {
            return false;
        },
    };
    let rc = KeyWallet::generate_address(bytes.as_slice());
    if same_text(rc.as_str(), address) {
        return true;
    }
    match AddressGenerator::create_bech32_address(public_key) {
        Ok(a) => same_text(a.as_str(), address),
        Err(_) => false,
    }
}

impl Transaction {
    /// A copy of the transaction.
    pub fn duplicate(&self) -> (t: Transaction)
        ensures
            t@ == self@,
    {
        Transaction {
            id: self.id.clone(),
            from_address: self.from_address.clone(),
            to_address: self.to_address.clone(),
            amount: self.amount,
            fee: self.fee,
            timestamp: self.timestamp,
            signature: match &self.signature {
                Some(s) => Some(s.clone()),
                None => None,
            },
            public_key: match &self.public_key {
                Some(k) => Some(k.clone()),
                None => None,
            },
        }
    }

    /// A transfer from the wallet's address, signed with its first key.
    /// Fails when the amount is not positive or the wallet cannot sign.
    pub fn new(from_address: String, to_address: String, amount: i64, wallet: &AddressWallet) -> (r: Result<Self, String>)
        ensures
            match r {
                Ok(t) => {
                    &&& amount > 0
                    &&& t@.from_address == from_address@
                    &&& t@.to_address == to_address@
                    &&& t@.amount == amount
                    &&& t@.fee == 0
                    &&& t@.id.len() == 36
                    &&& from_address@ == wallet@.address
                    &&& wallet@.private_keys.len() > 0
                    &&& t@.signature == signature_text(wallet@.private_keys[0], tx_hash(t@))
                    &&& t@.public_key == public_key_text_of(wallet@.private_keys[0])
                    &&& signature_text_verifies(tx_hash(t@), t@.signature->0, t@.public_key->0)
                    &&& (tx_valid(t@) <==> (from_address@.len() == 0 || key_owns_address(
                        t@.public_key->0,
                        from_address@,
                    )))
                },
                Err(e) => if amount <= 0 {
                    e@ == "مقدار تراکنش باید مثبت باشد"@
                } else if from_address@ != wallet@.address {
                    e@ == "شما نمی‌توانید تراکنش‌های دیگران را امضا کنید"@
                } else if wallet@.private_keys.len() == 0 {
                    e@ == "کلید خصوصی یافت نشد"@
                } else {
                    secret_of_text(wallet@.private_keys[0]) is None && e@ == "کلید خصوصی نامعتبر است"@
                },
            },
    {
        if amount <= 0 {
            return Err("مقدار تراکنش باید مثبت باشد".to_string());
        }
        let mut transaction = Transaction {
            id: new_uuid(),
            from_address,
            to_address,
            amount,
            fee: 0,
            timestamp: now(),
            signature: None,
            public_key: None,
        };
        let ghost unsigned = transaction@;
        transaction.sign_transaction(wallet)?;
        proof {
            assert(tx_hash_preimage(transaction@) =~= tx_hash_preimage(unsigned));
        }
        Ok(transaction)
    }

    /// A transfer of `amount` with `fee` for the miner from the wallet's
    /// address, signed with its first key. Fails when the amount is not positive, the fee negative, or
    /// the wallet is not the sender's or cannot sign.
    pub fn new_with_fee(
        from_address: String,
        to_address: String,
        amount: i64,
        fee: i64,
        wallet: &AddressWallet,
    ) -> (r: Result<Self, String>)
        ensures
            match r {
                Ok(t) => {
                    &&& amount > 0 && fee >= 0
                    &&& t@.from_address == from_address@
                    &&& t@.to_address == to_address@
                    &&& t@.amount == amount
                    &&& t@.fee == fee
                    &&& t@.id.len() == 36
                    &&& from_address@ == wallet@.address
                    &&& wallet@.private_keys.len() > 0
                    &&& t@.signature == signature_text(wallet@.private_keys[0], tx_hash(t@))
                    &&& t@.public_key == public_key_text_of(wallet@.private_keys[0])
                    &&& signature_text_verifies(tx_hash(t@), t@.signature->0, t@.public_key->0)
                    &&& (tx_valid(t@) <==> (from_address@.len() == 0 || amount + fee <= i64::MAX && key_owns_address(
                        t@.public_key->0,
                        from_address@,
                    )))
                },
                Err(e) => if amount <= 0 {
                    e@ == "مقدار تراکنش باید مثبت باشد"@
                } else if fee < 0 {
                    e@ == "کارمزد نمی‌تواند منفی باشد"@
                } else if from_address@ != wallet@.address {
                    e@ == "شما نمی‌توانید تراکنش‌های دیگران را امضا کنید"@
                } else if wallet@.private_keys.len() == 0 {
                    e@ == "کلید خصوصی یافت نشد"@
                } else {
                    secret_of_text(wallet@.private_keys[0]) is None && e@ == "کلید خصوصی نامعتبر است"@
                },
            },
    {
        if amount <= 0 {
            return Err("مقدار تراکنش باید مثبت باشد".to_string());
        }
        if fee < 0 {
            return Err("کارمزد نمی‌تواند منفی باشد".to_string());
        }
        let mut transaction = Transaction {
            id: new_uuid(),
            from_address,
            to_address,
            amount,
            fee,
            timestamp: now(),
            signature: None,
            public_key: None,
        };
        let ghost unsigned = transaction@;
        transaction.sign_transaction(wallet)?;
        proof {
            assert(tx_hash_preimage(transaction@) =~= tx_hash_preimage(unsigned));
        }
        Ok(transaction)
    }

    /// The hash of the transaction.
    pub fn calculate_hash(&self) -> (h: String)
        ensures
            h@ == tx_hash(self@),
            h@.len() == 64,
    {
        let mut data = String::new();
        data.append(self.from_address.as_str());
        data.append(self.to_address.as_str());
        push_amount(&mut data, self.amount);
        let time = format_utc(self.timestamp);
        data.append(time.as_str());
        data.append(self.id.as_str());
        if self.fee != 0 {
            data.append("+");
            push_amount(&mut data, self.fee);
        }
        proof {
            reveal_strlit("+");
            assert(data@ =~= tx_hash_preimage(self@));
        }
        sha256_hex(data.as_str())
    }

    /// Signs the transaction's hash with the first key of the sender's wallet
    /// and attaches that key's public key.
    pub fn sign_transaction(&mut self, wallet: &AddressWallet) -> (r: Result<(), String>)
        ensures
            match r {
                Ok(()) => {
                    &&& old(self)@.from_address == wallet@.address
                    &&& wallet@.private_keys.len() > 0
                    &&& secret_of_text(wallet@.private_keys[0]) is Some
                    &&& final(self)@ == signed_with(old(self)@, wallet@.private_keys[0])
                    &&& signature_text_verifies(
                        tx_hash(old(self)@),
                        final(self)@.signature->0,
                        final(self)@.public_key->0,
                    )
                },
                Err(e) => {
                    &&& final(self)@ == old(self)@
                    &&& if old(self)@.from_address != wallet@.address {
                        e@ == "شما نمی‌توانید تراکنش‌های دیگران را امضا کنید"@
                    } else if wallet@.private_keys.len() == 0 {
                        e@ == "کلید خصوصی یافت نشد"@
                    } else {
                        signature_text(wallet@.private_keys[0], tx_hash(old(self)@)) is None
                            && e@ == "کلید خصوصی نامعتبر است"@
                    }
                },
            },
    {
        if self.from_address != wallet.address {
            return Err("شما نمی‌توانید تراکنش‌های دیگران را امضا کنید".to_string());
        }
        if wallet.private_keys.len() == 0 {
            return Err("کلید خصوصی یافت نشد".to_string());
        }
        let hash = self.calculate_hash();
        let signature = match sign_text(wallet.private_keys[0].as_str(), hash.as_str()) {
            Some(s) => s,
            None => {
                return Err("کلید خصوصی نامعتبر است".to_string());
            },
        };
        let public_key = match public_key_text(wallet.private_keys[0].as_str()) {
            Some(k) => k,
            None => {
                return Err("کلید خصوصی نامعتبر است".to_string());
            },
        };
        self.signature = Some(signature);
        self.public_key = Some(public_key);
        Ok(())
    }

    /// Gives the transaction the simple signature `sig_` + the first 16
    /// characters of its hash, when the wallet is the sender's and has a key.
    pub fn sign_transaction_simple(&mut self, wallet: &AddressWallet) -> (r: Result<(), String>)
        ensures
            match r {
                Ok(()) => {
                    &&& old(self)@.from_address == wallet@.address
                    &&& wallet@.private_keys.len() > 0
                    &&& final(self)@ == with_signature(old(self)@, Some(simple_signature(old(self)@)))
                },
                Err(e) => {
                    &&& final(self)@ == old(self)@
                    &&& if old(self)@.from_address != wallet@.address {
                        e@ == "شما نمی‌توانید تراکنش‌های دیگران را امضا کنید"@
                    } else {
                        wallet@.private_keys.len() == 0 && e@ == "کلید خصوصی یافت نشد"@
                    }
                },
            },
    {
        if self.from_address != wallet.address {
            return Err("شما نمی‌توانید تراکنش‌های دیگران را امضا کنید".to_string());
        }
        if wallet.private_keys.len() == 0 {
            return Err("کلید خصوصی یافت نشد".to_string());
        }
        let hash = self.calculate_hash();
        let mut signature = "sig_".to_string();
        signature.append(hash.as_str().substring_char(0, 16));
        self.signature = Some(signature);
        Ok(())
    }

    /// Whether the transaction is valid: issued by the system, or signed by
    /// the key of its sender.
    pub fn is_valid(&self) -> (ok: bool)
        ensures
            ok == tx_valid(self@),
    {
        if self.from_address.as_str().is_empty() {
            return true;
        }
        if self.fee < 0 || self.amount > i64::MAX - self.fee {
            return false;
        }
        if self.signature.is_none() {
            return false;
        }
        self.verify_signature()
    }

    /// The signature verifies under the carried public key, and that key is
    /// the sender's.
    fn verify_signature(&self) -> (ok: bool)
        requires
            self.signature is Some,
            self@.from_address.len() > 0,
            0 <= self.fee && self.amount + self.fee <= i64::MAX,
        ensures
            ok == tx_valid(self@),
    {
        match (&self.signature, &self.public_key) {
            (Some(signature), Some(public_key)) => {
                let hash = self.calculate_hash();
                if !verify_text(hash.as_str(), signature.as_str(), public_key.as_str()) {
                    return false;
                }
                key_owns(public_key.as_str(), self.from_address.as_str())
            },
            _ => false,
        }
    }

    /// The transaction of the first block: 100 TEC to `genesis_reward`, issued
    /// by the system, at the current time.
    pub fn genesis_transaction() -> (t: Self)
        ensures
            t@.id == "genesis"@,
            t@.from_address.len() == 0,
            t@.to_address == "genesis_reward"@,
            t@.amount == 100 * COIN,
            t@.fee == 0,
            t@.signature is None,
            t@.public_key is None,
    {
        Transaction {
            id: "genesis".to_string(),
            from_address: String::new(),
            to_address: "genesis_reward".to_string(),
            amount: 100 * COIN,
            fee: 0,
            timestamp: now(),
            signature: None,
            public_key: None,
        }
    }

    /// A mining reward of `reward` units to the miner, issued by the system.
    pub fn mining_reward(miner_address: String, reward: i64) -> (t: Self)
        ensures
            t@.id.len() == 36,
            t@.from_address.len() == 0,
            t@.to_address == miner_address@,
            t@.amount == reward,
            t@.fee == 0,
            t@.signature is None,
            t@.public_key is None,
    {
        Transaction {
            id: new_uuid(),
            from_address: String::new(),
            to_address: miner_address,
            amount: reward,
            fee: 0,
            timestamp: now(),
            signature: None,
            public_key: None,
        }
    }

    /// Appends the JSON object of the transaction.
    pub fn push_json(&self, out: &mut String)
        ensures
            final(out)@ == old(out)@ + tx_json(self@),
    {
        let ghost o = out@;
        out.append("{\"id\":");
        push_json_string(out, self.id.as_str());
        out.append(",\"from_address\":");
        push_json_string(out, self.from_address.as_str());
        out.append(",\"to_address\":");
        push_json_string(out, self.to_address.as_str());
        out.append(",\"amount\":");
        push_amount_json(out, self.amount);
        out.append(",\"fee\":");
        push_amount_json(out, self.fee);
        out.append(",\"timestamp\":");
        let time = format_rfc3339(self.timestamp);
        push_json_string(out, time.as_str());
        proof {
            assert(out@ =~= o + tx_json_head(self@));
        }
        let ghost h = out@;
        out.append(",\"signature\":");
        push_opt_json(out, &self.signature);
        out.append(",\"public_key\":");
        push_opt_json(out, &self.public_key);
        out.append("}");
        proof {
            assert(out@ =~= h + ",\"signature\":"@ + opt_json(self@.signature) + ",\"public_key\":"@ + opt_json(
                self@.public_key,
            ) + "}"@);
            assert(out@ =~= o + tx_json(self@));
        }
    }
}

} // verus!
