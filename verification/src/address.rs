//! Addresses and multi-key wallets: pay-to-pubkey-hash addresses with the
//! `tc1q` prefix ("bech32") and pay-to-script-hash multisig addresses with the
//! `tc3` prefix ("p2sh"), and a store of generated wallets.

use vstd::prelude::*;
use crate::text::{chars_of, has_prefix, owned, starts_with};
use crate::hexcodec::{
    hex_decode, hex_decoded, hex_encode, hex_text, is_hex_char, is_hex_digit, lemma_hex_roundtrip,
    lemma_hex_text_chars, lemma_hex_text_len,
};
use crate::digest::{ripemd160, ripemd160_digest, sha256, sha256_digest};
use crate::keys::{
    generate_key_pair, is_key_pair_text, lemma_key_pair_lengths, secret_of_text, sign_text, signature_text,
};

verus! {

/// Kind of a wallet's address.
#[derive(Debug, Clone, Copy, PartialEq, Eq, Structural)]
pub enum AddressType {
    Bech32,
    P2SH { required: usize, total: usize },
}

/// A wallet: an address, its keys (hex) and, for multisig, the redeem script (hex).
#[derive(Debug, Clone)]
pub struct Wallet {
    pub address: String,
    pub address_type: AddressType,
    pub private_keys: Vec<String>,
    pub public_keys: Vec<String>,
    pub script: Option<String>,
}

/// What a wallet holds, as sequences of characters.
pub struct WalletView {
    pub address: Seq<char>,
    pub address_type: AddressType,
    pub private_keys: Seq<Seq<char>>,
    pub public_keys: Seq<Seq<char>>,
    pub script: Option<Seq<char>>,
}

pub open spec fn texts(v: Seq<String>) -> Seq<Seq<char>> {
    v.map_values(|s: String| s@)
}

impl View for Wallet {
    type V = WalletView;

    open spec fn view(&self) -> WalletView {
        WalletView {
            address: self.address@,
            address_type: self.address_type,
            private_keys: texts(self.private_keys@),
            public_keys: texts(self.public_keys@),
            script: match self.script {
                Some(s) => Some(s@),
                None => None,
            },
        }
    }
}

impl Wallet {
    /// The wallet's address.
    pub fn get_address(&self) -> (a: String)
        ensures
            a@ == self.address@,
    {
        self.address.clone()
    }

    /// A copy of the wallet.
    pub fn duplicate(&self) -> (w: Wallet)
        ensures
            w@ == self@,
    {
        let private_keys = self.private_keys.clone();
        let public_keys = self.public_keys.clone();
        proof {
            assert(texts(private_keys@) =~= texts(self.private_keys@));
            assert(texts(public_keys@) =~= texts(self.public_keys@));
        }
        Wallet {
            address: self.address.clone(),
            address_type: self.address_type,
            private_keys,
            public_keys,
            script: match &self.script {
                Some(s) => Some(s.clone()),
                None => None,
            },
        }
    }
}

/// A request to generate a wallet.
#[derive(Debug, Clone)]
pub struct WalletRequest {
    pub action: String,
    pub address_type: String,
    pub required: Option<usize>,
    pub total: Option<usize>,
}

/// RIPEMD-160 of SHA-256.
pub open spec fn hash160(data: Seq<u8>) -> Seq<u8> {
    ripemd160_digest(sha256_digest(data))
}

pub open spec fn bech32_prefix() -> Seq<char> {
    seq!['t', 'c', '1', 'q']
}

pub open spec fn p2sh_prefix() -> Seq<char> {
    seq!['t', 'c', '3']
}

/// The `tc1q` address of a public key: the prefix, then hex of its HASH160.
pub open spec fn bech32_address_of(public_key: Seq<u8>) -> Seq<char> {
    bech32_prefix() + hex_text(hash160(public_key))
}

/// The `tc3` address of a script: the prefix, then hex of its HASH160.
pub open spec fn p2sh_address_of(script: Seq<u8>) -> Seq<char> {
    p2sh_prefix() + hex_text(hash160(script))
}

/// Each key pushed as its length byte, then its bytes.
pub open spec fn key_pushes(keys: Seq<Seq<u8>>) -> Seq<u8>
    decreases keys.len(),
{
    if keys.len() == 0 {
        Seq::empty()
    } else {
        key_pushes(keys.drop_last()) + seq![keys.last().len() as u8] + keys.last()
    }
}

/// The M-of-N multisig script: OP_M, the key pushes, OP_N, OP_CHECKMULTISIG.
pub open spec fn multisig_script(required: usize, keys: Seq<Seq<u8>>) -> Seq<u8> {
    seq![(0x50 + (required as u8)) as u8] + key_pushes(keys) + seq![
        (0x50 + (keys.len() as u8)) as u8,
        0xaeu8,
    ]
}

/// All texts decoded from hex, or `None` where one does not decode.
pub open spec fn decode_all(hexes: Seq<Seq<char>>) -> Option<Seq<Seq<u8>>>
    decreases hexes.len(),
{
    if hexes.len() == 0 {
        Some(Seq::empty())
    } else {
        match (decode_all(hexes.drop_last()), hex_decoded(hexes.last())) {
            (Some(p), Some(b)) => Some(p.push(b)),
            _ => None,
        }
    }
}

/// A generated single-key wallet.
pub open spec fn bech32_wallet_wf(w: WalletView) -> bool {
    &&& w.address_type == AddressType::Bech32
    &&& w.private_keys.len() == 1
    &&& w.public_keys.len() == 1
    &&& is_key_pair_text(w.private_keys[0], w.public_keys[0])
    &&& w.script is None
    &&& w.address == bech32_address_of(hex_decoded(w.public_keys[0])->0)
}

/// A generated M-of-N multisig wallet.
pub open spec fn p2sh_wallet_wf(w: WalletView, required: usize, total: usize) -> bool {
    &&& w.address_type == (AddressType::P2SH { required, total })
    &&& w.private_keys.len() == total
    &&& w.public_keys.len() == total
    &&& forall|i: int| 0 <= i < total ==> #[trigger] is_key_pair_text(w.private_keys[i], w.public_keys[i])
    &&& decode_all(w.public_keys) is Some
    &&& w.script == Some(hex_text(multisig_script(required, decode_all(w.public_keys)->0)))
    &&& w.address == p2sh_address_of(multisig_script(required, decode_all(w.public_keys)->0))
}

/// Each private key has 64 hex digits, each public key 66, decoding to a
/// 33-byte compressed key.
pub open spec fn key_lengths(w: WalletView) -> bool {
    &&& forall|i: int| 0 <= i < w.private_keys.len() ==> (#[trigger] w.private_keys[i]).len() == 64
    &&& forall|i: int| 0 <= i < w.public_keys.len() ==> (#[trigger] w.public_keys[i]).len() == 66 && (hex_decoded(
        w.public_keys[i],
    ) matches Some(pk) && pk.len() == 33)
}

/// The texts of a wallet have their standard lengths: a `tc1q` address has
/// 44 characters, a `tc3` address 43.
pub open spec fn wallet_lengths(w: WalletView) -> bool {
    &&& w.address.len() == match w.address_type {
        AddressType::Bech32 => 44int,
        AddressType::P2SH { .. } => 43int,
    }
    &&& key_lengths(w)
}

/// Keys that pair up have the standard lengths.
proof fn lemma_key_lengths(w: WalletView)
    requires
        w.private_keys.len() == w.public_keys.len(),
        forall|i: int| 0 <= i < w.public_keys.len() ==> #[trigger] is_key_pair_text(w.private_keys[i], w.public_keys[i]),
    ensures
        key_lengths(w),
{
    assert forall|i: int| 0 <= i < w.private_keys.len() implies (#[trigger] w.private_keys[i]).len() == 64 by {
        lemma_key_pair_lengths(w.private_keys[i], w.public_keys[i]);
    }
    assert forall|i: int| 0 <= i < w.public_keys.len() implies (#[trigger] w.public_keys[i]).len() == 66
        && (hex_decoded(w.public_keys[i]) matches Some(pk) && pk.len() == 33) by {
        lemma_key_pair_lengths(w.private_keys[i], w.public_keys[i]);
    }
}

/// A wallet generated for the given address type.
pub open spec fn generated_wallet(w: WalletView, t: AddressType) -> bool {
    match t {
        AddressType::Bech32 => bech32_wallet_wf(w),
        AddressType::P2SH { required, total } => p2sh_wallet_wf(w, required, total),
    }
}

/// The multisig settings are usable: at least one signature, no more than keys.
pub open spec fn multisig_settings_valid(required: usize, total: usize) -> bool {
    required <= total && required != 0 && total != 0
}

/// The opcodes OP_M and OP_N are written as `0x50 + n` in one byte.
pub open spec fn multisig_opcodes_fit(required: usize, total: usize) -> bool {
    (required as u8) <= 175 && (total as u8) <= 175
}

/// Generating a wallet of this type cannot overflow the opcode bytes.
pub open spec fn address_type_fits(t: AddressType) -> bool {
    match t {
        AddressType::Bech32 => true,
        AddressType::P2SH { required, total } => multisig_settings_valid(required, total)
            ==> multisig_opcodes_fit(required, total),
    }
}

/// Which address the text is: it begins with `tc1q` and the rest is a
/// nonempty run of hex digits or `q`, or it begins with `tc3` and the rest is a
/// nonempty run of hex digits.
pub open spec fn address_valid(a: Seq<char>) -> bool {
    if starts_with(a, bech32_prefix()) {
        a.len() > 4 && forall|i: int| 4 <= i < a.len() ==> #[trigger] is_hex_char(a[i]) || a[i] == 'q'
    } else if starts_with(a, p2sh_prefix()) {
        a.len() > 3 && forall|i: int| 3 <= i < a.len() ==> #[trigger] is_hex_char(a[i])
    } else {
        false
    }
}

/// A valid address, told by its characters: `tc1q` then at least one hex
/// digit or `q`, or `tc3` then at least one hex digit.
pub open spec fn address_text_rule(a: Seq<char>) -> bool {
    ||| (a.len() > 4 && a[0] == 't' && a[1] == 'c' && a[2] == '1' && a[3] == 'q' && forall|i: int|
        4 <= i < a.len() ==> is_hex_char(#[trigger] a[i]) || a[i] == 'q')
    ||| (a.len() > 3 && a[0] == 't' && a[1] == 'c' && a[2] == '3' && forall|i: int|
        3 <= i < a.len() ==> is_hex_char(#[trigger] a[i]))
}

/// Every valid address follows the character rule: after `tc1q` only hex
/// digits and `q`, after `tc3` only hex digits, and at least one of them.
pub proof fn law_valid_address_characters(a: Seq<char>)
    requires
        address_valid(a),
    ensures
        address_text_rule(a),
{
    lemma_prefix_literals();
    if starts_with(a, bech32_prefix()) {
        assert(a.subrange(0, 4)[0] == a[0] && a.subrange(0, 4)[1] == a[1]);
        assert(a.subrange(0, 4)[2] == a[2] && a.subrange(0, 4)[3] == a[3]);
    } else {
        assert(a.subrange(0, 3)[0] == a[0] && a.subrange(0, 3)[1] == a[1] && a.subrange(0, 3)[2] == a[2]);
    }
}

/// The `tc1q` address of a public key and the `tc3` address of a script are
/// their prefixes followed by the hex of RIPEMD-160 of SHA-256 of the bytes.
pub proof fn law_addresses_are_hash160(bytes: Seq<u8>)
    ensures
        bech32_address_of(bytes) == seq!['t', 'c', '1', 'q'] + hex_text(ripemd160_digest(sha256_digest(bytes))),
        p2sh_address_of(bytes) == seq!['t', 'c', '3'] + hex_text(ripemd160_digest(sha256_digest(bytes))),
{
}

/// Name of the kind of an address, by its prefix.
pub open spec fn address_kind(a: Seq<char>) -> Option<Seq<char>> {
    if starts_with(a, bech32_prefix()) {
        Some(seq!['b', 'e', 'c', 'h', '3', '2'])
    } else if starts_with(a, p2sh_prefix()) {
        Some(seq!['p', '2', 's', 'h'])
    } else {
        None
    }
}

/// The kind name of an address of this type.
pub open spec fn kind_of_type(t: AddressType) -> Seq<char> {
    match t {
        AddressType::Bech32 => seq!['b', 'e', 'c', 'h', '3', '2'],
        AddressType::P2SH { .. } => seq!['p', '2', 's', 'h'],
    }
}

proof fn lemma_prefix_literals()
    ensures
        "tc1q"@ == bech32_prefix(),
        "tc3"@ == p2sh_prefix(),
        "bech32"@ == seq!['b', 'e', 'c', 'h', '3', '2'],
        "p2sh"@ == seq!['p', '2', 's', 'h'],
{
    reveal_strlit("tc1q");
    reveal_strlit("tc3");
    reveal_strlit("bech32");
    reveal_strlit("p2sh");
    assert("tc1q"@ =~= bech32_prefix());
    assert("tc3"@ =~= p2sh_prefix());
    assert("bech32"@ =~= seq!['b', 'e', 'c', 'h', '3', '2']);
    assert("p2sh"@ =~= seq!['p', '2', 's', 'h']);
}

/// A prefix followed by the hex of a nonempty digest is a valid address of the
/// prefix's kind.
proof fn lemma_prefixed_hex_valid(prefix: Seq<char>, digest: Seq<u8>)
    requires
        prefix == bech32_prefix() || prefix == p2sh_prefix(),
        digest.len() > 0,
    ensures
        address_valid(prefix + hex_text(digest)),
        address_kind(prefix + hex_text(digest)) == if prefix == bech32_prefix() {
            Some(seq!['b', 'e', 'c', 'h', '3', '2'])
        } else {
            Some(seq!['p', '2', 's', 'h'])
        },
{
    let a = prefix + hex_text(digest);
    lemma_hex_text_len(digest);
    lemma_hex_text_chars(digest);
    assert(a.subrange(0, prefix.len() as int) =~= prefix);
    if prefix == bech32_prefix() {
        assert(starts_with(a, bech32_prefix()));
        assert forall|i: int| 4 <= i < a.len() implies #[trigger] is_hex_char(a[i]) || a[i] == 'q' by {
            assert(a[i] == hex_text(digest)[i - 4]);
        }
    } else {
        assert(!starts_with(a, bech32_prefix())) by {
            assert(a[2] != bech32_prefix()[2]);
        }
        assert(starts_with(a, p2sh_prefix()));
        assert forall|i: int| 3 <= i < a.len() implies #[trigger] is_hex_char(a[i]) by {
            assert(a[i] == hex_text(digest)[i - 3]);
        }
    }
}

/// Every prefix of a list that decodes also decodes.
proof fn lemma_decode_all_prefix(hexes: Seq<Seq<char>>, k: int)
    requires
        0 <= k <= hexes.len(),
        decode_all(hexes) is Some,
    ensures
        decode_all(hexes.take(k)) is Some,
    decreases hexes.len(),
{
    if k < hexes.len() {
        assert(hexes.drop_last().take(k) =~= hexes.take(k));
        lemma_decode_all_prefix(hexes.drop_last(), k);
    } else {
        assert(hexes.take(k) =~= hexes);
    }
}

/// Public keys of key pairs decode.
proof fn lemma_key_pairs_decode(privs: Seq<Seq<char>>, pubs: Seq<Seq<char>>)
    requires
        privs.len() == pubs.len(),
        forall|i: int| 0 <= i < pubs.len() ==> #[trigger] is_key_pair_text(privs[i], pubs[i]),
    ensures
        decode_all(pubs) is Some,
    decreases pubs.len(),
{
    if pubs.len() > 0 {
        let n = pubs.len() - 1;
        assert(is_key_pair_text(privs[n], pubs[n]));
        lemma_hex_roundtrip(crate::keys::public_key_of(secret_of_text(privs[n])->0));
        assert forall|i: int| 0 <= i < pubs.drop_last().len() implies #[trigger] is_key_pair_text(
            privs.drop_last()[i],
            pubs.drop_last()[i],
        ) by {
            assert(is_key_pair_text(privs[i], pubs[i]));
        }
        lemma_key_pairs_decode(privs.drop_last(), pubs.drop_last());
    }
}

/// Generates addresses and wallets.
pub struct AddressGenerator;

impl AddressGenerator {
    /// Generates a wallet of the given type.
    pub fn generate_wallet(wallet_type: AddressType) -> (r: Result<Wallet, String>)
        requires
            address_type_fits(wallet_type),
        ensures
            match r {
                Ok(w) => {
                    &&& generated_wallet(w@, wallet_type)
                    &&& wallet_lengths(w@)
                    &&& (wallet_type matches AddressType::P2SH { required, total } ==> multisig_settings_valid(
                        required,
                        total,
                    ))
                    &&& address_valid(w@.address)
                    &&& address_kind(w@.address) == Some(kind_of_type(wallet_type))
                },
                Err(e) => wallet_type matches AddressType::P2SH { required, total }
                    && !multisig_settings_valid(required, total)
                    && e@ == "تنظیمات multisig نامعتبر است"@,
            },
    {
        match wallet_type {
            AddressType::Bech32 => Self::generate_bech32_wallet(),
            AddressType::P2SH { required, total } => Self::generate_p2sh_wallet(required, total),
        }
    }

    /// Generates a single-key wallet with a `tc1q` address.
    pub fn generate_bech32_wallet() -> (r: Result<Wallet, String>)
        ensures
            r matches Ok(w) && bech32_wallet_wf(w@) && address_valid(w@.address)
                && address_kind(w@.address) == Some(kind_of_type(AddressType::Bech32)) && wallet_lengths(w@),
    {
        let (private_key, public_key) = Self::generate_keypair()?;
        proof {
            lemma_hex_roundtrip(crate::keys::public_key_of(secret_of_text(private_key@)->0));
        }
        let address = Self::create_bech32_address(&public_key)?;
        let mut private_keys: Vec<String> = Vec::new();
        private_keys.push(private_key);
        let mut public_keys: Vec<String> = Vec::new();
        public_keys.push(public_key);
        let w = Wallet {
            address,
            address_type: AddressType::Bech32,
            private_keys,
            public_keys,
            script: None,
        };
        proof {
            assert(w@.private_keys[0] == private_key@);
            assert(w@.public_keys[0] == public_key@);
            lemma_key_lengths(w@);
        }
        Ok(w)
    }

    /// Generates an M-of-N multisig wallet with a `tc3` address; fails unless
    /// `1 <= required <= total`.
    pub fn generate_p2sh_wallet(required: usize, total: usize) -> (r: Result<Wallet, String>)
        requires
            multisig_settings_valid(required, total) ==> multisig_opcodes_fit(required, total),
        ensures
            match r {
                Ok(w) => {
                    &&& multisig_settings_valid(required, total)
                    &&& p2sh_wallet_wf(w@, required, total)
                    &&& wallet_lengths(w@)
                    &&& address_valid(w@.address)
                    &&& address_kind(w@.address) == Some(kind_of_type(AddressType::P2SH { required, total }))
                },
                Err(e) => !multisig_settings_valid(required, total) && e@ == "تنظیمات multisig نامعتبر است"@,
            },
    {
        if required > total || required == 0 || total == 0 {
            return Err("تنظیمات multisig نامعتبر است".to_string());
        }
        let mut private_keys: Vec<String> = Vec::new();
        let mut public_keys: Vec<String> = Vec::new();
        for _i in 0..total
            invariant
                private_keys@.len() == public_keys@.len(),
                public_keys@.len() == _i,
                forall|j: int| 0 <= j < _i ==> #[trigger] is_key_pair_text(texts(private_keys@)[j], texts(public_keys@)[j]),
        {
            let (priv_key, pub_key) = Self::generate_keypair()?;
            let ghost prev_privs = texts(private_keys@);
            let ghost prev_pubs = texts(public_keys@);
            private_keys.push(priv_key);
            public_keys.push(pub_key);
            proof {
                assert forall|j: int| 0 <= j < _i + 1 implies #[trigger] is_key_pair_text(
                    texts(private_keys@)[j],
                    texts(public_keys@)[j],
                ) by {
                    if j < _i {
                        assert(texts(private_keys@)[j] == prev_privs[j]);
                        assert(texts(public_keys@)[j] == prev_pubs[j]);
                    }
                }
            }
        }
        proof {
            lemma_key_pairs_decode(texts(private_keys@), texts(public_keys@));
        }
        let script = Self::create_multisig_script(required, public_keys.as_slice())?;
        proof {
            lemma_hex_roundtrip(multisig_script(required, decode_all(texts(public_keys@))->0));
        }
        let address = Self::create_p2sh_address(&script)?;
        let w = Wallet {
            address,
            address_type: AddressType::P2SH { required, total },
            private_keys,
            public_keys,
            script: Some(script),
        };
        proof {
            lemma_key_lengths(w@);
        }
        Ok(w)
    }

    /// A fresh key pair, as hex of the secret key and of the compressed public key.
    pub fn generate_keypair() -> (r: Result<(String, String), String>)
        ensures
            r matches Ok(p) && is_key_pair_text(p.0@, p.1@),
    {
        Ok(generate_key_pair())
    }

    /// The `tc1q` address of a public key given in hex.
    pub fn create_bech32_address(public_key_hex: &str) -> (r: Result<String, String>)
        ensures
            match r {
                Ok(a) => hex_decoded(public_key_hex@) matches Some(pk) && a@ == bech32_address_of(pk)
                    && address_valid(a@) && address_kind(a@) == Some(kind_of_type(AddressType::Bech32))
                    && a@.len() == 44 && a@ == seq!['t', 'c', '1', 'q'] + hex_text(
                    ripemd160_digest(sha256_digest(pk)),
                ),
                Err(e) => hex_decoded(public_key_hex@) is None && e@ == "کلید عمومی نامعتبر است"@,
            },
    {
        let public_key_bytes = match hex_decode(public_key_hex) {
            Some(b) => b,
            None => {
                return Err("کلید عمومی نامعتبر است".to_string());
            },
        };
        let sha_hash = sha256(public_key_bytes.as_slice());
        let hash160 = ripemd160(sha_hash.as_slice());
        let mut address = "tc1q".to_string();
        let digits = hex_encode(hash160.as_slice());
        address.append(digits.as_str());
        proof {
            lemma_prefix_literals();
            lemma_prefixed_hex_valid(bech32_prefix(), hash160@);
            lemma_hex_text_len(hash160@);
        }
        Ok(address)
    }

    /// The `tc3` address of a script given in hex.
    pub fn create_p2sh_address(script: &str) -> (r: Result<String, String>)
        ensures
            match r {
                Ok(a) => hex_decoded(script@) matches Some(s) && a@ == p2sh_address_of(s)
                    && address_valid(a@) && address_kind(a@) == Some(
                    kind_of_type(AddressType::P2SH { required: 0, total: 0 }),
                ) && a@.len() == 43 && a@ == seq!['t', 'c', '3'] + hex_text(ripemd160_digest(sha256_digest(s))),
                Err(e) => hex_decoded(script@) is None && e@ == "اسکریپت نامعتبر است"@,
            },
    {
        let script_bytes = match hex_decode(script) {
            Some(b) => b,
            None => {
                return Err("اسکریپت نامعتبر است".to_string());
            },
        };
        let sha_hash = sha256(script_bytes.as_slice());
        let hash160 = ripemd160(sha_hash.as_slice());
        let mut address = "tc3".to_string();
        let digits = hex_encode(hash160.as_slice());
        address.append(digits.as_str());
        proof {
            lemma_prefix_literals();
            lemma_prefixed_hex_valid(p2sh_prefix(), hash160@);
            lemma_hex_text_len(hash160@);
        }
        Ok(address)
    }

    /// The M-of-N multisig script (hex) of public keys given in hex.
    pub fn create_multisig_script(required: usize, public_keys: &[String]) -> (r: Result<String, String>)
        requires
            multisig_opcodes_fit(required, public_keys@.len() as usize),
        ensures
            match r {
                Ok(s) => decode_all(texts(public_keys@)) matches Some(keys) && s@ == hex_text(
                    multisig_script(required, keys),
                ),
                Err(e) => decode_all(texts(public_keys@)) is None && e@ == "کلید عمومی نامعتبر است"@,
            },
    {
        let ghost hexes = texts(public_keys@);
        let mut script: Vec<u8> = Vec::new();
        script.push(0x50 + required as u8);
        let ghost mut keys: Seq<Seq<u8>> = Seq::empty();
        let n = public_keys.len();
        for i in 0..n
            invariant
                n == public_keys@.len(),
                hexes == texts(public_keys@),
                decode_all(hexes.take(i as int)) == Some(keys),
                script@ == seq![(0x50 + (required as u8)) as u8] + key_pushes(keys),
        {
            let pub_key_bytes = match hex_decode(public_keys[i].as_str()) {
                Some(b) => b,
                None => {
                    proof {
                        assert(hexes.take(i + 1).drop_last() =~= hexes.take(i as int));
                        if decode_all(hexes) is Some {
                            lemma_decode_all_prefix(hexes, i + 1);
                        }
                    }
                    return Err("کلید عمومی نامعتبر است".to_string());
                },
            };
            script.push(pub_key_bytes.len() as u8);
            let mut bytes = pub_key_bytes;
            let ghost b = bytes@;
            script.append(&mut bytes);
            proof {
                assert(hexes.take(i + 1).drop_last() =~= hexes.take(i as int));
                assert(hexes.take(i + 1).last() == hexes[i as int]);
                let old_keys = keys;
                keys = keys.push(b);
                assert(keys.drop_last() =~= old_keys);
                assert(script@ =~= seq![(0x50 + (required as u8)) as u8] + key_pushes(keys));
            }
        }
        proof {
            assert(hexes.take(n as int) =~= hexes);
            assert(keys.len() == n) by {
                lemma_decode_all_len(hexes);
            }
        }
        script.push(0x50 + n as u8);
        script.push(0xae);
        proof {
            assert(script@ =~= multisig_script(required, keys));
        }
        Ok(hex_encode(script.as_slice()))
    }

    /// Whether the text is a valid `tc1q` or `tc3` address.
    pub fn validate_address(address: &str) -> (ok: bool)
        ensures
            ok == address_valid(address@),
            ok ==> address_text_rule(address@),
    {
        proof {
            lemma_prefix_literals();
        }
        let cs = chars_of(address);
        if has_prefix(address, "tc1q") {
            if cs.len() <= 4 {
                return false;
            }
            let mut i: usize = 4;
            while i < cs.len()
                invariant
                    cs@ == address@,
                    4 <= i <= cs@.len(),
                    starts_with(address@, bech32_prefix()),
                    forall|j: int| 4 <= j < i ==> #[trigger] is_hex_char(cs@[j]) || cs@[j] == 'q',
                decreases cs@.len() - i,
            {
                if !(is_hex_digit(cs[i]) || cs[i] == 'q') {
                    return false;
                }
                i = i + 1;
            }
            true
        } else if has_prefix(address, "tc3") {
            if cs.len() <= 3 {
                return false;
            }
            let mut i: usize = 3;
            while i < cs.len()
                invariant
                    cs@ == address@,
                    3 <= i <= cs@.len(),
                    !starts_with(address@, bech32_prefix()),
                    starts_with(address@, p2sh_prefix()),
                    forall|j: int| 3 <= j < i ==> #[trigger] is_hex_char(cs@[j]),
                decreases cs@.len() - i,
            {
                if !is_hex_digit(cs[i]) {
                    return false;
                }
                i = i + 1;
            }
            true
        } else {
            false
        }
    }

    /// `"bech32"` or `"p2sh"` by the address's prefix, or `None`.
    pub fn get_address_type(address: &str) -> (r: Option<String>)
        ensures
            match r {
                Some(k) => address_kind(address@) == Some(k@),
                None => address_kind(address@) is None,
            },
    {
        proof {
            lemma_prefix_literals();
        }
        if has_prefix(address, "tc1q") {
            Some("bech32".to_string())
        } else if has_prefix(address, "tc3") {
            Some("p2sh".to_string())
        } else {
            None
        }
    }
}

/// The wallets by address; a later wallet of an address replaces an earlier one.
pub open spec fn wallet_map(ws: Seq<WalletView>) -> Map<Seq<char>, WalletView>
    decreases ws.len(),
{
    if ws.len() == 0 {
        Map::empty()
    } else {
        wallet_map(ws.drop_last()).insert(ws.last().address, ws.last())
    }
}

/// No two wallets share an address.
pub open spec fn distinct_addresses(ws: Seq<WalletView>) -> bool {
    forall|i: int, j: int| 0 <= i < j < ws.len() ==> ws[i].address != ws[j].address
}

/// With distinct addresses, the map holds exactly the listed wallets, one per address.
pub proof fn lemma_wallet_map(ws: Seq<WalletView>)
    requires
        distinct_addresses(ws),
    ensures
        wallet_map(ws).dom().finite(),
        wallet_map(ws).dom().len() == ws.len(),
        forall|a: Seq<char>| #[trigger] wallet_map(ws).contains_key(a) <==> exists|i: int| 0 <= i < ws.len() && ws[i].address == a,
        forall|i: int| 0 <= i < ws.len() ==> #[trigger] wallet_map(ws)[ws[i].address] == ws[i],
    decreases ws.len(),
{
    if ws.len() > 0 {
        let p = ws.drop_last();
        assert(distinct_addresses(p));
        lemma_wallet_map(p);
        let last = ws.last();
        assert(!wallet_map(p).contains_key(last.address)) by {
            if wallet_map(p).contains_key(last.address) {
                let i = choose|i: int| 0 <= i < p.len() && p[i].address == last.address;
                assert(ws[i].address == ws[ws.len() - 1].address);
            }
        }
        assert forall|a: Seq<char>| #[trigger] wallet_map(ws).contains_key(a) <==> exists|i: int| 0 <= i < ws.len() && ws[i].address == a by {
            if wallet_map(p).contains_key(a) {
                let i = choose|i: int| 0 <= i < p.len() && p[i].address == a;
                assert(ws[i].address == a);
            }
            if exists|i: int| 0 <= i < ws.len() && ws[i].address == a {
                let i = choose|i: int| 0 <= i < ws.len() && ws[i].address == a;
                if i < ws.len() - 1 {
                    assert(p[i].address == a);
                }
            }
        }
        assert forall|i: int| 0 <= i < ws.len() implies #[trigger] wallet_map(ws)[ws[i].address] == ws[i] by {
            if i < ws.len() - 1 {
                assert(p[i] == ws[i]);
                assert(ws[i].address != last.address);
            }
        }
    }
}

/// The wallet was generated for its own type, with valid multisig counts.
pub open spec fn stored_wallet_wf(w: WalletView) -> bool {
    &&& generated_wallet(w, w.address_type)
    &&& (w.address_type matches AddressType::P2SH { required, total } ==> multisig_settings_valid(required, total))
}

/// Every wallet was generated for its own type.
pub open spec fn all_generated(ws: Seq<WalletView>) -> bool {
    forall|i: int| 0 <= i < ws.len() ==> #[trigger] stored_wallet_wf(ws[i])
}

/// A store of wallets: finitely many, each kept under its own address and
/// generated for its own type.
pub open spec fn store_wf(m: Map<Seq<char>, WalletView>) -> bool {
    &&& m.dom().finite()
    &&& forall|a: Seq<char>| #[trigger] m.contains_key(a) ==> m[a].address == a && stored_wallet_wf(m[a])
}

/// The map of distinct generated wallets is a well-formed store.
proof fn lemma_store_wf(ws: Seq<WalletView>)
    requires
        distinct_addresses(ws),
        all_generated(ws),
    ensures
        store_wf(wallet_map(ws)),
{
    lemma_wallet_map(ws);
    assert forall|a: Seq<char>| #[trigger] wallet_map(ws).contains_key(a) implies wallet_map(ws)[a].address == a
        && stored_wallet_wf(wallet_map(ws)[a]) by {
        let i = choose|i: int| 0 <= i < ws.len() && ws[i].address == a;
        assert(wallet_map(ws)[ws[i].address] == ws[i]);
        assert(stored_wallet_wf(ws[i]));
    }
}

/// The latest wallet stored under an address is the one the store gives for
/// it; every other address keeps its wallet, and the store grows by one
/// exactly when the address is new. `create_wallet` stores a wallet so.
pub proof fn law_store_latest_wins(before: Map<Seq<char>, WalletView>, w: WalletView, a: Seq<char>)
    requires
        store_wf(before),
    ensures
        before.insert(w.address, w).contains_key(w.address),
        before.insert(w.address, w)[w.address] == w,
        a != w.address ==> (before.insert(w.address, w).contains_key(a) == before.contains_key(a)),
        a != w.address && before.contains_key(a) ==> before.insert(w.address, w)[a] == before[a],
        before.insert(w.address, w).dom().len() == before.dom().len() + if before.contains_key(w.address) {
            0int
        } else {
            1int
        },
{
    if before.contains_key(w.address) {
        assert(before.insert(w.address, w).dom() =~= before.dom());
    }
}

/// A store of wallets by address.
pub struct WalletManager {
    wallets: Vec<Wallet>,
}

impl WalletManager {
    /// The stored wallets, in the order they were first stored.
    pub closed spec fn wallet_views(self) -> Seq<WalletView> {
        self.wallets@.map_values(|w: Wallet| w@)
    }

    #[verifier::type_invariant]
    closed spec fn addresses_unique(self) -> bool {
        &&& distinct_addresses(self.wallet_views())
        &&& all_generated(self.wallet_views())
    }
}

impl View for WalletManager {
    type V = Map<Seq<char>, WalletView>;

    closed spec fn view(&self) -> Map<Seq<char>, WalletView> {
        wallet_map(self.wallet_views())
    }
}

impl WalletManager {
    /// An empty store.
    pub fn new() -> (m: Self)
        ensures
            m@ == Map::<Seq<char>, WalletView>::empty(),
            store_wf(m@),
    {
        let m = WalletManager { wallets: Vec::new() };
        proof {
            assert(m.wallet_views() =~= Seq::<WalletView>::empty());
        }
        m
    }

    /// Position of the wallet of `address` in the store.
    fn find(&self, address: &str) -> (r: Option<usize>)
        ensures
            match r {
                Some(i) => i < self.wallets@.len() && self.wallets@[i as int].address@ == address@,
                None => forall|i: int| 0 <= i < self.wallets@.len() ==> self.wallets@[i].address@ != address@,
            },
    {
        let key = owned(address);
        let mut i: usize = 0;
        while i < self.wallets.len()
            invariant
                key@ == address@,
                i <= self.wallets@.len(),
                forall|j: int| 0 <= j < i ==> self.wallets@[j].address@ != address@,
            decreases self.wallets@.len() - i,
        {
            if self.wallets[i].address == key {
                return Some(i);
            }
            i = i + 1;
        }
        None
    }

    /// Generates a wallet of the given type and stores it under its address.
    pub fn create_wallet(&mut self, address_type: AddressType) -> (r: Result<Wallet, String>)
        requires
            address_type_fits(address_type),
        ensures
            match r {
                Ok(w) => {
                    &&& generated_wallet(w@, address_type)
                    &&& wallet_lengths(w@)
                    &&& (address_type matches AddressType::P2SH { required, total } ==> multisig_settings_valid(
                        required,
                        total,
                    ))
                    &&& address_valid(w@.address)
                    &&& final(self)@ == old(self)@.insert(w@.address, w@)
                },
                Err(e) => {
                    &&& address_type matches AddressType::P2SH { required, total }
                    &&& !multisig_settings_valid(required, total)
                    &&& e@ == "تنظیمات multisig نامعتبر است"@
                    &&& final(self)@ == old(self)@
                },
            },
            store_wf(final(self)@),
            old(self)@.dom().len() <= final(self)@.dom().len() <= old(self)@.dom().len() + 1,
    {
        proof {
            use_type_invariant(&*self);
            lemma_store_wf(self.wallet_views());
        }
        let wallet = AddressGenerator::generate_wallet(address_type)?;
        let stored = wallet.duplicate();
        let ghost old_views = self.wallet_views();
        match self.find(wallet.address.as_str()) {
            Some(i) => {
                let mut ws: Vec<Wallet> = Vec::new();
                std::mem::swap(&mut ws, &mut self.wallets);
                assert(ws@.map_values(|w: Wallet| w@) == old_views);
                ws.set(i, stored);
                proof {
                    lemma_wallet_map(old_views);
                    let nv = ws@.map_values(|w: Wallet| w@);
                    assert(nv =~= old_views.update(i as int, wallet@));
                    assert forall|x: int, y: int| 0 <= x < y < nv.len() implies nv[x].address != nv[y].address by {
                        assert(old_views[x].address != old_views[y].address);
                        assert(nv[x].address == old_views[x].address);
                        assert(nv[y].address == old_views[y].address);
                    }
                    assert(distinct_addresses(nv));
                    assert forall|k: int| 0 <= k < nv.len() implies #[trigger] stored_wallet_wf(nv[k]) by {
                        if k != i {
                            assert(nv[k] == old_views[k]);
                        }
                    }
                    lemma_wallet_map(nv);
                    assert(wallet_map(nv) =~= wallet_map(old_views).insert(wallet@.address, wallet@)) by {
                        assert forall|a: Seq<char>| wallet_map(nv).contains_key(a) implies wallet_map(old_views).insert(wallet@.address, wallet@).contains_key(a) by {
                            let k = choose|k: int| 0 <= k < nv.len() && nv[k].address == a;
                            if k != i {
                                assert(old_views[k].address == a);
                            }
                        }
                        assert forall|a: Seq<char>| wallet_map(old_views).insert(wallet@.address, wallet@).contains_key(a) implies wallet_map(nv).contains_key(a) by {
                            if a != wallet@.address {
                                let k = choose|k: int| 0 <= k < old_views.len() && old_views[k].address == a;
                                assert(nv[k].address == a);
                            } else {
                                assert(nv[i as int].address == a);
                            }
                        }
                        assert forall|a: Seq<char>| #[trigger] wallet_map(nv).contains_key(a) implies wallet_map(nv)[a] == wallet_map(old_views).insert(wallet@.address, wallet@)[a] by {
                            let k = choose|k: int| 0 <= k < nv.len() && nv[k].address == a;
                            assert(wallet_map(nv)[nv[k].address] == nv[k]);
                            if k != i {
                                assert(wallet_map(old_views)[old_views[k].address] == old_views[k]);
                            }
                        }
                    }
                }
                self.wallets = ws;
                proof {
                    lemma_store_wf(self.wallet_views());
                    lemma_wallet_map(self.wallet_views());
                }
            },
            None => {
                let mut ws: Vec<Wallet> = Vec::new();
                std::mem::swap(&mut ws, &mut self.wallets);
                assert(ws@.map_values(|w: Wallet| w@) == old_views);
                ws.push(stored);
                proof {
                    let nv = ws@.map_values(|w: Wallet| w@);
                    assert(nv =~= old_views.push(wallet@));
                    assert(nv.drop_last() =~= old_views);
                    assert forall|x: int, y: int| 0 <= x < y < nv.len() implies nv[x].address != nv[y].address by {
                        if y == nv.len() - 1 {
                            assert(nv[x] == old_views[x]);
                        } else {
                            assert(nv[x] == old_views[x] && nv[y] == old_views[y]);
                        }
                    }
                    assert forall|k: int| 0 <= k < nv.len() implies #[trigger] stored_wallet_wf(nv[k]) by {
                        if k < old_views.len() {
                            assert(nv[k] == old_views[k]);
                        }
                    }
                    lemma_wallet_map(old_views);
                }
                self.wallets = ws;
                proof {
                    lemma_store_wf(self.wallet_views());
                    lemma_wallet_map(self.wallet_views());
                }
            },
        }
        Ok(wallet)
    }

    /// The wallet stored under `address`.
    pub fn get_wallet(&self, address: &str) -> (r: Option<&Wallet>)
        ensures
            match r {
                Some(w) => self@.contains_key(address@) && w@ == self@[address@],
                None => !self@.contains_key(address@),
            },
            store_wf(self@),
    {
        proof {
            use_type_invariant(self);
            lemma_wallet_map(self.wallet_views());
            lemma_store_wf(self.wallet_views());
        }
        match self.find(address) {
            Some(i) => {
                proof {
                    assert(self.wallet_views()[i as int] == self.wallets@[i as int]@);
                }
                Some(&self.wallets[i])
            },
            None => {
                proof {
                    assert forall|k: int| 0 <= k < self.wallet_views().len() implies self.wallet_views()[k].address != address@ by {
                        assert(self.wallet_views()[k] == self.wallets@[k]@);
                    }
                }
                None
            },
        }
    }

    /// All stored wallets, each once.
    pub fn list_wallets(&self) -> (r: Vec<&Wallet>)
        ensures
            r@.len() == self@.dom().len(),
            forall|i: int| 0 <= i < r@.len() ==> #[trigger] self@.contains_key(r@[i]@.address)
                && self@[r@[i]@.address] == r@[i]@,
            forall|i: int, j: int| 0 <= i < j < r@.len() ==> r@[i]@.address != r@[j]@.address,
            forall|a: Seq<char>| #[trigger] self@.contains_key(a) ==> exists|i: int| 0 <= i < r@.len() && r@[i]@.address == a,
            store_wf(self@),
    {
        proof {
            use_type_invariant(self);
            lemma_wallet_map(self.wallet_views());
            lemma_store_wf(self.wallet_views());
        }
        let mut r: Vec<&Wallet> = Vec::new();
        let mut i: usize = 0;
        while i < self.wallets.len()
            invariant
                i <= self.wallets@.len(),
                r@.len() == i,
                forall|j: int| 0 <= j < i ==> r@[j]@ == #[trigger] self.wallet_views()[j],
                self.wallet_views().len() == self.wallets@.len(),
            decreases self.wallets@.len() - i,
        {
            r.push(&self.wallets[i]);
            proof {
                assert(self.wallet_views()[i as int] == self.wallets@[i as int]@);
            }
            i = i + 1;
        }
        proof {
            assert forall|i: int| 0 <= i < r@.len() implies #[trigger] self@.contains_key(r@[i]@.address)
                && self@[r@[i]@.address] == r@[i]@ by {
                assert(r@[i]@ == self.wallet_views()[i]);
            }
            assert forall|i: int, j: int| 0 <= i < j < r@.len() implies r@[i]@.address != r@[j]@.address by {
                assert(r@[i]@ == self.wallet_views()[i]);
                assert(r@[j]@ == self.wallet_views()[j]);
            }
            assert forall|a: Seq<char>| #[trigger] self@.contains_key(a) implies exists|i: int| 0 <= i < r@.len() && r@[i]@.address == a by {
                let i = choose|i: int| 0 <= i < self.wallet_views().len() && self.wallet_views()[i].address == a;
                assert(r@[i]@ == self.wallet_views()[i]);
            }
        }
        r
    }

    /// Signs `data` with the first private key of the wallet stored under
    /// `address`: hex of the compact ECDSA signature of SHA-256 of its bytes.
    pub fn sign_transaction(&self, address: &str, data: &str) -> (r: Result<String, String>)
        ensures
            match r {
                Ok(sig) => self@.contains_key(address@) && self@[address@].private_keys.len() > 0
                    && signature_text(self@[address@].private_keys[0], data@) == Some(sig@),
                Err(e) => if !self@.contains_key(address@) {
                    e@ == "کیف پول یافت نشد"@
                } else if self@[address@].private_keys.len() == 0 {
                    e@ == "کلید خصوصی یافت نشد"@
                } else {
                    signature_text(self@[address@].private_keys[0], data@) is None && e@ == "کلید خصوصی نامعتبر است"@
                },
            },
    {
        let wallet = match self.get_wallet(address) {
            Some(w) => w,
            None => {
                return Err("کیف پول یافت نشد".to_string());
            },
        };
        if wallet.private_keys.len() == 0 {
            return Err("کلید خصوصی یافت نشد".to_string());
        }
        match sign_text(wallet.private_keys[0].as_str(), data) {
            Some(sig) => Ok(sig),
            None => Err("کلید خصوصی نامعتبر است".to_string()),
        }
    }
}

impl Default for WalletManager {
    fn default() -> (m: Self)
        ensures
            m@ == Map::<Seq<char>, WalletView>::empty(),
    {
        Self::new()
    }
}

/// A decoded list has as many entries as the list of texts.
proof fn lemma_decode_all_len(hexes: Seq<Seq<char>>)
    requires
        decode_all(hexes) is Some,
    ensures
        decode_all(hexes)->0.len() == hexes.len(),
    decreases hexes.len(),
{
    if hexes.len() > 0 {
        lemma_decode_all_len(hexes.drop_last());
    }
}

} // verus!
