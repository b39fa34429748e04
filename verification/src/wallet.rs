//! Single-key wallets with `RC` addresses.

use vstd::prelude::*;
use vstd::slice::slice_subrange;
use crate::hexcodec::{hex_decode, hex_decoded, hex_encode, hex_text, lemma_hex_roundtrip, lemma_hex_text_len};
use crate::digest::{sha256, sha256_digest};
use crate::keys::{
    derive_public_key, is_key_pair_text, public_key_of, random_secret_key, secret_key_accepts,
    secret_of_text, sign_text, signature_text, signature_text_verifies, verify_text,
};

verus! {

/// The `RC` address of a public key: `RC`, then hex of the first 20 bytes of
/// its SHA-256 digest.
pub open spec fn rc_address_of(public_key: Seq<u8>) -> Seq<char> {
    seq!['R', 'C'] + hex_text(sha256_digest(public_key).take(20))
}

/// A wallet of one key pair (hex texts) and its address.
#[derive(Debug, Clone)]
pub struct Wallet {
    private_key: String,
    public_key: String,
    address: String,
}

impl Wallet {
    pub closed spec fn private_key_text(self) -> Seq<char> {
        self.private_key@
    }

    pub closed spec fn public_key_text(self) -> Seq<char> {
        self.public_key@
    }

    pub closed spec fn address_text(self) -> Seq<char> {
        self.address@
    }

    /// The keys belong together and the address is that of the public key.
    pub open spec fn wf(self) -> bool {
        &&& is_key_pair_text(self.private_key_text(), self.public_key_text())
        &&& self.address_text() == rc_address_of(hex_decoded(self.public_key_text())->0)
    }

    /// The texts have their standard lengths: 64 hex digits of the private
    /// key, 66 of the compressed public key, and `RC` with 40 hex digits.
    pub open spec fn standard_lengths(self) -> bool {
        &&& self.private_key_text().len() == 64
        &&& self.public_key_text().len() == 66
        &&& self.address_text().len() == 42
    }

    /// A wallet with a fresh random key pair.
    pub fn new() -> (w: Self)
        ensures
            w.wf(),
            w.standard_lengths(),
    {
        let sk = random_secret_key();
        let pk = derive_public_key(sk.as_slice());
        let address = Self::generate_address(pk.as_slice());
        let private_key = hex_encode(sk.as_slice());
        let public_key = hex_encode(pk.as_slice());
        proof {
            lemma_hex_roundtrip(sk@);
            lemma_hex_roundtrip(pk@);
            lemma_hex_text_len(sk@);
            lemma_hex_text_len(pk@);
        }
        Wallet { private_key, public_key, address }
    }

    /// The wallet of a private key given in hex; the text is kept as given.
    pub fn from_private_key(private_key_hex: &str) -> (r: Result<Self, String>)
        ensures
            match r {
                Ok(w) => secret_of_text(private_key_hex@) is Some && w.wf()
                    && w.private_key_text() == private_key_hex@ && w.standard_lengths(),
                Err(e) => secret_of_text(private_key_hex@) is None && e@ == "کلید خصوصی is invalid"@,
            },
    {
        let sk = match hex_decode(private_key_hex) {
            Some(b) => b,
            None => {
                return Err("کلید خصوصی is invalid".to_string());
            },
        };
        if !secret_key_accepts(sk.as_slice()) {
            return Err("کلید خصوصی is invalid".to_string());
        }
        let pk = derive_public_key(sk.as_slice());
        let address = Self::generate_address(pk.as_slice());
        let public_key = hex_encode(pk.as_slice());
        proof {
            lemma_hex_roundtrip(pk@);
            lemma_hex_text_len(pk@);
            assert(private_key_hex@.len() == 2 * sk@.len());
        }
        Ok(Wallet { private_key: private_key_hex.to_owned(), public_key, address })
    }

    /// The `RC` address of an encoded public key.
    pub fn generate_address(public_key: &[u8]) -> (a: String)
        ensures
            a@ == rc_address_of(public_key@),
            a@.len() == 42,
    {
        let hash = sha256(public_key);
        let address_bytes = slice_subrange(hash.as_slice(), 0, 20);
        let mut address = "RC".to_string();
        let digits = hex_encode(address_bytes);
        address.append(digits.as_str());
        proof {
            reveal_strlit("RC");
            assert(address_bytes@ =~= sha256_digest(public_key@).take(20));
            assert(address@ =~= rc_address_of(public_key@));
            lemma_hex_text_len(address_bytes@);
        }
        address
    }

    /// A wallet of the given texts, taken as they are.
    pub fn from_parts(private_key: String, public_key: String, address: String) -> (w: Self)
        ensures
            w.private_key_text() == private_key@,
            w.public_key_text() == public_key@,
            w.address_text() == address@,
    {
        Wallet { private_key, public_key, address }
    }

    pub fn get_address(&self) -> (a: String)
        ensures
            a@ == self.address_text(),
    {
        self.address.clone()
    }

    pub fn get_public_key(&self) -> (k: String)
        ensures
            k@ == self.public_key_text(),
    {
        self.public_key.clone()
    }

    pub fn get_private_key(&self) -> (k: String)
        ensures
            k@ == self.private_key_text(),
    {
        self.private_key.clone()
    }

    /// Signs `data`: hex of the compact ECDSA signature of SHA-256 of its UTF-8
    /// bytes. A well-formed wallet always signs, and its signature verifies
    /// under its public key.
    pub fn sign_data(&self, data: &str) -> (r: Result<String, String>)
        ensures
            match r {
                Ok(sig) => signature_text(self.private_key_text(), data@) == Some(sig@),
                Err(e) => signature_text(self.private_key_text(), data@) is None
                    && e@ == "کلید خصوصی is invalid"@,
            },
            self.wf() ==> (r matches Ok(sig) && signature_text_verifies(data@, sig@, self.public_key_text())),
    {
        match sign_text(self.private_key.as_str(), data) {
            Some(sig) => Ok(sig),
            None => Err("کلید خصوصی is invalid".to_string()),
        }
    }

    /// Whether `signature_hex` is a signature of `data` under `public_key_hex`.
    pub fn verify_signature(data: &str, signature_hex: &str, public_key_hex: &str) -> (ok: bool)
        ensures
            ok == signature_text_verifies(data@, signature_hex@, public_key_hex@),
    {
        verify_text(data, signature_hex, public_key_hex)
    }

    /// A wallet from a seed phrase; seeds are not used yet, so the wallet is random.
    pub fn from_seed(_seed: &str) -> (r: Result<Self, String>)
        ensures
            r matches Ok(w) && w.wf() && w.standard_lengths(),
    {
        Ok(Self::new())
    }
}

} // verus!
