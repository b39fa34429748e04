//! secp256k1 keys and ECDSA signatures, through the `secp256k1` crate.
//!
//! Keys and signatures travel as plain bytes: a secret key is 32 bytes, a
//! public key its 33-byte compressed encoding, a signature its 64-byte
//! compact encoding.

use vstd::prelude::*;
use vstd::utf8::encode_utf8;
use crate::hexcodec::{hex_decode, hex_decoded, hex_encode, hex_text, lemma_hex_roundtrip, lemma_hex_text_len};
use crate::digest::{sha256, sha256_digest};

verus! {

/// Big-endian value of a byte string.
pub open spec fn be_value(b: Seq<u8>) -> nat
    decreases b.len(),
{
    if b.len() == 0 {
        0
    } else {
        be_value(b.drop_last()) * 256 + (b.last() as nat)
    }
}

/// The order of the secp256k1 group.
pub open spec fn curve_order() -> nat {
    0xFFFFFFFFFFFFFFFFFFFFFFFFFFFFFFFEBAAEDCE6AF48A03BBFD25E8CD0364141nat
}

/// The bytes are a secret key: 32 bytes whose big-endian value is neither zero
/// nor at least the group order.
pub open spec fn secret_key_bytes_valid(b: Seq<u8>) -> bool {
    b.len() == 32 && 0 < be_value(b) && be_value(b) < curve_order()
}

/// Compressed encoding of the public key of a secret key.
pub uninterp spec fn public_key_of(secret: Seq<u8>) -> Seq<u8>;

/// `PublicKey::from_slice` accepts the bytes.
pub uninterp spec fn public_key_bytes_valid(b: Seq<u8>) -> bool;

/// `Signature::from_compact` accepts the bytes.
pub uninterp spec fn compact_signature_valid(b: Seq<u8>) -> bool;

/// Compact encoding of the ECDSA signature that `sign_ecdsa` makes of a digest
/// with a secret key (deterministic nonces, RFC 6979).
pub uninterp spec fn ecdsa_signature(secret: Seq<u8>, digest: Seq<u8>) -> Seq<u8>;

/// `verify_ecdsa` accepts the signature of the digest under the public key.
pub uninterp spec fn ecdsa_verifies(digest: Seq<u8>, signature: Seq<u8>, public_key: Seq<u8>) -> bool;

/// `SecretKey::new` with the operating system's random source: it draws 32
/// random bytes until they form a secret key. Only the validity of the key is
/// stated; its value is chance.
#[verifier::external_body]
pub(crate) fn random_secret_key() -> (sk: Vec<u8>)
    ensures
        secret_key_bytes_valid(sk@),
{
    secp256k1::SecretKey::new(&mut rand::rngs::OsRng).secret_bytes().to_vec()
}

/// `SecretKey::from_slice(..).is_ok()`: the crate accepts exactly 32 bytes
/// whose value is nonzero and below the group order.
#[verifier::external_body]
pub(crate) fn secret_key_accepts(b: &[u8]) -> (ok: bool)
    ensures
        ok == secret_key_bytes_valid(b@),
{
    secp256k1::SecretKey::from_slice(b).is_ok()
}

/// `PublicKey::from_secret_key(..).serialize()`: the 33-byte compressed public
/// key of a secret key; that encoding is accepted by `PublicKey::from_slice`.
#[verifier::external_body]
pub(crate) fn derive_public_key(secret: &[u8]) -> (pk: Vec<u8>)
    requires
        secret_key_bytes_valid(secret@),
    ensures
        pk@ == public_key_of(secret@),
        pk@.len() == 33,
        public_key_bytes_valid(pk@),
{
    let sk = secp256k1::SecretKey::from_slice(secret).unwrap();
    secp256k1::PublicKey::from_secret_key(&secp256k1::Secp256k1::new(), &sk).serialize().to_vec()
}

/// `Secp256k1::sign_ecdsa(..).serialize_compact()` on a 32-byte digest. The
/// signature is 64 bytes, `Signature::from_compact` accepts it, and
/// `verify_ecdsa` accepts it under the signer's public key (the library only
/// makes lower-S signatures, the only ones that `verify_ecdsa` accepts).
#[verifier::external_body]
pub(crate) fn sign_digest(secret: &[u8], digest: &[u8]) -> (sig: Vec<u8>)
    requires
        secret_key_bytes_valid(secret@),
        digest@.len() == 32,
    ensures
        sig@ == ecdsa_signature(secret@, digest@),
        sig@.len() == 64,
        compact_signature_valid(sig@),
        ecdsa_verifies(digest@, sig@, public_key_of(secret@)),
{
    let sk = secp256k1::SecretKey::from_slice(secret).unwrap();
    let msg = secp256k1::Message::from_digest_slice(digest).unwrap();
    secp256k1::Secp256k1::new().sign_ecdsa(&msg, &sk).serialize_compact().to_vec()
}

/// `PublicKey::from_slice(..).is_ok()`.
#[verifier::external_body]
pub(crate) fn public_key_accepts(b: &[u8]) -> (ok: bool)
    ensures
        ok == public_key_bytes_valid(b@),
{
    secp256k1::PublicKey::from_slice(b).is_ok()
}

/// `ecdsa::Signature::from_compact(..).is_ok()`; it accepts only 64 bytes.
#[verifier::external_body]
pub(crate) fn compact_signature_accepts(b: &[u8]) -> (ok: bool)
    ensures
        ok == compact_signature_valid(b@),
        ok ==> b@.len() == 64,
{
    secp256k1::ecdsa::Signature::from_compact(b).is_ok()
}

/// `Secp256k1::verify_ecdsa(..).is_ok()` on a 32-byte digest, a compact
/// signature and an encoded public key that the crate accepts.
#[verifier::external_body]
pub(crate) fn verify_digest(digest: &[u8], signature: &[u8], public_key: &[u8]) -> (ok: bool)
    requires
        digest@.len() == 32,
        compact_signature_valid(signature@),
        public_key_bytes_valid(public_key@),
    ensures
        ok == ecdsa_verifies(digest@, signature@, public_key@),
{
    let msg = secp256k1::Message::from_digest_slice(digest).unwrap();
    let sig = secp256k1::ecdsa::Signature::from_compact(signature).unwrap();
    let pk = secp256k1::PublicKey::from_slice(public_key).unwrap();
    secp256k1::Secp256k1::new().verify_ecdsa(&msg, &sig, &pk).is_ok()
}


/// The secret key that a hex text of a private key stands for, where it is one.
pub open spec fn secret_of_text(private_key: Seq<char>) -> Option<Seq<u8>> {
    match hex_decoded(private_key) {
        Some(b) => if secret_key_bytes_valid(b) { Some(b) } else { None },
        None => None,
    }
}

/// The hex texts are a private key and its public key (33 bytes, compressed,
/// one that the crate parses back).
pub open spec fn is_key_pair_text(private_key: Seq<char>, public_key: Seq<char>) -> bool {
    match secret_of_text(private_key) {
        Some(sk) => public_key == hex_text(public_key_of(sk)) && public_key_bytes_valid(public_key_of(sk))
            && public_key_of(sk).len() == 33,
        None => false,
    }
}

/// A key pair's texts: 64 hex digits of the private key, 66 of the public
/// key, which decodes to 33 bytes.
pub proof fn lemma_key_pair_lengths(private_key: Seq<char>, public_key: Seq<char>)
    requires
        is_key_pair_text(private_key, public_key),
    ensures
        private_key.len() == 64,
        public_key.len() == 66,
        hex_decoded(public_key) matches Some(pk) && pk.len() == 33,
{
    let sk = secret_of_text(private_key)->0;
    lemma_hex_text_len(public_key_of(sk));
    lemma_hex_roundtrip(public_key_of(sk));
    assert(private_key.len() == 2 * sk.len());
}

/// SHA-256 digest of the UTF-8 bytes of a text: what is signed of it.
pub open spec fn text_digest(data: Seq<char>) -> Seq<u8> {
    sha256_digest(encode_utf8(data))
}

/// Hex of the signature of `data` under the private key written in hex, or
/// `None` when the text is no private key.
pub open spec fn signature_text(private_key: Seq<char>, data: Seq<char>) -> Option<Seq<char>> {
    match secret_of_text(private_key) {
        Some(sk) => Some(hex_text(ecdsa_signature(sk, text_digest(data)))),
        None => None,
    }
}

/// A hex signature of `data` is accepted under a hex public key: both decode,
/// the crate parses both, and the signature verifies.
pub open spec fn signature_text_verifies(data: Seq<char>, signature: Seq<char>, public_key: Seq<char>) -> bool {
    match (hex_decoded(signature), hex_decoded(public_key)) {
        (Some(sig), Some(pk)) => sig.len() == 64 && compact_signature_valid(sig) && public_key_bytes_valid(pk)
            && ecdsa_verifies(text_digest(data), sig, pk),
        _ => false,
    }
}

/// Hex of the public key of the private key written in hex, where it is one.
pub open spec fn public_key_text_of(private_key: Seq<char>) -> Option<Seq<char>> {
    match secret_of_text(private_key) {
        Some(sk) => Some(hex_text(public_key_of(sk))),
        None => None,
    }
}

/// The public key (hex of its compressed encoding) of a private key given in
/// hex, or `None` when the text is no private key. The key parses back.
pub fn public_key_text(private_key: &str) -> (r: Option<String>)
    ensures
        opt_chars(r) == public_key_text_of(private_key@),
        r is Some ==> public_key_bytes_valid(public_key_of(secret_of_text(private_key@)->0))
            && r->0@.len() == 66,
{
    let sk = match hex_decode(private_key) {
        Some(b) => b,
        None => {
            return None;
        },
    };
    if !secret_key_accepts(sk.as_slice()) {
        return None;
    }
    let pk = derive_public_key(sk.as_slice());
    proof {
        lemma_hex_text_len(pk@);
    }
    Some(hex_encode(pk.as_slice()))
}

pub open spec fn opt_chars(s: Option<String>) -> Option<Seq<char>> {
    match s {
        Some(t) => Some(t@),
        None => None,
    }
}

/// A fresh random key pair, as hex texts of the secret key and of the
/// compressed public key.
pub fn generate_key_pair() -> (r: (String, String))
    ensures
        is_key_pair_text(r.0@, r.1@),
        r.0@.len() == 64,
        r.1@.len() == 66,
{
    let sk = random_secret_key();
    let pk = derive_public_key(sk.as_slice());
    let sk_hex = hex_encode(sk.as_slice());
    let pk_hex = hex_encode(pk.as_slice());
    proof {
        lemma_hex_roundtrip(sk@);
        lemma_key_pair_lengths(sk_hex@, pk_hex@);
    }
    (sk_hex, pk_hex)
}

/// Signs `data` with the private key written in hex: SHA-256 of its UTF-8
/// bytes, signed with ECDSA, written as hex of the compact signature. The
/// signature verifies under the key's public key. `None` when the text is no
/// private key.
pub fn sign_text(private_key: &str, data: &str) -> (r: Option<String>)
    ensures
        opt_chars(r) == signature_text(private_key@, data@),
        r matches Some(sig) ==> (public_key_bytes_valid(public_key_of(secret_of_text(private_key@)->0))
            ==> signature_text_verifies(data@, sig@, hex_text(public_key_of(secret_of_text(private_key@)->0)))),
{
    let sk = match hex_decode(private_key) {
        Some(b) => b,
        None => {
            return None;
        },
    };
    if !secret_key_accepts(sk.as_slice()) {
        return None;
    }
    let digest = sha256(data.as_bytes());
    let sig = sign_digest(sk.as_slice(), digest.as_slice());
    let sig_hex = hex_encode(sig.as_slice());
    proof {
        lemma_hex_roundtrip(sig@);
        lemma_hex_roundtrip(public_key_of(sk@));
    }
    Some(sig_hex)
}

/// Whether `signature` (hex) is a valid signature of `data` under
/// `public_key` (hex); `false` where either does not decode or parse.
pub fn verify_text(data: &str, signature: &str, public_key: &str) -> (ok: bool)
    ensures
        ok == signature_text_verifies(data@, signature@, public_key@),
{
    match (hex_decode(signature), hex_decode(public_key)) {
        (Some(sig), Some(pk)) => {
            let digest = sha256(data.as_bytes());
            if !compact_signature_accepts(sig.as_slice()) {
                return false;
            }
            if digest.len() != 32 {
                return false;
            }
            if !public_key_accepts(pk.as_slice()) {
                return false;
            }
            verify_digest(digest.as_slice(), sig.as_slice(), pk.as_slice())
        },
        _ => false,
    }
}

} // verus!
