//! SHA-256 and RIPEMD-160 digests, through the `sha2` and `ripemd` crates.

use vstd::prelude::*;
use vstd::utf8::encode_utf8;
use crate::hexcodec::{hex_encode, hex_text};

verus! {

/// The SHA-256 digest of a byte string.
pub uninterp spec fn sha256_digest(data: Seq<u8>) -> Seq<u8>;

/// The RIPEMD-160 digest of a byte string.
pub uninterp spec fn ripemd160_digest(data: Seq<u8>) -> Seq<u8>;

/// `Sha256::digest` (sha2): the 32-byte digest of `data`. The contract names
/// the digest and states its length; the algorithm itself is not stated.
#[verifier::external_body]
pub(crate) fn sha256(data: &[u8]) -> (d: Vec<u8>)
    ensures
        d@ == sha256_digest(data@),
        d@.len() == 32,
{
    <sha2::Sha256 as sha2::Digest>::digest(data).to_vec()
}

/// `Ripemd160::digest` (ripemd): the 20-byte digest of `data`. The contract
/// names the digest and states its length; the algorithm itself is not stated.
#[verifier::external_body]
pub(crate) fn ripemd160(data: &[u8]) -> (d: Vec<u8>)
    ensures
        d@ == ripemd160_digest(data@),
        d@.len() == 20,
{
    <ripemd::Ripemd160 as ripemd::Digest>::digest(data).to_vec()
}

/// Lower-case hex of the SHA-256 digest of the UTF-8 bytes of `text`.
pub open spec fn text_hash(text: Seq<char>) -> Seq<char> {
    hex_text(sha256_digest(encode_utf8(text)))
}

/// SHA-256 of the UTF-8 bytes of `text`, written in lower-case hex.
pub fn sha256_hex(text: &str) -> (h: String)
    ensures
        h@ == text_hash(text@),
        h@.len() == 64,
{
    let d = sha256(text.as_bytes());
    proof {
        crate::hexcodec::lemma_hex_text_len(d@);
    }
    hex_encode(d.as_slice())
}

} // verus!
