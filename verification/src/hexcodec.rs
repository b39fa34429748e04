//! Lower-case hexadecimal encoding of bytes, through the `hex` crate.

use vstd::prelude::*;
use crate::text::digit_char;

verus! {

/// Lower-case hexadecimal text of `bytes`: two digits per byte, high nibble first.
pub open spec fn hex_text(bytes: Seq<u8>) -> Seq<char>
    decreases bytes.len(),
{
    if bytes.len() == 0 {
        Seq::empty()
    } else {
        seq![digit_char((bytes[0] / 16) as int), digit_char((bytes[0] % 16) as int)]
            + hex_text(bytes.drop_first())
    }
}

/// Value of a hexadecimal digit in either case, or `None`.
pub open spec fn hex_value(c: char) -> Option<int> {
    if '0' <= c && c <= '9' {
        Some(c as int - '0' as int)
    } else if 'a' <= c && c <= 'f' {
        Some(c as int - 'a' as int + 10)
    } else if 'A' <= c && c <= 'F' {
        Some(c as int - 'A' as int + 10)
    } else {
        None
    }
}

/// `c` is an ASCII hexadecimal digit (`char::is_ascii_hexdigit`).
pub open spec fn is_hex_char(c: char) -> bool {
    hex_value(c) is Some
}

/// What decoding the hexadecimal text `s` gives: `None` unless it has an even
/// number of characters, all of them hexadecimal digits.
pub open spec fn hex_decoded(s: Seq<char>) -> Option<Seq<u8>> {
    if s.len() % 2 == 0 && (forall|i: int| 0 <= i < s.len() ==> #[trigger] is_hex_char(s[i])) {
        Some(Seq::new((s.len() / 2) as nat, |i: int| (hex_value(s[2 * i])->0 * 16 + hex_value(s[2 * i + 1])->0) as u8))
    } else {
        None
    }
}

/// `hex::encode`: the lower-case hexadecimal text of the bytes.
#[verifier::external_body]
pub(crate) fn hex_encode(bytes: &[u8]) -> (s: String)
    ensures
        s@ == hex_text(bytes@),
{
    hex::encode(bytes)
}

/// `hex::decode` on the bytes of a string: the decoded bytes, or `None` where
/// the crate reports an odd length or a character that is no hexadecimal digit.
#[verifier::external_body]
pub(crate) fn hex_decode(s: &str) -> (r: Option<Vec<u8>>)
    ensures
        match r {
            Some(v) => hex_decoded(s@) == Some(v@),
            None => hex_decoded(s@) is None,
        },
{
    hex::decode(s).ok()
}

/// Each byte takes two characters.
pub proof fn lemma_hex_text_len(bytes: Seq<u8>)
    ensures
        hex_text(bytes).len() == 2 * bytes.len(),
    decreases bytes.len(),
{
    if bytes.len() > 0 {
        lemma_hex_text_len(bytes.drop_first());
    }
}

/// The characters at `2i` and `2i + 1` write the two nibbles of byte `i`.
pub proof fn lemma_hex_text_index(bytes: Seq<u8>, i: int)
    requires
        0 <= i < bytes.len(),
    ensures
        hex_text(bytes).len() == 2 * bytes.len(),
        hex_text(bytes)[2 * i] == digit_char((bytes[i] / 16) as int),
        hex_text(bytes)[2 * i + 1] == digit_char((bytes[i] % 16) as int),
    decreases bytes.len(),
{
    lemma_hex_text_len(bytes);
    if i > 0 {
        lemma_hex_text_index(bytes.drop_first(), i - 1);
    }
}

/// Digits are read back as their values.
pub proof fn lemma_digit_value(d: int)
    requires
        0 <= d < 16,
    ensures
        hex_value(digit_char(d)) == Some(d),
        is_hex_char(digit_char(d)),
{
}

/// Every character of an encoding is a hexadecimal digit.
pub proof fn lemma_hex_text_chars(bytes: Seq<u8>)
    ensures
        forall|j: int| 0 <= j < hex_text(bytes).len() ==> #[trigger] is_hex_char(hex_text(bytes)[j]),
{
    lemma_hex_text_len(bytes);
    assert forall|j: int| 0 <= j < hex_text(bytes).len() implies #[trigger] is_hex_char(hex_text(bytes)[j]) by {
        let i = j / 2;
        lemma_hex_text_index(bytes, i);
        lemma_digit_value((bytes[i] / 16) as int);
        lemma_digit_value((bytes[i] % 16) as int);
        assert(j == 2 * i || j == 2 * i + 1);
    }
}

/// Decoding an encoding gives the bytes back.
pub proof fn lemma_hex_roundtrip(bytes: Seq<u8>)
    ensures
        hex_decoded(hex_text(bytes)) == Some(bytes),
{
    let s = hex_text(bytes);
    lemma_hex_text_len(bytes);
    lemma_hex_text_chars(bytes);
    assert(s.len() % 2 == 0);
    let d = hex_decoded(s)->0;
    assert forall|i: int| 0 <= i < bytes.len() implies #[trigger] d[i] == bytes[i] by {
        lemma_hex_text_index(bytes, i);
        lemma_digit_value((bytes[i] / 16) as int);
        lemma_digit_value((bytes[i] % 16) as int);
    }
    assert(d =~= bytes);
}


/// Whether `c` is an ASCII hexadecimal digit (`char::is_ascii_hexdigit`).
pub fn is_hex_digit(c: char) -> (r: bool)
    ensures
        r == is_hex_char(c),
{
    ('0' <= c && c <= '9') || ('a' <= c && c <= 'f') || ('A' <= c && c <= 'F')
}

} // verus!
