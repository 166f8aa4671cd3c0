//! Content digests.
//!
//! Every file is identified by the SHA-256 of its contents, rendered as 64
//! lowercase hexadecimal characters.  The digest is the stable identifier
//! peers use to request a file and to confirm its integrity.

use vstd::prelude::*;
use vstd::utf8::{encode_utf8, is_ascii_chars};

verus! {

/// The SHA-256 digest of a byte sequence, as lowercase hexadecimal
/// characters.  A function of the bytes alone; no short statement can give
/// its value, so it is named and carried by [`digest_hex`]'s contract.
pub uninterp spec fn sha256_hex(data: Seq<u8>) -> Seq<char>;

/// The character is a lowercase hexadecimal digit.
pub open spec fn is_lower_hex_char(c: char) -> bool {
    ('0' <= c && c <= '9') || ('a' <= c && c <= 'f')
}

/// A well-formed rendered digest: exactly 64 lowercase hex characters.
pub open spec fn is_hex_digest(s: Seq<char>) -> bool {
    s.len() == 64 && forall|i: int| 0 <= i < s.len() ==> is_lower_hex_char(#[trigger] s[i])
}

/// Relies on sha256::digest: the SHA-256 of the bytes as a string of 64
/// lowercase hexadecimal characters, a function of the bytes alone.
#[verifier::external_body]
pub fn digest_hex(data: &Vec<u8>) -> (r: String)
    ensures
        r@ == sha256_hex(data@),
        is_hex_digest(r@),
{
    sha256::digest(data.as_slice())
}

/// Hex digits are ASCII, so a digest's UTF-8 bytes mirror its characters:
/// 64 bytes, each a hex digit's code, none of them the `':'` separator.
pub proof fn lemma_hex_digest_bytes(s: Seq<char>)
    requires
        is_hex_digest(s),
    ensures
        encode_utf8(s).len() == 64,
        forall|i: int| 0 <= i < 64 ==> #[trigger] encode_utf8(s)[i] == s[i] as u8,
        forall|i: int|
            0 <= i < 64 ==> (48 <= #[trigger] encode_utf8(s)[i] <= 57 || 97 <= encode_utf8(s)[i]
                <= 102),
{
    assert(is_ascii_chars(s)) by {
        assert forall|i: int| 0 <= i < s.len() implies '\0' <= #[trigger] s[i] <= '\u{7f}' by {
            assert(is_lower_hex_char(s[i]));
        }
    }
    vstd::utf8::is_ascii_chars_encode_utf8(s);
    assert forall|i: int|
        0 <= i < 64 implies (48 <= #[trigger] encode_utf8(s)[i] <= 57 || 97 <= encode_utf8(s)[i]
        <= 102) by {
        assert(encode_utf8(s)[i] == s[i] as u8);
        assert(is_lower_hex_char(s[i]));
    }
}

} // verus!
