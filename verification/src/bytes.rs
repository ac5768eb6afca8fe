//! Characters and the bytes that encode them.

use vstd::prelude::*;
use vstd::utf8::{char_is_scalar, encode_scalar, encode_utf8, is_ascii_chars};

verus! {

/// Number of bytes that the UTF-8 encoding of `s` takes.
pub open spec fn byte_count(s: Seq<char>) -> nat {
    encode_utf8(s).len()
}

/// A character takes one byte in UTF-8 exactly when it is ASCII, and at
/// most four bytes otherwise.
pub proof fn lemma_encoded_width(c: char)
    ensures
        1 <= encode_scalar(c as u32).len() <= 4,
        encode_scalar(c as u32).len() == 1 <==> '\0' <= c <= '\u{7f}',
{
    char_is_scalar(c);
}

/// A text has at most as many characters as bytes, and exactly as many
/// when every character is ASCII, and only then.
pub proof fn lemma_chars_le_bytes(s: Seq<char>)
    ensures
        s.len() <= byte_count(s),
        s.len() == byte_count(s) <==> is_ascii_chars(s),
    decreases s.len(),
{
    if s.len() > 0 {
        let rest = s.drop_first();
        lemma_chars_le_bytes(rest);
        lemma_encoded_width(s[0]);
        assert(encode_utf8(s).len() == encode_scalar(s[0] as u32).len() + encode_utf8(rest).len());
        if is_ascii_chars(s) {
            assert('\0' <= s[0] <= '\u{7f}');
            assert forall|i: int| 0 <= i < rest.len() implies '\0' <= #[trigger] rest[i]
                <= '\u{7f}' by {
                assert(rest[i] == s[i + 1]);
            }
        }
        if '\0' <= s[0] <= '\u{7f}' && is_ascii_chars(rest) {
            assert forall|i: int| 0 <= i < s.len() implies '\0' <= #[trigger] s[i] <= '\u{7f}' by {
                if i > 0 {
                    assert(s[i] == rest[i - 1]);
                }
            }
        }
    }
}

} // verus!
