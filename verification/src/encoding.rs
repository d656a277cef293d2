//! Bytes as text: the two decoders of the standard library that sources use.

use vstd::prelude::*;
use vstd::utf8::*;

verus! {

/// What `String::from_utf8` says of `bytes` when it rejects them: the text of
/// its error, as `Display` writes it.
pub uninterp spec fn utf8_error_text(bytes: Seq<u8>) -> Seq<char>;

/// `String::from_utf8`: succeeds exactly on well-formed UTF-8, and then gives
/// the text that the bytes encode. The error is handed on as its text, which
/// depends on the bytes alone.
#[verifier::external_body]
pub(crate) fn from_utf8(bytes: Vec<u8>) -> (result: Result<String, String>)
    ensures
        result is Ok <==> valid_utf8(bytes@),
        result matches Ok(text) ==> text@ == decode_utf8(bytes@),
        result matches Err(error) ==> error@ == utf8_error_text(bytes@),
{
    match String::from_utf8(bytes) {
        Ok(text) => Ok(text),
        Err(error) => Err(error.to_string()),
    }
}

/// What `String::from_utf8_lossy` makes of `bytes`: the text in which
/// replacement characters stand for what is not well-formed UTF-8.
pub uninterp spec fn lossy_text(bytes: Seq<u8>) -> Seq<char>;

/// `String::from_utf8_lossy`: the result depends on the bytes alone, and
/// well-formed UTF-8 is decoded without any replacement.
#[verifier::external_body]
pub(crate) fn from_utf8_lossy(bytes: &Vec<u8>) -> (text: String)
    ensures
        text@ == lossy_text(bytes@),
        valid_utf8(bytes@) ==> text@ == decode_utf8(bytes@),
{
    String::from_utf8_lossy(bytes).into_owned()
}

/// The UTF-8 encoding of a character holds no zero byte unless the character
/// is NUL.
proof fn lemma_scalar_without_nul(c: char)
    requires
        c != '\0',
    ensures
        !encode_scalar(c as u32).contains(0u8),
        encode_scalar(c as u32).len() > 0,
{
    char_is_scalar(c);
    let s = c as u32;
    assert(s != 0);
    assert(s <= 0x7F && s != 0 ==> (s & 0x7F) as u8 != 0) by (bit_vector);
    assert(0xC0 | ((s >> 6) & 0x1F) as u8 != 0) by (bit_vector);
    assert(0xE0 | ((s >> 12) & 0x0F) as u8 != 0) by (bit_vector);
    assert(0xF0 | ((s >> 18) & 0x7) as u8 != 0) by (bit_vector);
    assert(0x80 | (s & 0x3F) as u8 != 0) by (bit_vector);
    assert(0x80 | ((s >> 6) & 0x3F) as u8 != 0) by (bit_vector);
    assert(0x80 | ((s >> 12) & 0x3F) as u8 != 0) by (bit_vector);
}

/// A text without NUL is encoded without zero bytes, and a non-empty text as a
/// non-empty sequence of bytes.
pub proof fn lemma_encoded_without_nul(text: Seq<char>)
    requires
        !text.contains('\0'),
    ensures
        !encode_utf8(text).contains(0u8),
        text.len() > 0 ==> encode_utf8(text).len() > 0,
    decreases text.len(),
{
    if text.len() > 0 {
        assert(text[0] != '\0');
        lemma_scalar_without_nul(text[0]);
        let rest = text.drop_first();
        assert forall|i: int| 0 <= i < rest.len() implies rest[i] != '\0' by {
            assert(rest[i] == text[i + 1]);
        }
        lemma_encoded_without_nul(rest);
        let head = encode_scalar(text[0] as u32);
        let all = head + encode_utf8(rest);
        assert forall|i: int| 0 <= i < all.len() implies all[i] != 0u8 by {
            if i < head.len() {
                assert(head.contains(head[i]));
            } else {
                assert(encode_utf8(rest).contains(encode_utf8(rest)[i - head.len()]));
            }
        }
    }
}

} // verus!
