//! Text on its way to the host and back: NUL-terminated buffers, and bytes
//! that have to be UTF-8 to become text.
use vstd::prelude::*;
use vstd::string::StrSliceExecFns;
use vstd::utf8::char_u32_cast;
use vstd::utf8::decode_utf8;
use vstd::utf8::encode_scalar;
use vstd::utf8::encode_utf8;
use vstd::utf8::valid_utf8;

verus! {

/// The bytes that a failed `String::from_utf8` keeps in its error: the ones it
/// was given.
pub uninterp spec fn utf8_error_bytes(err: std::string::FromUtf8Error) -> Seq<u8>;

/// The UTF-8 bytes of `text`, followed by a NUL byte.
pub open spec fn nul_terminated(text: Seq<char>) -> Seq<u8> {
    encode_utf8(text).push(0u8)
}

/// The text that `bytes` spell in UTF-8, if they spell one.
pub open spec fn decoded(bytes: Seq<u8>) -> Option<Seq<char>> {
    if valid_utf8(bytes) {
        Some(decode_utf8(bytes))
    } else {
        None
    }
}

/// The buffer that the host reads `text` from where it expects a C string.
pub fn c_string(text: &str) -> (buf: Vec<u8>)
    ensures
        buf@ == nul_terminated(text@),
{
    let mut buf = text.as_bytes_vec();
    buf.push(0u8);
    buf
}

/// `String::from_utf8`: the text that the bytes spell when they are valid
/// UTF-8, and otherwise an error that holds the same bytes.
#[verifier::external_body]
pub(crate) fn from_byte_string(byte_str: Vec<u8>) -> (res: Result<String, std::string::FromUtf8Error>)
    ensures
        match res {
            Ok(text) => decoded(byte_str@) == Some(text@),
            Err(err) => decoded(byte_str@) is None && utf8_error_bytes(err) == byte_str@,
        },
{
    String::from_utf8(byte_str)
}

/// Whether `text` can travel as a C string: it holds no NUL character.
pub open spec fn no_nul(text: Seq<char>) -> bool {
    forall|i: int| 0 <= i < text.len() ==> #[trigger] text[i] != '\0'
}

/// Whether none of `bytes` is zero.
spec fn no_zero_byte(bytes: Seq<u8>) -> bool {
    forall|i: int| 0 <= i < bytes.len() ==> #[trigger] bytes[i] != 0u8
}

/// Only the scalar zero has a zero byte in its encoding.
proof fn lemma_scalar_zero_byte(scalar: u32)
    ensures
        no_zero_byte(encode_scalar(scalar)) <==> scalar != 0,
{
    let bytes = encode_scalar(scalar);
    assert(scalar <= 0x7F ==> ((scalar & 0x7F) as u8 == 0u8 <==> scalar == 0)) by (bit_vector);
    assert(0xC0u8 | ((scalar >> 6) & 0x1F) as u8 != 0u8) by (bit_vector);
    assert(0xE0u8 | ((scalar >> 12) & 0x0F) as u8 != 0u8) by (bit_vector);
    assert(0xF0u8 | ((scalar >> 18) & 0x7) as u8 != 0u8) by (bit_vector);
    assert(0x80u8 | (scalar & 0x3F) as u8 != 0u8) by (bit_vector);
    assert(0x80u8 | ((scalar >> 6) & 0x3F) as u8 != 0u8) by (bit_vector);
    assert(0x80u8 | ((scalar >> 12) & 0x3F) as u8 != 0u8) by (bit_vector);
    if scalar == 0 {
        assert(bytes[0] == 0u8);
    }
}

/// A text has a zero byte in its UTF-8 encoding exactly where it holds a NUL
/// character.
proof fn lemma_zero_bytes_are_nul_characters(text: Seq<char>)
    ensures
        no_zero_byte(encode_utf8(text)) <==> no_nul(text),
    decreases text.len(),
{
    if text.len() > 0 {
        let first = encode_scalar(text[0] as u32);
        let rest = text.drop_first();
        let tail = encode_utf8(rest);
        lemma_scalar_zero_byte(text[0] as u32);
        lemma_zero_bytes_are_nul_characters(rest);
        assert(encode_utf8(text) == first + tail);
        assert(text[0] as u32 == 0 <==> text[0] == '\0') by {
            char_u32_cast('\0', 0u32);
            if text[0] as u32 == 0 {
                char_u32_cast(text[0], 0u32);
            }
        }
        if no_zero_byte(first + tail) {
            assert forall|i: int| 0 <= i < first.len() implies #[trigger] first[i] != 0u8 by {
                assert((first + tail)[i] == first[i]);
            }
            assert forall|i: int| 0 <= i < tail.len() implies #[trigger] tail[i] != 0u8 by {
                assert((first + tail)[first.len() + i] == tail[i]);
            }
            assert forall|i: int| 0 <= i < text.len() implies #[trigger] text[i] != '\0' by {
                if i > 0 {
                    assert(rest[i - 1] == text[i]);
                }
            }
        }
        if no_nul(text) {
            assert forall|i: int| 0 <= i < rest.len() implies #[trigger] rest[i] != '\0' by {
                assert(rest[i] == text[i + 1]);
            }
            assert(text[0] != '\0');
        }
    }
}

/// Tells whether `text` can travel as a C string.
pub fn is_c_text(text: &str) -> (clean: bool)
    ensures
        clean == no_nul(text@),
{
    let bytes = text.as_bytes();
    let mut i: usize = 0;
    proof {
        lemma_zero_bytes_are_nul_characters(text@);
    }
    while i < bytes.len()
        invariant
            i <= bytes@.len(),
            bytes@ == encode_utf8(text@),
            no_zero_byte(encode_utf8(text@)) <==> no_nul(text@),
            forall|j: int| 0 <= j < i ==> #[trigger] bytes@[j] != 0u8,
        decreases bytes@.len() - i,
    {
        if bytes[i] == 0u8 {
            return false;
        }
        i += 1;
    }
    true
}

} // verus!
