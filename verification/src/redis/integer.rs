//! Text that may spell an integer.
use vstd::prelude::*;
use vstd::utf8::char_is_scalar;
use vstd::utf8::char_u32_cast;
use vstd::utf8::encode_scalar;
use vstd::utf8::encode_utf8;
use vstd::utf8::is_ascii_chars;
use vstd::utf8::is_ascii_chars_encode_utf8;
use vstd::utf8::is_scalar;

verus! {

/// Whether `c` is one of the ten decimal digits.
pub open spec fn is_digit_char(c: char) -> bool {
    '0' <= c <= '9'
}

/// Whether every character of `digits` is a decimal digit.
pub open spec fn all_digit_chars(digits: Seq<char>) -> bool {
    forall|i: int| 0 <= i < digits.len() ==> is_digit_char(#[trigger] digits[i])
}

/// The number that a run of decimal digits spells.
pub open spec fn decimal_value(digits: Seq<char>) -> nat
    decreases digits.len(),
{
    if digits.len() == 0 {
        0
    } else {
        decimal_value(digits.drop_last()) * 10 + if is_digit_char(digits.last()) {
            (digits.last() as nat - '0' as nat) as nat
        } else {
            0nat
        }
    }
}

/// The text behind a leading `+` or `-`, or all of it where there is no sign.
pub open spec fn unsigned_text(text: Seq<char>) -> Seq<char> {
    if text.len() > 0 && (text[0] == '-' || text[0] == '+') {
        text.skip(1)
    } else {
        text
    }
}

/// The integer that `text` spells: an optional `+` or `-`, then one or more
/// decimal digits and nothing else, with a value that an `i64` can hold.
pub open spec fn spelled_integer(text: Seq<char>) -> Option<i64> {
    let digits = unsigned_text(text);
    let magnitude = decimal_value(digits) as int;
    let value = if text.len() > 0 && text[0] == '-' {
        -magnitude
    } else {
        magnitude
    };
    if digits.len() > 0 && all_digit_chars(digits) && i64::MIN <= value <= i64::MAX {
        Some(value as i64)
    } else {
        None
    }
}

/// Whether `byte` is one of the ten decimal digits.
spec fn is_digit(byte: u8) -> bool {
    0x30 <= byte <= 0x39
}

/// The number that a run of decimal digits spells.
spec fn digits_value(digits: Seq<u8>) -> nat
    decreases digits.len(),
{
    if digits.len() == 0 {
        0
    } else {
        digits_value(digits.drop_last()) * 10 + if is_digit(digits.last()) {
            (digits.last() - 0x30) as nat
        } else {
            0nat
        }
    }
}

/// Whether every byte of `digits` is a decimal digit.
spec fn all_digits(digits: Seq<u8>) -> bool {
    forall|i: int| 0 <= i < digits.len() ==> is_digit(#[trigger] digits[i])
}

/// The bytes behind a leading `+` or `-`, or all of them where there is no sign.
spec fn unsigned_part(bytes: Seq<u8>) -> Seq<u8> {
    if bytes.len() > 0 && (bytes[0] == 0x2d || bytes[0] == 0x2b) {
        bytes.skip(1)
    } else {
        bytes
    }
}

/// The integer that bytes spell.
spec fn parsed_integer(bytes: Seq<u8>) -> Option<i64> {
    let digits = unsigned_part(bytes);
    let magnitude = digits_value(digits) as int;
    let value = if bytes.len() > 0 && bytes[0] == 0x2d {
        -magnitude
    } else {
        magnitude
    };
    if digits.len() > 0 && all_digits(digits) && i64::MIN <= value <= i64::MAX {
        Some(value as i64)
    } else {
        None
    }
}

/// A run of digits spells at least what any of its beginnings spells.
proof fn lemma_digits_value_grows(digits: Seq<u8>, k: int)
    requires
        0 <= k <= digits.len(),
    ensures
        digits_value(digits.take(k)) <= digits_value(digits),
    decreases digits.len(),
{
    if k == digits.len() {
        assert(digits.take(k) == digits);
    } else {
        lemma_digits_value_grows(digits.drop_last(), k);
        assert(digits.drop_last().take(k) == digits.take(k));
    }
}

/// The first byte of an encoded character: the character itself where it is
/// an ASCII character, and a byte above all ASCII bytes where it is not.
proof fn lemma_first_byte(scalar: u32)
    requires
        is_scalar(scalar),
    ensures
        encode_scalar(scalar).len() > 0,
        scalar <= 0x7f ==> encode_scalar(scalar) == seq![scalar as u8],
        scalar > 0x7f ==> encode_scalar(scalar)[0] >= 0x80,
{
    assert(scalar <= 0x7f ==> (scalar & 0x7F) as u8 == scalar as u8) by (bit_vector);
    assert(0xC0u8 | ((scalar >> 6) & 0x1F) as u8 >= 0x80u8) by (bit_vector);
    assert(0xE0u8 | ((scalar >> 12) & 0x0F) as u8 >= 0x80u8) by (bit_vector);
    assert(0xF0u8 | ((scalar >> 18) & 0x7) as u8 >= 0x80u8) by (bit_vector);
}

/// Bytes are all digits exactly where they encode a text of digits, and
/// then there is one byte for each digit.
proof fn lemma_digit_bytes(text: Seq<char>)
    ensures
        all_digits(encode_utf8(text)) <==> all_digit_chars(text),
        all_digit_chars(text) ==> encode_utf8(text).len() == text.len() && forall|i: int|
            0 <= i < text.len() ==> #[trigger] encode_utf8(text)[i] == text[i] as u8,
    decreases text.len(),
{
    if all_digit_chars(text) {
        assert(is_ascii_chars(text)) by {
            assert forall|i: int| 0 <= i < text.len() implies '\0' <= #[trigger] text[i]
                <= '\u{7f}' by {
                assert(is_digit_char(text[i]));
            }
        }
        is_ascii_chars_encode_utf8(text);
        assert forall|i: int| 0 <= i < encode_utf8(text).len() implies is_digit(
            #[trigger] encode_utf8(text)[i],
        ) by {
            assert(is_digit_char(text[i]));
            assert(encode_utf8(text)[i] == text[i] as u8);
        }
    }
    if text.len() > 0 && all_digits(encode_utf8(text)) {
        let first = encode_scalar(text[0] as u32);
        let rest = text.drop_first();
        let tail = encode_utf8(rest);
        char_is_scalar(text[0]);
        lemma_first_byte(text[0] as u32);
        assert(encode_utf8(text) == first + tail);
        assert((first + tail)[0] == first[0]);
        assert(is_digit(first[0]));
        let scalar = text[0] as u32;
        assert(scalar <= 0x7f);
        assert(first[0] == scalar as u8);
        assert(0x30 <= scalar <= 0x39);
        char_u32_cast(text[0], scalar);
        assert(text[0] == scalar as char);
        assert('0' <= scalar as char);
        assert(is_digit_char(text[0]));
        assert forall|i: int| 0 <= i < tail.len() implies is_digit(#[trigger] tail[i]) by {
            assert((first + tail)[first.len() + i] == tail[i]);
        }
        lemma_digit_bytes(rest);
        assert forall|i: int| 0 <= i < text.len() implies is_digit_char(#[trigger] text[i]) by {
            if i > 0 {
                assert(rest[i - 1] == text[i]);
            }
        }
    }
}

/// Digits spell the same number as characters and as bytes.
proof fn lemma_digits_value(digits: Seq<char>, bytes: Seq<u8>)
    requires
        all_digit_chars(digits),
        bytes.len() == digits.len(),
        forall|i: int| 0 <= i < digits.len() ==> #[trigger] bytes[i] == digits[i] as u8,
    ensures
        digits_value(bytes) == decimal_value(digits),
    decreases digits.len(),
{
    if digits.len() > 0 {
        let last = digits.len() - 1;
        assert(is_digit_char(digits[last]));
        assert(bytes[last] == digits[last] as u8);
        assert forall|i: int| 0 <= i < digits.drop_last().len() implies is_digit_char(
            #[trigger] digits.drop_last()[i],
        ) by {
            assert(digits.drop_last()[i] == digits[i]);
        }
        assert forall|i: int| 0 <= i < digits.drop_last().len() implies #[trigger] bytes.drop_last()[i]
            == digits.drop_last()[i] as u8 by {
            assert(bytes.drop_last()[i] == bytes[i]);
            assert(digits.drop_last()[i] == digits[i]);
        }
        lemma_digits_value(digits.drop_last(), bytes.drop_last());
    }
}

/// A text spells the integer that its UTF-8 bytes spell.
proof fn lemma_spelled_by_bytes(text: Seq<char>)
    ensures
        parsed_integer(encode_utf8(text)) == spelled_integer(text),
{
    let bytes = encode_utf8(text);
    if text.len() > 0 {
        let first = encode_scalar(text[0] as u32);
        let rest = text.drop_first();
        let tail = encode_utf8(rest);
        char_is_scalar(text[0]);
        lemma_first_byte(text[0] as u32);
        assert(bytes == first + tail);
        assert(bytes[0] == first[0]);
        assert(text.skip(1) == rest);
        if text[0] == '-' || text[0] == '+' {
            assert(bytes.skip(1) == tail);
            lemma_digit_bytes(rest);
            if all_digit_chars(rest) {
                lemma_digits_value(rest, tail);
            }
        } else {
            assert(bytes[0] != 0x2d && bytes[0] != 0x2b) by {
                if text[0] as u32 <= 0x7f {
                    char_u32_cast(text[0], text[0] as u32);
                    char_u32_cast('-', 0x2du32);
                    char_u32_cast('+', 0x2bu32);
                }
            }
            lemma_digit_bytes(text);
            if all_digit_chars(text) {
                lemma_digits_value(text, bytes);
            }
        }
    }
}

/// The integer that `text` spells in decimal, or nothing where it spells
/// none or one that an `i64` cannot hold.
pub fn parse_integer(text: &str) -> (value: Option<i64>)
    ensures
        value == spelled_integer(text@),
{
    proof {
        lemma_spelled_by_bytes(text@);
    }
    let bytes = text.as_bytes();
    let n = bytes.len();
    if n == 0 {
        return None;
    }
    let negative = bytes[0] == 0x2d;
    let start: usize = if bytes[0] == 0x2d || bytes[0] == 0x2b {
        1
    } else {
        0
    };
    if start == n {
        return None;
    }
    let limit: u64 = if negative {
        0x8000_0000_0000_0000
    } else {
        0x7fff_ffff_ffff_ffff
    };
    let ghost digits = unsigned_part(bytes@);
    let mut magnitude: u64 = 0;
    let mut i: usize = start;
    proof {
        assert(bytes@.skip(0) == bytes@);
        assert(digits.take(0) == Seq::<u8>::empty());
    }
    while i < n
        invariant
            start <= i <= n,
            n == bytes@.len(),
            bytes@ == encode_utf8(text@),
            parsed_integer(encode_utf8(text@)) == spelled_integer(text@),
            negative == (bytes@[0] == 0x2d),
            start == if bytes@[0] == 0x2d || bytes@[0] == 0x2b {
                1usize
            } else {
                0usize
            },
            digits == unsigned_part(bytes@),
            digits == bytes@.skip(start as int),
            limit == if negative {
                0x8000_0000_0000_0000u64
            } else {
                0x7fff_ffff_ffff_ffffu64
            },
            magnitude <= limit,
            magnitude == digits_value(digits.take(i - start)),
            forall|j: int| 0 <= j < i - start ==> is_digit(#[trigger] digits[j]),
        decreases n - i,
    {
        let byte = bytes[i];
        if byte < 0x30 || byte > 0x39 {
            proof {
                assert(digits[i - start] == byte);
                assert(!all_digits(digits));
            }
            return None;
        }
        let next: u128 = magnitude as u128 * 10 + (byte - 0x30) as u128;
        proof {
            let longer = digits.take(i - start + 1);
            assert(longer.drop_last() == digits.take(i - start));
            assert(longer.last() == byte);
            assert(digits_value(longer) == next);
        }
        if next > limit as u128 {
            proof {
                lemma_digits_value_grows(digits, i - start + 1);
            }
            return None;
        }
        magnitude = next as u64;
        i += 1;
    }
    proof {
        assert(digits.take(n - start) == digits);
        assert(all_digits(digits));
    }
    if negative {
        if magnitude == 0x8000_0000_0000_0000 {
            Some(i64::MIN)
        } else {
            Some(0 - (magnitude as i64))
        }
    } else {
        Some(magnitude as i64)
    }
}

} // verus!
