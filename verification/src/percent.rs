//! Percent-encoding of slugs and percent-decoding of titles.
//!
//! Both work on the UTF-8 bytes of a string. Encoding escapes every byte
//! that is not URL-safe as `%XX`, with upper-case hexadecimal digits;
//! decoding turns every `%` that two hexadecimal digits follow back into a
//! byte. The `percent-encoding` crate provides the escape of one byte and
//! the decoder.

use vstd::prelude::*;
use vstd::utf8::*;

verus! {

// ----------------------------------------------------------------------
// Encoding
// ----------------------------------------------------------------------
/// The ASCII bytes that are escaped: the control characters, the space,
/// and the punctuation
/// ``! " # $ % & ' ( ) * + , . / : ; < = > ? @ [ \ ] ^ ` { | } ~``.
/// Letters, digits, the dash and the underscore are not among them.
pub open spec fn spec_is_url_unsafe(b: u8) -> bool {
    ||| b <= 0x1f
    ||| b == 0x7f
    ||| b == 0x20  // space
    ||| b == 0x21  // !
    ||| b == 0x22  // "
    ||| b == 0x23  // #
    ||| b == 0x24  // $
    ||| b == 0x25  // %
    ||| b == 0x26  // &
    ||| b == 0x27  // '
    ||| b == 0x28  // (
    ||| b == 0x29  // )
    ||| b == 0x2a  // *
    ||| b == 0x2b  // +
    ||| b == 0x2c  // ,
    ||| b == 0x2e  // .
    ||| b == 0x2f  // /
    ||| b == 0x3a  // :
    ||| b == 0x3b  // ;
    ||| b == 0x3c  // <
    ||| b == 0x3d  // =
    ||| b == 0x3e  // >
    ||| b == 0x3f  // ?
    ||| b == 0x40  // @
    ||| b == 0x5b  // [
    ||| b == 0x5c  // \
    ||| b == 0x5d  // ]
    ||| b == 0x5e  // ^
    ||| b == 0x60  // `
    ||| b == 0x7b  // {
    ||| b == 0x7c  // |
    ||| b == 0x7d  // }
    ||| b == 0x7e  // ~
}

#[verifier::when_used_as_spec(spec_is_url_unsafe)]
pub fn is_url_unsafe(b: u8) -> (r: bool)
    ensures
        r == spec_is_url_unsafe(b),
{
    b <= 0x1f || b == 0x7f || (0x20 <= b && b <= 0x2c) || b == 0x2e || b == 0x2f || (0x3a <= b
        && b <= 0x40) || (0x5b <= b && b <= 0x5e) || b == 0x60 || (0x7b <= b && b <= 0x7e)
}

/// Whether a byte of UTF-8 text is escaped: every byte of a non-ASCII
/// character is, and every ASCII byte that is not URL-safe.
pub open spec fn spec_is_escaped(b: u8) -> bool {
    b >= 0x80 || is_url_unsafe(b)
}

#[verifier::when_used_as_spec(spec_is_escaped)]
pub fn is_escaped(b: u8) -> (r: bool)
    ensures
        r == spec_is_escaped(b),
{
    b >= 0x80 || is_url_unsafe(b)
}

/// The upper-case hexadecimal digit for `n < 16`.
pub open spec fn hex_upper(n: u8) -> char {
    if n < 10 {
        (n + 0x30) as char
    } else {
        (n + 0x37) as char
    }
}

/// The escape of one byte: `%` and its two upper-case hexadecimal digits.
pub open spec fn escape(b: u8) -> Seq<char> {
    seq!['%', hex_upper(b / 16), hex_upper(b % 16)]
}

/// `percent_encode_byte` gives the three characters `%XX` for a byte, `XX`
/// being its value in upper-case hexadecimal.
pub assume_specification[ percent_encoding::percent_encode_byte ](byte: u8) -> (r: &'static str)
    ensures
        r@ == escape(byte),
;

/// What one byte becomes in encoded text.
pub open spec fn encoded_byte(b: u8) -> Seq<char> {
    if is_escaped(b) {
        escape(b)
    } else {
        seq![b as char]
    }
}

/// The encoding of a sequence of bytes, byte by byte.
pub open spec fn encoded_bytes(bytes: Seq<u8>) -> Seq<char>
    decreases bytes.len(),
{
    if bytes.len() == 0 {
        Seq::empty()
    } else {
        encoded_bytes(bytes.drop_last()) + encoded_byte(bytes.last())
    }
}

/// The percent-encoding of `text`: that of its UTF-8 bytes.
pub open spec fn percent_encoded(text: Seq<char>) -> Seq<char> {
    encoded_bytes(encode_utf8(text))
}

/// Percent-encodes the UTF-8 bytes of `text`, leaving ASCII letters,
/// digits, dashes and underscores as they are.
pub fn percent_encode(text: &str) -> (out: String)
    ensures
        out@ == percent_encoded(text@),
{
    let bytes = text.as_bytes();
    let mut out = String::new();
    let mut i: usize = 0;
    while i < bytes.len()
        invariant
            i <= bytes.len(),
            out@ == encoded_bytes(bytes@.take(i as int)),
        decreases bytes.len() - i,
    {
        let b = bytes[i];
        proof {
            assert(bytes@.take(i + 1).drop_last() =~= bytes@.take(i as int));
        }
        if is_escaped(b) {
            out.append(percent_encoding::percent_encode_byte(b));
        } else {
            out.push(b as char);
            assert(out@ =~= encoded_bytes(bytes@.take(i as int)) + seq![b as char]);
        }
        i += 1;
    }
    assert(bytes@.take(bytes@.len() as int) =~= bytes@);
    out
}

// ----------------------------------------------------------------------
// Decoding
// ----------------------------------------------------------------------
/// Whether `b` is an ASCII hexadecimal digit, of either case.
pub open spec fn is_hex_digit(b: u8) -> bool {
    (0x30 <= b <= 0x39) || (0x41 <= b <= 0x46) || (0x61 <= b <= 0x66)
}

/// The value of a hexadecimal digit.
pub open spec fn hex_value(b: u8) -> u8 {
    if b <= 0x39 {
        (b - 0x30) as u8
    } else if b <= 0x46 {
        (b - 0x37) as u8
    } else {
        (b - 0x57) as u8
    }
}

/// The percent-decoding of a sequence of bytes: every `%` that two
/// hexadecimal digits follow stands for the byte they spell; every other
/// byte, a `%` without two such digits too, stands for itself.
pub open spec fn percent_decoded(bytes: Seq<u8>) -> Seq<u8>
    decreases bytes.len(),
{
    if bytes.len() == 0 {
        bytes
    } else if bytes[0] == 0x25 && bytes.len() >= 3 && is_hex_digit(bytes[1]) && is_hex_digit(
        bytes[2],
    ) {
        seq![(hex_value(bytes[1]) * 16 + hex_value(bytes[2])) as u8] + percent_decoded(
            bytes.skip(3),
        )
    } else {
        seq![bytes[0]] + percent_decoded(bytes.skip(1))
    }
}

/// The text that percent-encoded `text` stands for: its percent-decoded
/// bytes read as UTF-8, or `None` where they are not well-formed UTF-8.
pub open spec fn decoded_text(text: Seq<char>) -> Option<Seq<char>> {
    let bytes = percent_decoded(encode_utf8(text));
    if valid_utf8(bytes) {
        Some(decode_utf8(bytes))
    } else {
        None
    }
}

/// Calls `percent_decode_str` on `input` and `decode_utf8` on what it
/// returns.
///
/// Trusted: the first percent-decodes the UTF-8 bytes of `input` as
/// [`percent_decoded`] says; the second gives their text where they are
/// well-formed UTF-8 and an error where they are not.
#[verifier::external_body]
fn percent_decode_utf8(input: &str) -> (r: Option<String>)
    ensures
        r is Some <==> decoded_text(input@) is Some,
        r matches Some(text) ==> Some(text@) == decoded_text(input@),
{
    match percent_encoding::percent_decode_str(input).decode_utf8() {
        Ok(text) => Some(text.into_owned()),
        Err(_) => None,
    }
}

/// Percent-decodes `text` and reads the result as UTF-8. Gives `None`
/// where the decoded bytes are not well-formed UTF-8.
pub fn percent_decode(text: &str) -> (r: Option<String>)
    ensures
        match r {
            Some(decoded) => decoded_text(text@) == Some(decoded@),
            None => decoded_text(text@) is None,
        },
{
    percent_decode_utf8(text)
}

// ----------------------------------------------------------------------
// Facts about encoding and decoding
// ----------------------------------------------------------------------
/// The UTF-8 bytes of joined text are the joined UTF-8 bytes.
pub proof fn lemma_encode_utf8_concat(a: Seq<char>, b: Seq<char>)
    ensures
        encode_utf8(a + b) == encode_utf8(a) + encode_utf8(b),
    decreases a.len(),
{
    if a.len() == 0 {
        assert(a + b =~= b);
        assert(encode_utf8(a) + encode_utf8(b) =~= encode_utf8(b));
    } else {
        assert((a + b).drop_first() =~= a.drop_first() + b);
        lemma_encode_utf8_concat(a.drop_first(), b);
        assert(encode_utf8(a + b) =~= encode_utf8(a) + encode_utf8(b));
    }
}

/// Bytes are encoded one by one.
pub proof fn lemma_encoded_bytes_concat(a: Seq<u8>, b: Seq<u8>)
    ensures
        encoded_bytes(a + b) == encoded_bytes(a) + encoded_bytes(b),
    decreases b.len(),
{
    if b.len() == 0 {
        assert(a + b =~= a);
        assert(encoded_bytes(a) + encoded_bytes(b) =~= encoded_bytes(a));
    } else {
        assert((a + b).drop_last() =~= a + b.drop_last());
        lemma_encoded_bytes_concat(a, b.drop_last());
        assert(encoded_bytes(a + b) =~= encoded_bytes(a) + encoded_bytes(b));
    }
}

/// The encoding of joined text is the joined encoding.
pub proof fn lemma_percent_encoded_concat(a: Seq<char>, b: Seq<char>)
    ensures
        percent_encoded(a + b) == percent_encoded(a) + percent_encoded(b),
{
    lemma_encode_utf8_concat(a, b);
    lemma_encoded_bytes_concat(encode_utf8(a), encode_utf8(b));
}

/// Bytes that need no escape are encoded as the characters they are.
pub proof fn lemma_encoded_plain(bytes: Seq<u8>)
    requires
        forall|i: int| 0 <= i < bytes.len() ==> !is_escaped(#[trigger] bytes[i]),
    ensures
        encoded_bytes(bytes).len() == bytes.len(),
        forall|i: int| 0 <= i < bytes.len() ==> #[trigger] encoded_bytes(bytes)[i] == bytes[i] as char,
    decreases bytes.len(),
{
    if bytes.len() > 0 {
        let init = bytes.drop_last();
        assert forall|i: int| 0 <= i < init.len() implies !is_escaped(#[trigger] init[i]) by {
            assert(init[i] == bytes[i]);
        }
        lemma_encoded_plain(init);
        assert(!is_escaped(bytes[bytes.len() - 1]));
        assert forall|i: int| 0 <= i < bytes.len() implies #[trigger] encoded_bytes(bytes)[i]
            == bytes[i] as char by {
            if i < init.len() {
                assert(encoded_bytes(bytes)[i] == encoded_bytes(init)[i]);
                assert(init[i] == bytes[i]);
            }
        }
    }
}

/// Whether `c` is an ASCII character that needs no escape: a letter, a
/// digit, the dash or the underscore.
pub open spec fn is_plain(c: char) -> bool {
    c <= '\u{7f}' && !is_escaped(c as u8)
}

/// No character comes before U+0000.
proof fn lemma_char_is_not_negative(c: char)
    ensures
        '\0' <= c,
{
}

/// Text of ASCII letters, digits, dashes and underscores is its own
/// encoding.
pub proof fn lemma_percent_encoded_plain(text: Seq<char>)
    requires
        forall|i: int| 0 <= i < text.len() ==> is_plain(#[trigger] text[i]),
    ensures
        percent_encoded(text) == text,
{
    assert forall|i: int| 0 <= i < text.len() implies '\0' <= #[trigger] text[i] <= '\u{7f}' by {
        assert(is_plain(text[i]));
        lemma_char_is_not_negative(text[i]);
    }
    assert(is_ascii_chars(text));
    is_ascii_chars_encode_utf8(text);
    let bytes = encode_utf8(text);
    assert forall|i: int| 0 <= i < bytes.len() implies !is_escaped(#[trigger] bytes[i]) by {
        assert(is_plain(text[i]));
        assert(bytes[i] == text[i] as u8);
    }
    lemma_encoded_plain(bytes);
    assert forall|i: int| 0 <= i < text.len() implies percent_encoded(text)[i] == text[i] by {
        assert(is_plain(text[i]));
        assert(bytes[i] == text[i] as u8);
    }
    assert(percent_encoded(text) =~= text);
}

/// Every byte of the UTF-8 encoding of a character that is not ASCII has
/// its high bit set, and so is escaped.
pub proof fn lemma_bytes_of_non_ascii(c: char)
    requires
        c > '\u{7f}',
    ensures
        encode_scalar(c as u32).len() > 0,
        forall|i: int|
            0 <= i < encode_scalar(c as u32).len() ==> #[trigger] encode_scalar(c as u32)[i]
                >= 0x80,
{
    let s = c as u32;
    assert(forall|x: u8| #![auto] (0xC0u8 | x) >= 0x80) by (bit_vector);
    assert(forall|x: u8| #![auto] (0xE0u8 | x) >= 0x80) by (bit_vector);
    assert(forall|x: u8| #![auto] (0xF0u8 | x) >= 0x80) by (bit_vector);
    assert(forall|x: u8| #![auto] (0x80u8 | x) >= 0x80) by (bit_vector);
    assert(leading_byte_width_2(s) >= 0x80);
    assert(leading_byte_width_3(s) >= 0x80);
    assert(leading_byte_width_4(s) >= 0x80);
    assert(last_continuation_byte(s) >= 0x80);
    assert(second_last_continuation_byte(s) >= 0x80);
    assert(third_last_continuation_byte(s) >= 0x80);
}

/// Hexadecimal digits spell the value they were written from.
proof fn lemma_hex_round_trip(n: u8)
    requires
        n < 16,
    ensures
        hex_upper(n) <= '\u{7f}',
        is_hex_digit(hex_upper(n) as u8),
        hex_value(hex_upper(n) as u8) == n,
{
}

/// Decoding undoes encoding, on bytes.
pub proof fn lemma_decode_of_encoded_bytes(bytes: Seq<u8>)
    ensures
        percent_decoded(encode_utf8(encoded_bytes(bytes))) == bytes,
    decreases bytes.len(),
{
    if bytes.len() > 0 {
        let b = bytes[0];
        let rest = bytes.skip(1);
        let unit = encoded_byte(b);
        let tail = encode_utf8(encoded_bytes(rest));
        lemma_decode_of_encoded_bytes(rest);
        assert(bytes =~= seq![b] + rest);
        lemma_encoded_bytes_concat(seq![b], rest);
        assert(seq![b].drop_last() =~= Seq::<u8>::empty());
        assert(encoded_bytes(Seq::<u8>::empty()) =~= Seq::<char>::empty());
        assert(encoded_bytes(seq![b]) =~= unit);
        lemma_encode_utf8_concat(unit, encoded_bytes(rest));
        let whole = encode_utf8(unit) + tail;
        assert(encode_utf8(encoded_bytes(bytes)) == whole);
        lemma_hex_round_trip(b / 16);
        lemma_hex_round_trip(b % 16);
        assert(is_ascii_chars(unit));
        is_ascii_chars_encode_utf8(unit);
        if is_escaped(b) {
            assert(unit.len() == 3);
            assert(whole[0] == 0x25 && whole[1] == encode_utf8(unit)[1] && whole[2]
                == encode_utf8(unit)[2]);
            assert(whole[1] == hex_upper(b / 16) as u8 && whole[2] == hex_upper(b % 16) as u8);
            assert(whole.skip(3) =~= tail);
            assert((hex_value(whole[1]) * 16 + hex_value(whole[2])) as u8 == b);
        } else {
            assert(unit.len() == 1);
            assert(whole[0] == b);
            assert(whole.skip(1) =~= tail);
        }
        assert(percent_decoded(whole) =~= seq![b] + rest);
    }
}

/// Decoding undoes encoding: the encoding of any text decodes, and to that
/// text.
pub proof fn lemma_percent_round_trip(text: Seq<char>)
    ensures
        decoded_text(percent_encoded(text)) == Some(text),
{
    lemma_decode_of_encoded_bytes(encode_utf8(text));
    encode_utf8_valid_utf8(text);
    encode_utf8_decode_utf8(text);
}

} // verus!
