//! How texts are written in URLs and in JSON.

use vstd::prelude::*;

verus! {

/// The bytes that stand for themselves in a URL: ASCII letters and digits, `-`, `.`, `_` and `~`.
pub open spec fn is_unreserved(b: u8) -> bool {
    ||| 'a' as u8 <= b <= 'z' as u8
    ||| 'A' as u8 <= b <= 'Z' as u8
    ||| '0' as u8 <= b <= '9' as u8
    ||| b == '-' as u8
    ||| b == '.' as u8
    ||| b == '_' as u8
    ||| b == '~' as u8
}

/// The hexadecimal digit that writes `n`.
pub open spec fn hex_digit(n: int) -> u8 {
    if n < 10 {
        ('0' as u8 + n) as u8
    } else {
        ('A' as u8 + n - 10) as u8
    }
}

/// The number that a hexadecimal digit writes.
pub open spec fn hex_value(b: u8) -> Option<int> {
    if '0' as u8 <= b <= '9' as u8 {
        Some(b - '0' as u8)
    } else if 'A' as u8 <= b <= 'F' as u8 {
        Some(b - 'A' as u8 + 10)
    } else if 'a' as u8 <= b <= 'f' as u8 {
        Some(b - 'a' as u8 + 10)
    } else {
        None
    }
}

/// How a byte is written in a URL.
pub open spec fn encoded_byte(b: u8) -> Seq<u8> {
    if is_unreserved(b) {
        seq![b]
    } else {
        seq!['%' as u8, hex_digit(b as int / 16), hex_digit(b as int % 16)]
    }
}

/// How bytes are written in a URL.
pub open spec fn encoded_bytes(bytes: Seq<u8>) -> Seq<u8>
    decreases bytes.len(),
{
    if bytes.len() == 0 {
        Seq::empty()
    } else {
        encoded_byte(bytes[0]) + encoded_bytes(bytes.skip(1))
    }
}

/// How a text is written in a URL: each byte of its UTF-8 form that is not unreserved as `%` and
/// two hexadecimal digits.
pub open spec fn percent_encoded(text: Seq<char>) -> Seq<char> {
    encoded_bytes(vstd::utf8::encode_utf8(text)).map_values(|b: u8| b as char)
}

/// The bytes start with `%` and two hexadecimal digits.
pub open spec fn starts_encoded(bytes: Seq<u8>) -> bool {
    &&& bytes.len() >= 3
    &&& bytes[0] == '%' as u8
    &&& hex_value(bytes[1]) is Some
    &&& hex_value(bytes[2]) is Some
}

/// The bytes with each `%` and two hexadecimal digits replaced by the byte that they write. A `%`
/// without them stands for itself.
pub open spec fn decoded_bytes(bytes: Seq<u8>) -> Seq<u8>
    decreases bytes.len(),
{
    if bytes.len() == 0 {
        Seq::empty()
    } else if starts_encoded(bytes) {
        seq![(hex_value(bytes[1])->0 * 16 + hex_value(bytes[2])->0) as u8] + decoded_bytes(
            bytes.skip(3),
        )
    } else {
        seq![bytes[0]] + decoded_bytes(bytes.skip(1))
    }
}

/// The text that is written in a URL, if the bytes that are written are UTF-8.
pub open spec fn percent_decoded(text: Seq<char>) -> Option<Seq<char>> {
    let bytes = decoded_bytes(vstd::utf8::encode_utf8(text));
    if vstd::utf8::valid_utf8(bytes) {
        Some(vstd::utf8::decode_utf8(bytes))
    } else {
        None
    }
}

/// How a character is written in a JSON string.
pub open spec fn json_escaped(c: char) -> Seq<char> {
    if c == '"' || c == '\\' {
        seq!['\\', c]
    } else if c == '\u{8}' {
        seq!['\\', 'b']
    } else if c == '\t' {
        seq!['\\', 't']
    } else if c == '\n' {
        seq!['\\', 'n']
    } else if c == '\u{c}' {
        seq!['\\', 'f']
    } else if c == '\r' {
        seq!['\\', 'r']
    } else if ' ' > c {
        let low = c as int % 16;
        seq![
            '\\',
            'u',
            '0',
            '0',
            if c as int / 16 == 0 {
                '0'
            } else {
                '1'
            },
            if low < 10 {
                ('0' as int + low) as char
            } else {
                ('a' as int + low - 10) as char
            },
        ]
    } else {
        seq![c]
    }
}

/// A text as a JSON string: in quotes, with quotes, backslashes and control characters escaped.
pub open spec fn json_string(text: Seq<char>) -> Seq<char> {
    seq!['"'] + text.map_values(|c: char| json_escaped(c)).flatten() + seq!['"']
}

proof fn lemma_encoded_byte(b: u8)
    ensures
        forall|i: int|
            0 <= i < encoded_byte(b).len() ==> (is_unreserved(#[trigger] encoded_byte(b)[i])
                || encoded_byte(b)[i] == '%' as u8),
        !is_unreserved(b) ==> hex_value(encoded_byte(b)[1]) == Some(b as int / 16) && hex_value(
            encoded_byte(b)[2],
        ) == Some(b as int % 16),
{
}

proof fn lemma_encoded_bytes_safe(bytes: Seq<u8>)
    ensures
        forall|i: int|
            0 <= i < encoded_bytes(bytes).len() ==> is_unreserved(
                #[trigger] encoded_bytes(bytes)[i],
            ) || encoded_bytes(bytes)[i] == '%' as u8,
    decreases bytes.len(),
{
    if bytes.len() > 0 {
        lemma_encoded_byte(bytes[0]);
        lemma_encoded_bytes_safe(bytes.skip(1));
        let n = encoded_byte(bytes[0]).len() as int;
        assert forall|i: int| 0 <= i < encoded_bytes(bytes).len() implies is_unreserved(
            #[trigger] encoded_bytes(bytes)[i],
        ) || encoded_bytes(bytes)[i] == '%' as u8 by {
            if i < n {
                assert(encoded_bytes(bytes)[i] == encoded_byte(bytes[0])[i]);
            } else {
                assert(encoded_bytes(bytes)[i] == encoded_bytes(bytes.skip(1))[i - n]);
            }
        }
    }
}

proof fn lemma_bytes_read_back(bytes: Seq<u8>)
    ensures
        decoded_bytes(encoded_bytes(bytes)) == bytes,
    decreases bytes.len(),
{
    if bytes.len() > 0 {
        let written = encoded_bytes(bytes);
        let rest = encoded_bytes(bytes.skip(1));
        let b = bytes[0];
        lemma_encoded_byte(b);
        lemma_bytes_read_back(bytes.skip(1));
        if is_unreserved(b) {
            assert(written[0] == b);
            assert(written.skip(1) =~= rest);
        } else {
            assert(written[0] == '%' as u8);
            assert(written[1] == encoded_byte(b)[1] && written[2] == encoded_byte(b)[2]);
            assert(written.skip(3) =~= rest);
        }
        assert(decoded_bytes(written) =~= seq![b] + bytes.skip(1));
        assert(seq![b] + bytes.skip(1) =~= bytes);
    }
}

/// A text that was encoded for a URL decodes to itself. The encoded text holds unreserved
/// characters only, and `%`.
pub proof fn encoded_text_reads_back(text: Seq<char>)
    ensures
        percent_decoded(percent_encoded(text)) == Some(text),
        forall|i: int|
            0 <= i < percent_encoded(text).len() ==> (#[trigger] percent_encoded(text)[i]) as u32
                <= 127 && (is_unreserved(percent_encoded(text)[i] as u8) || percent_encoded(text)[i]
                == '%'),
{
    let bytes = vstd::utf8::encode_utf8(text);
    let written = encoded_bytes(bytes);
    let chars = percent_encoded(text);
    lemma_encoded_bytes_safe(bytes);
    lemma_bytes_read_back(bytes);
    assert forall|i: int| 0 <= i < chars.len() implies (#[trigger] chars[i]) as u32 <= 127
        && chars[i] as u8 == written[i] && (is_unreserved(chars[i] as u8) || chars[i] == '%') by {
        assert(chars[i] == written[i] as char);
    }
    vstd::utf8::is_ascii_chars_encode_utf8(chars);
    assert(vstd::utf8::encode_utf8(chars) =~= written);
    vstd::utf8::encode_utf8_valid_utf8(text);
    vstd::utf8::encode_utf8_decode_utf8(text);
}

proof fn lemma_scalar_without(c: char, b: u8)
    requires
        b <= 127,
        c as u32 != b,
    ensures
        !vstd::utf8::encode_scalar(c as u32).contains(b),
{
    let s = c as u32;
    vstd::utf8::char_is_scalar(c);
    let bytes = vstd::utf8::encode_scalar(s);
    if vstd::utf8::has_width_1_encoding(s) {
        assert((s & 0x7F) as u8 == s) by (bit_vector)
            requires
                s <= 0x7F,
        ;
    } else {
        assert(0xC0u8 | ((s >> 6) & 0x1F) as u8 >= 128) by (bit_vector);
        assert(0xE0u8 | ((s >> 12) & 0x0F) as u8 >= 128) by (bit_vector);
        assert(0xF0u8 | ((s >> 18) & 0x7) as u8 >= 128) by (bit_vector);
        assert(0x80u8 | (s & 0x3F) as u8 >= 128) by (bit_vector);
        assert(0x80u8 | ((s >> 6) & 0x3F) as u8 >= 128) by (bit_vector);
        assert(0x80u8 | ((s >> 12) & 0x3F) as u8 >= 128) by (bit_vector);
        assert forall|i: int| 0 <= i < bytes.len() implies bytes[i] >= 128 by {}
    }
}

proof fn lemma_utf8_without_percent(text: Seq<char>)
    requires
        !text.contains('%'),
    ensures
        !vstd::utf8::encode_utf8(text).contains('%' as u8),
    decreases text.len(),
{
    if text.len() > 0 {
        let rest = text.drop_first();
        assert(text.contains(text[0]));
        assert forall|i: int| 0 <= i < rest.len() implies rest[i] != '%' by {
            assert(text.contains(text[i + 1]));
        }
        vstd::utf8::char_is_scalar(text[0]);
        vstd::utf8::char_u32_cast(text[0], text[0] as u32);
        lemma_scalar_without(text[0], '%' as u8);
        lemma_utf8_without_percent(rest);
        let first = vstd::utf8::encode_scalar(text[0] as u32);
        let others = vstd::utf8::encode_utf8(rest);
        assert forall|i: int| 0 <= i < (first + others).len() implies (first + others)[i]
            != '%' as u8 by {
            if i < first.len() {
                assert(first.contains(first[i]));
            } else {
                assert(others.contains(others[i - first.len()]));
            }
        }
    }
}

proof fn lemma_bytes_stay(bytes: Seq<u8>)
    requires
        !bytes.contains('%' as u8),
    ensures
        decoded_bytes(bytes) == bytes,
    decreases bytes.len(),
{
    if bytes.len() > 0 {
        let rest = bytes.skip(1);
        assert(bytes.contains(bytes[0]));
        assert forall|i: int| 0 <= i < rest.len() implies rest[i] != '%' as u8 by {
            assert(bytes.contains(bytes[i + 1]));
        }
        lemma_bytes_stay(rest);
        assert(seq![bytes[0]] + rest =~= bytes);
    }
}

/// A text without `%` decodes to itself.
pub proof fn plain_text_stays(text: Seq<char>)
    requires
        !text.contains('%'),
    ensures
        percent_decoded(text) == Some(text),
{
    lemma_utf8_without_percent(text);
    lemma_bytes_stay(vstd::utf8::encode_utf8(text));
    vstd::utf8::encode_utf8_valid_utf8(text);
    vstd::utf8::encode_utf8_decode_utf8(text);
}

/// In a URL the ASCII letters and digits, `-`, `.`, `_` and `~` stand for themselves. Every other
/// byte is `%` and its two digits in base sixteen, in upper case.
pub proof fn bytes_are_encoded(b: u8)
    ensures
        (48 <= b <= 57 || 65 <= b <= 90 || 97 <= b <= 122 || b == 45 || b == 46 || b == 95 || b
            == 126) ==> encoded_byte(b) == seq![b],
        !(48 <= b <= 57 || 65 <= b <= 90 || 97 <= b <= 122 || b == 45 || b == 46 || b == 95 || b
            == 126) ==> {
            let written = encoded_byte(b);
            let digits = "0123456789ABCDEF"@;
            &&& written.len() == 3
            &&& written[0] == 37
            &&& written[1] == digits[b as int / 16] as u8
            &&& written[2] == digits[b as int % 16] as u8
        },
{
    reveal_strlit("0123456789ABCDEF");
}

/// A `%` and two digits in base sixteen, in upper or in lower case, stand for the byte that they
/// write; the first byte of anything else stands for itself.
pub proof fn digits_are_decoded(high: u8, low: u8, rest: Seq<u8>, first: u8)
    requires
        high < 16,
        low < 16,
    ensures
        ({
            let upper = "0123456789ABCDEF"@;
            let lower = "0123456789abcdef"@;
            let byte = (high * 16 + low) as u8;
            &&& decoded_bytes(seq![37u8, upper[high as int] as u8, upper[low as int] as u8] + rest)
                == seq![byte] + decoded_bytes(rest)
            &&& decoded_bytes(seq![37u8, lower[high as int] as u8, lower[low as int] as u8] + rest)
                == seq![byte] + decoded_bytes(rest)
        }),
        first != 37 ==> decoded_bytes(seq![first] + rest) == seq![first] + decoded_bytes(rest),
{
    reveal_strlit("0123456789ABCDEF");
    reveal_strlit("0123456789abcdef");
    let upper = "0123456789ABCDEF"@;
    let lower = "0123456789abcdef"@;
    let a = seq![37u8, upper[high as int] as u8, upper[low as int] as u8] + rest;
    let b = seq![37u8, lower[high as int] as u8, lower[low as int] as u8] + rest;
    let c = seq![first] + rest;
    assert(a.skip(3) =~= rest);
    assert(b.skip(3) =~= rest);
    assert(c.skip(1) =~= rest);
    assert(a[1] == upper[high as int] as u8 && a[2] == upper[low as int] as u8);
    assert(b[1] == lower[high as int] as u8 && b[2] == lower[low as int] as u8);
    assert(hex_value(a[1]) == Some(high as int) && hex_value(a[2]) == Some(low as int));
    assert(hex_value(b[1]) == Some(high as int) && hex_value(b[2]) == Some(low as int));
}

/// In a JSON string a quote and a backslash stand behind a backslash, a control character is a
/// backslash and its letter, or `u` and four digits in base sixteen, and every other character
/// stands for itself.
pub proof fn characters_are_escaped(c: char)
    ensures
        c == '"' || c == '\\' ==> json_escaped(c) == seq!['\\', c],
        c as u32 == 8 ==> json_escaped(c) == seq!['\\', 'b'],
        c as u32 == 9 ==> json_escaped(c) == seq!['\\', 't'],
        c as u32 == 10 ==> json_escaped(c) == seq!['\\', 'n'],
        c as u32 == 12 ==> json_escaped(c) == seq!['\\', 'f'],
        c as u32 == 13 ==> json_escaped(c) == seq!['\\', 'r'],
        (c as u32) < 32 && !(8 <= c as u32 <= 10) && c as u32 != 12 && c as u32 != 13 ==> {
            let digits = "0123456789abcdef"@;
            json_escaped(c) == seq![
                '\\',
                'u',
                '0',
                '0',
                digits[c as int / 16],
                digits[c as int % 16],
            ]
        },
        c as u32 >= 32 && c != '"' && c != '\\' ==> json_escaped(c) == seq![c],
{
    reveal_strlit("0123456789abcdef");
}

} // verus!
