//! Percent-decoding of URI components.

use vstd::prelude::*;
use vstd::utf8::*;
use crate::text::{ascii_lower, ascii_lower_seq, lemma_ascii_lower_seq_index};

verus! {

/// The value of `b` as a hexadecimal digit, if it is one (`0-9`, `a-f`, `A-F`).
pub open spec fn hex_digit_value(b: u8) -> Option<u8> {
    if 48 <= b && b <= 57 {
        Some((b - 48) as u8)
    } else if 97 <= b && b <= 102 {
        Some((b - 87) as u8)
    } else if 65 <= b && b <= 70 {
        Some((b - 55) as u8)
    } else {
        None
    }
}

/// The bytes `b` with every `%` followed by two hexadecimal digits replaced
/// by the byte those digits spell; every other byte is kept.
pub open spec fn percent_decode_bytes(b: Seq<u8>) -> Seq<u8>
    decreases b.len(),
{
    if b.len() == 0 {
        b
    } else if b[0] == 37 && 2 < b.len() && hex_digit_value(b[1]) is Some && hex_digit_value(
        b[2],
    ) is Some {
        seq![(hex_digit_value(b[1]).unwrap() * 16 + hex_digit_value(b[2]).unwrap()) as u8]
            + percent_decode_bytes(b.skip(3))
    } else {
        seq![b[0]] + percent_decode_bytes(b.skip(1))
    }
}

/// What `String::from_utf8_lossy` makes of a byte sequence that is not valid
/// UTF-8 (each maximal invalid part becomes U+FFFD).
pub uninterp spec fn spec_from_utf8_lossy(bytes: Seq<u8>) -> Seq<char>;

/// The text that the bytes spell: their UTF-8 decoding when they are valid
/// UTF-8, and otherwise what `String::from_utf8_lossy` gives.
pub open spec fn lossy_text(bytes: Seq<u8>) -> Seq<char> {
    if valid_utf8(bytes) {
        decode_utf8(bytes)
    } else {
        spec_from_utf8_lossy(bytes)
    }
}

/// The percent-decoding of `s`: its UTF-8 bytes decoded as above, read back
/// as UTF-8 with invalid parts replaced.
pub open spec fn spec_percent_decode(s: Seq<char>) -> Seq<char> {
    lossy_text(percent_decode_bytes(encode_utf8(s)))
}

/// Wraps `String::from_utf8_lossy` (made owned). Its result is named
/// `spec_from_utf8_lossy`; of it the contract states that valid UTF-8 is
/// decoded exactly, as the documentation of the function says.
#[verifier::external_body]
fn utf8_lossy(bytes: &[u8]) -> (res: String)
    ensures
        res@ == spec_from_utf8_lossy(bytes@),
        valid_utf8(bytes@) ==> res@ == decode_utf8(bytes@),
{
    String::from_utf8_lossy(bytes).into_owned()
}

/// The value of a hexadecimal digit.
pub fn hex(value: u8) -> (r: Option<u8>)
    ensures
        r == hex_digit_value(value),
{
    if 48 <= value && value <= 57 {
        Some(value - 48)
    } else if 97 <= value && value <= 102 {
        Some(value - 87)
    } else if 65 <= value && value <= 70 {
        Some(value - 55)
    } else {
        None
    }
}

/// Decodes the `%XX` escapes of a byte sequence.
pub fn decode_percent_escapes(bytes: &[u8]) -> (res: Vec<u8>)
    ensures
        res@ == percent_decode_bytes(bytes@),
{
    let mut decoded: Vec<u8> = Vec::new();
    let mut index: usize = 0;
    assert(bytes@.skip(0) == bytes@);
    assert(decoded@ + percent_decode_bytes(bytes@) == percent_decode_bytes(bytes@));
    while index < bytes.len()
        invariant
            index <= bytes@.len(),
            decoded@ + percent_decode_bytes(bytes@.skip(index as int)) == percent_decode_bytes(
                bytes@,
            ),
        decreases bytes.len() - index,
    {
        let ghost rest = bytes@.skip(index as int);
        assert(rest[0] == bytes@[index as int]);
        if bytes[index] == 37 && 2 < bytes.len() - index {
            assert(rest[1] == bytes@[index + 1] && rest[2] == bytes@[index + 2]);
            let high = hex(bytes[index + 1]);
            let low = hex(bytes[index + 2]);
            if let (Some(high), Some(low)) = (high, low) {
                assert(rest.skip(3) == bytes@.skip(index + 3));
                decoded.push(high * 16 + low);
                index = index + 3;
                continue;
            }
        }
        assert(rest.skip(1) == bytes@.skip(index + 1));
        decoded.push(bytes[index]);
        index = index + 1;
    }
    assert(bytes@.skip(index as int).len() == 0);
    decoded
}

/// A byte sequence without `%` is left as it is.
pub proof fn lemma_decode_without_percent(b: Seq<u8>)
    requires
        !b.contains(37u8),
    ensures
        percent_decode_bytes(b) == b,
    decreases b.len(),
{
    if b.len() > 0 {
        assert(b[0] != 37u8) by {
            assert(b.contains(b[0]));
        }
        assert(!b.skip(1).contains(37u8)) by {
            if b.skip(1).contains(37u8) {
                let k = choose|k: int| 0 <= k < b.skip(1).len() && b.skip(1)[k] == 37u8;
                assert(b[k + 1] == 37u8);
            }
        }
        lemma_decode_without_percent(b.skip(1));
        assert(seq![b[0]] + b.skip(1) == b);
    }
}

proof fn lemma_multibyte_not_percent(x: u8)
    by (bit_vector)
    ensures
        (0xC0u8 | x) != 37u8,
        (0xE0u8 | x) != 37u8,
        (0xF0u8 | x) != 37u8,
        (0x80u8 | x) != 37u8,
{
}

/// The UTF-8 encoding of text without `%` holds no `%` byte.
pub proof fn lemma_encode_without_percent(s: Seq<char>)
    requires
        !s.contains('%'),
    ensures
        !encode_utf8(s).contains(37u8),
    decreases s.len(),
{
    if s.len() > 0 {
        assert(s[0] != '%') by {
            assert(s.contains(s[0]));
        }
        assert(!s.drop_first().contains('%')) by {
            if s.drop_first().contains('%') {
                let k = choose|k: int| 0 <= k < s.drop_first().len() && s.drop_first()[k] == '%';
                assert(s[k + 1] == '%');
            }
        }
        lemma_encode_without_percent(s.drop_first());
        let c = s[0] as u32;
        let head = encode_scalar(c);
        assert(!head.contains(37u8)) by {
            if has_width_1_encoding(c) {
                assert((c & 0x7F) == c) by (bit_vector)
                    requires
                        c <= 0x7F,
                ;
                assert(head[0] == c as u8);
                if c == 37 {
                    char_u32_cast(s[0], c);
                    assert(s[0] == (37u32 as char));
                    assert(('%' as u32) == 37);
                    char_u32_cast('%', 37u32);
                }
            } else if has_width_2_encoding(c) {
                lemma_multibyte_not_percent(((c >> 6) & 0x1F) as u8);
                lemma_multibyte_not_percent((c & 0x3F) as u8);
            } else if has_width_3_encoding(c) {
                lemma_multibyte_not_percent(((c >> 12) & 0x0F) as u8);
                lemma_multibyte_not_percent(((c >> 6) & 0x3F) as u8);
                lemma_multibyte_not_percent((c & 0x3F) as u8);
            } else {
                lemma_multibyte_not_percent(((c >> 18) & 0x7) as u8);
                lemma_multibyte_not_percent(((c >> 12) & 0x3F) as u8);
                lemma_multibyte_not_percent(((c >> 6) & 0x3F) as u8);
                lemma_multibyte_not_percent((c & 0x3F) as u8);
            }
        }
        let tail = encode_utf8(s.drop_first());
        assert(encode_utf8(s) == head + tail);
        if (head + tail).contains(37u8) {
            let k = choose|k: int| 0 <= k < (head + tail).len() && (head + tail)[k] == 37u8;
            if k < head.len() {
                assert(head[k] == 37u8);
                assert(head.contains(37u8));
            } else {
                assert(tail[k - head.len()] == 37u8);
                assert(tail.contains(37u8));
            }
        }
    }
}

/// Text without `%` is its own percent-decoding.
pub proof fn lemma_percent_decode_identity(s: Seq<char>)
    requires
        !s.contains('%'),
    ensures
        spec_percent_decode(s) == s,
{
    lemma_encode_without_percent(s);
    lemma_decode_without_percent(encode_utf8(s));
    encode_utf8_valid_utf8(s);
    encode_utf8_decode_utf8(s);
}

/// The sixteen hexadecimal digits, in order, with upper-case or lower-case
/// letters.
pub open spec fn hex_digit_chars(upper: bool) -> Seq<char> {
    if upper {
        seq!['0', '1', '2', '3', '4', '5', '6', '7', '8', '9', 'A', 'B', 'C', 'D', 'E', 'F']
    } else {
        seq!['0', '1', '2', '3', '4', '5', '6', '7', '8', '9', 'a', 'b', 'c', 'd', 'e', 'f']
    }
}

/// Every byte of `b` written as `%` and its two hexadecimal digits.
pub open spec fn percent_encoding(b: Seq<u8>, upper: bool) -> Seq<char>
    decreases b.len(),
{
    if b.len() == 0 {
        Seq::empty()
    } else {
        seq![
            '%',
            hex_digit_chars(upper)[(b[0] / 16) as int],
            hex_digit_chars(upper)[(b[0] % 16) as int],
        ] + percent_encoding(b.skip(1), upper)
    }
}

proof fn lemma_hex_digit_chars(upper: bool, v: int)
    requires
        0 <= v < 16,
    ensures
        '\0' <= hex_digit_chars(upper)[v] <= '\u{7f}',
        hex_digit_value(hex_digit_chars(upper)[v] as u8) == Some(v as u8),
{
    let d = hex_digit_chars(upper);
    if upper {
        assert(d[0] == '0' && d[1] == '1' && d[2] == '2' && d[3] == '3' && d[4] == '4');
        assert(d[5] == '5' && d[6] == '6' && d[7] == '7' && d[8] == '8' && d[9] == '9');
        assert(d[10] == 'A' && d[11] == 'B' && d[12] == 'C' && d[13] == 'D' && d[14] == 'E'
            && d[15] == 'F');
    } else {
        assert(d[0] == '0' && d[1] == '1' && d[2] == '2' && d[3] == '3' && d[4] == '4');
        assert(d[5] == '5' && d[6] == '6' && d[7] == '7' && d[8] == '8' && d[9] == '9');
        assert(d[10] == 'a' && d[11] == 'b' && d[12] == 'c' && d[13] == 'd' && d[14] == 'e'
            && d[15] == 'f');
    }
}

proof fn lemma_percent_encoding_ascii(b: Seq<u8>, upper: bool)
    ensures
        is_ascii_chars(percent_encoding(b, upper)),
        percent_encoding(b, upper).len() == 3 * b.len(),
    decreases b.len(),
{
    if b.len() > 0 {
        let rest = percent_encoding(b.skip(1), upper);
        let hi = (b[0] / 16) as int;
        let lo = (b[0] % 16) as int;
        lemma_percent_encoding_ascii(b.skip(1), upper);
        lemma_hex_digit_chars(upper, hi);
        lemma_hex_digit_chars(upper, lo);
        let head = seq!['%', hex_digit_chars(upper)[hi], hex_digit_chars(upper)[lo]];
        assert(is_ascii_chars(head));
        assert(percent_encoding(b, upper) == head + rest);
        assert forall|i| 0 <= i < (head + rest).len() implies '\0' <= #[trigger] (head
            + rest)[i] <= '\u{7f}' by {
            if i >= 3 {
                assert((head + rest)[i] == rest[i - 3]);
            }
        }
    }
}

proof fn lemma_decode_encoding(e: Seq<u8>, b: Seq<u8>, upper: bool)
    requires
        e.len() == percent_encoding(b, upper).len(),
        forall|i| 0 <= i < e.len() ==> #[trigger] e[i] == percent_encoding(b, upper)[i] as u8,
    ensures
        percent_decode_bytes(e) == b,
    decreases b.len(),
{
    lemma_percent_encoding_ascii(b, upper);
    if b.len() > 0 {
        let pe = percent_encoding(b, upper);
        let rest = percent_encoding(b.skip(1), upper);
        let hi = (b[0] / 16) as int;
        let lo = (b[0] % 16) as int;
        lemma_hex_digit_chars(upper, hi);
        lemma_hex_digit_chars(upper, lo);
        let head = seq!['%', hex_digit_chars(upper)[hi], hex_digit_chars(upper)[lo]];
        assert(pe == head + rest);
        assert(e[0] == 37u8) by {
            assert(pe[0] == '%');
        }
        assert(hex_digit_value(e[1]) == Some(hi as u8)) by {
            assert(pe[1] == hex_digit_chars(upper)[hi]);
        }
        assert(hex_digit_value(e[2]) == Some(lo as u8)) by {
            assert(pe[2] == hex_digit_chars(upper)[lo]);
        }
        lemma_percent_encoding_ascii(b.skip(1), upper);
        assert forall|i| 0 <= i < e.skip(3).len() implies #[trigger] e.skip(3)[i] == rest[i] as u8 by {
            assert(e.skip(3)[i] == e[i + 3]);
            assert(pe[i + 3] == rest[i]);
        }
        lemma_decode_encoding(e.skip(3), b.skip(1), upper);
        assert(((hi as u8) * 16 + (lo as u8)) as u8 == b[0]);
        assert(seq![b[0]] + b.skip(1) == b);
    }
}

/// Decoding undoes a full percent-encoding: when every UTF-8 byte of `s` is
/// written as `%` and two hexadecimal digits (all in upper case or all in
/// lower case), percent-decoding gives `s` back.
pub proof fn lemma_percent_decode_full_encoding(s: Seq<char>, upper: bool)
    ensures
        spec_percent_decode(percent_encoding(encode_utf8(s), upper)) == s,
{
    let b = encode_utf8(s);
    let pe = percent_encoding(b, upper);
    lemma_percent_encoding_ascii(b, upper);
    is_ascii_chars_encode_utf8(pe);
    lemma_decode_encoding(encode_utf8(pe), b, upper);
    encode_utf8_valid_utf8(s);
    encode_utf8_decode_utf8(s);
}

/// `b` with an ASCII upper-case letter mapped to lower case.
pub open spec fn ascii_lower_byte(b: u8) -> u8 {
    if 65 <= b && b <= 90 {
        (b + 32) as u8
    } else {
        b
    }
}

/// `a` and `b` are equal when ASCII case is ignored.
pub open spec fn bytes_ieq(a: Seq<u8>, b: Seq<u8>) -> bool {
    &&& a.len() == b.len()
    &&& forall|i: int| 0 <= i < a.len() ==> ascii_lower_byte(#[trigger] a[i]) == ascii_lower_byte(b[i])
}

proof fn lemma_bytes_ieq_concat(x1: Seq<u8>, x2: Seq<u8>, y1: Seq<u8>, y2: Seq<u8>)
    requires
        bytes_ieq(x1, x2),
        bytes_ieq(y1, y2),
    ensures
        bytes_ieq(x1 + y1, x2 + y2),
{
    assert forall|i: int| 0 <= i < (x1 + y1).len() implies ascii_lower_byte(#[trigger] (x1 + y1)[i])
        == ascii_lower_byte((x2 + y2)[i]) by {
        if i >= x1.len() {
            assert(ascii_lower_byte(y1[i - x1.len()]) == ascii_lower_byte(y2[i - x1.len()]));
        } else {
            assert(ascii_lower_byte(x1[i]) == ascii_lower_byte(x2[i]));
        }
    }
}

/// Percent-decoding keeps byte sequences that differ only in ASCII case
/// equal up to ASCII case: the hexadecimal digits of an escape are read
/// without regard to case.
pub proof fn lemma_percent_decode_bytes_ieq(a: Seq<u8>, b: Seq<u8>)
    requires
        bytes_ieq(a, b),
    ensures
        bytes_ieq(percent_decode_bytes(a), percent_decode_bytes(b)),
    decreases a.len(),
{
    if a.len() > 0 {
        assert(ascii_lower_byte(a[0]) == ascii_lower_byte(b[0]));
        if a.len() > 2 {
            assert(ascii_lower_byte(a[1]) == ascii_lower_byte(b[1]));
            assert(ascii_lower_byte(a[2]) == ascii_lower_byte(b[2]));
        }
        if a[0] == 37 && 2 < a.len() && hex_digit_value(a[1]) is Some && hex_digit_value(
            a[2],
        ) is Some {
            assert forall|i: int| 0 <= i < a.skip(3).len() implies ascii_lower_byte(
                #[trigger] a.skip(3)[i],
            ) == ascii_lower_byte(b.skip(3)[i]) by {
                assert(ascii_lower_byte(a[i + 3]) == ascii_lower_byte(b[i + 3]));
            }
            lemma_percent_decode_bytes_ieq(a.skip(3), b.skip(3));
            let v = seq![(hex_digit_value(a[1]).unwrap() * 16 + hex_digit_value(a[2]).unwrap()) as u8];
            lemma_bytes_ieq_concat(v, v, percent_decode_bytes(a.skip(3)), percent_decode_bytes(b.skip(3)));
        } else {
            assert forall|i: int| 0 <= i < a.skip(1).len() implies ascii_lower_byte(
                #[trigger] a.skip(1)[i],
            ) == ascii_lower_byte(b.skip(1)[i]) by {
                assert(ascii_lower_byte(a[i + 1]) == ascii_lower_byte(b[i + 1]));
            }
            lemma_percent_decode_bytes_ieq(a.skip(1), b.skip(1));
            lemma_bytes_ieq_concat(seq![a[0]], seq![b[0]], percent_decode_bytes(a.skip(1)), percent_decode_bytes(b.skip(1)));
        }
    }
}

proof fn lemma_ascii_lower_code(c: char)
    ensures
        ('A' <= c && c <= 'Z') <==> (65 <= (c as u32) && (c as u32) <= 90),
        (ascii_lower(c) as int) == if 65 <= (c as u32) && (c as u32) <= 90 {
            (c as u32) + 32
        } else {
            c as u32 as int
        },
{
}

proof fn lemma_high_bit(x: u8)
    by (bit_vector)
    ensures
        (0x80u8 | x) >= 0x80u8,
        (0xC0u8 | x) >= 0x80u8,
        (0xE0u8 | x) >= 0x80u8,
        (0xF0u8 | x) >= 0x80u8,
{
}

proof fn lemma_same_code_same_char(c: char, d: char)
    requires
        (c as u32) == (d as u32),
    ensures
        c == d,
{
    char_u32_cast(c, c as u32);
    char_u32_cast(d, d as u32);
}

/// The UTF-8 encoding of an ASCII character is its code; every byte of the
/// encoding of any other character has its high bit set.
proof fn lemma_scalar_bytes(c: char)
    ensures
        (c as u32) < 128 ==> encode_scalar(c as u32) == seq![(c as u32) as u8],
        (c as u32) >= 128 ==> encode_scalar(c as u32).len() > 0 && forall|i: int|
            0 <= i < encode_scalar(c as u32).len() ==> #[trigger] encode_scalar(c as u32)[i]
                >= 128,
{
    let v = c as u32;
    char_is_scalar(c);
    if v < 128 {
        assert(v as u8 == leading_byte_width_1(v)) by (bit_vector)
            requires
                v <= 0x7F,
        ;
    } else {
        lemma_high_bit(((v >> 6) & 0x1F) as u8);
        lemma_high_bit(((v >> 12) & 0x0F) as u8);
        lemma_high_bit(((v >> 18) & 0x7) as u8);
        lemma_high_bit((v & 0x3F) as u8);
        lemma_high_bit(((v >> 6) & 0x3F) as u8);
        lemma_high_bit(((v >> 12) & 0x3F) as u8);
    }
}

proof fn lemma_encode_scalar_ieq(c: char, d: char)
    requires
        ascii_lower(c) == ascii_lower(d),
    ensures
        bytes_ieq(encode_scalar(c as u32), encode_scalar(d as u32)),
{
    lemma_ascii_lower_code(c);
    lemma_ascii_lower_code(d);
    lemma_scalar_bytes(c);
    lemma_scalar_bytes(d);
    if (c as u32) >= 128 {
        lemma_same_code_same_char(c, d);
    }
}

/// Character sequences equal up to ASCII case have UTF-8 encodings equal up
/// to ASCII case.
proof fn lemma_encode_utf8_ieq(s: Seq<char>, t: Seq<char>)
    requires
        ascii_lower_seq(s) == ascii_lower_seq(t),
    ensures
        bytes_ieq(encode_utf8(s), encode_utf8(t)),
    decreases s.len(),
{
    assert(s.len() == ascii_lower_seq(s).len() && t.len() == ascii_lower_seq(t).len());
    if s.len() > 0 {
        assert(ascii_lower(s[0]) == ascii_lower(t[0])) by {
            lemma_ascii_lower_seq_index(s, 0);
            lemma_ascii_lower_seq_index(t, 0);
        }
        assert(ascii_lower_seq(s.drop_first()) == ascii_lower_seq(t.drop_first())) by {
            assert forall|i: int| 0 <= i < s.len() - 1 implies ascii_lower_seq(s.drop_first())[i]
                == ascii_lower_seq(t.drop_first())[i] by {
                lemma_ascii_lower_seq_index(s, i + 1);
                lemma_ascii_lower_seq_index(t, i + 1);
                lemma_ascii_lower_seq_index(s.drop_first(), i);
                lemma_ascii_lower_seq_index(t.drop_first(), i);
            }
        }
        lemma_encode_scalar_ieq(s[0], t[0]);
        lemma_encode_utf8_ieq(s.drop_first(), t.drop_first());
        lemma_bytes_ieq_concat(
            encode_scalar(s[0] as u32),
            encode_scalar(t[0] as u32),
            encode_utf8(s.drop_first()),
            encode_utf8(t.drop_first()),
        );
    }
}

/// Bytes equal up to ASCII case to the encoding of `d` are the encoding of
/// characters equal to `d` up to ASCII case.
proof fn lemma_ieq_bytes_chars(d: Seq<char>, x: Seq<u8>) -> (e: Seq<char>)
    requires
        bytes_ieq(encode_utf8(d), x),
    ensures
        encode_utf8(e) == x,
        ascii_lower_seq(e) == ascii_lower_seq(d),
    decreases d.len(),
{
    if d.len() == 0 {
        assert(x == Seq::<u8>::empty());
        Seq::<char>::empty()
    } else {
        let c = d[0];
        let head = encode_scalar(c as u32);
        let tail = encode_utf8(d.drop_first());
        let n = head.len() as int;
        lemma_scalar_bytes(c);
        assert(encode_utf8(d) == head + tail);
        assert forall|i: int| 0 <= i < tail.len() implies ascii_lower_byte(#[trigger] tail[i])
            == ascii_lower_byte(x.skip(n)[i]) by {
            assert((head + tail)[i + n] == tail[i]);
        }
        let rest = lemma_ieq_bytes_chars(d.drop_first(), x.skip(n));
        let c2: char = if (c as u32) < 128 {
            (x[0] as u32) as char
        } else {
            c
        };
        assert(ascii_lower_byte(x[0]) == ascii_lower_byte(head[0])) by {
            assert((head + tail)[0] == head[0]);
        }
        if (c as u32) < 128 {
            lemma_ascii_lower_code(c);
            lemma_ascii_lower_code(c2);
            lemma_scalar_bytes(c2);
            assert(x.take(n) == seq![x[0]]);
            lemma_same_code_same_char(ascii_lower(c2), ascii_lower(c));
        } else {
            assert forall|i: int| 0 <= i < n implies #[trigger] x.take(n)[i] == head[i] by {
                assert((head + tail)[i] == head[i]);
                assert(ascii_lower_byte(x[i]) == ascii_lower_byte(head[i]));
            }
            assert(x.take(n) == head);
        }
        assert(encode_scalar(c2 as u32) == x.take(n));
        let e = seq![c2] + rest;
        assert(e.drop_first() == rest);
        assert(x == x.take(n) + x.skip(n));
        assert(ascii_lower_seq(e) == ascii_lower_seq(d)) by {
            assert(e.len() == d.len()) by {
                lemma_ascii_lower_seq_index(rest, 0);
            }
            assert forall|i: int| 0 <= i < e.len() implies ascii_lower_seq(e)[i] == ascii_lower_seq(
                d,
            )[i] by {
                lemma_ascii_lower_seq_index(e, i);
                lemma_ascii_lower_seq_index(d, i);
                if i > 0 {
                    lemma_ascii_lower_seq_index(rest, i - 1);
                    lemma_ascii_lower_seq_index(d.drop_first(), i - 1);
                }
            }
        }
        e
    }
}

/// Percent-decoding keeps text equal up to ASCII case equal up to ASCII case,
/// provided the escapes of the first spell valid UTF-8.
pub proof fn lemma_percent_decode_ieq(s: Seq<char>, t: Seq<char>)
    requires
        ascii_lower_seq(s) == ascii_lower_seq(t),
        valid_utf8(percent_decode_bytes(encode_utf8(s))),
    ensures
        valid_utf8(percent_decode_bytes(encode_utf8(t))),
        ascii_lower_seq(spec_percent_decode(s)) == ascii_lower_seq(spec_percent_decode(t)),
{
    let b1 = percent_decode_bytes(encode_utf8(s));
    let b2 = percent_decode_bytes(encode_utf8(t));
    lemma_encode_utf8_ieq(s, t);
    lemma_percent_decode_bytes_ieq(encode_utf8(s), encode_utf8(t));
    decode_utf8_encode_utf8(b1);
    let e = lemma_ieq_bytes_chars(decode_utf8(b1), b2);
    encode_utf8_valid_utf8(e);
    encode_utf8_decode_utf8(e);
}

/// Decodes the `%XX` escapes of `value` and reads the bytes back as UTF-8,
/// replacing invalid sequences.
pub fn percent_decode(value: &str) -> (res: String)
    ensures
        res@ == spec_percent_decode(value@),
        !value@.contains('%') ==> res@ == value@,
{
    let bytes = value.as_bytes();
    let decoded = decode_percent_escapes(bytes);
    let res = utf8_lossy(decoded.as_slice());
    proof {
        if !value@.contains('%') {
            lemma_percent_decode_identity(value@);
        }
    }
    res
}

} // verus!
