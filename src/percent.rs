//! Percent-encoding of query values, over the UTF-8 bytes of a text.

use vstd::prelude::*;
use vstd::utf8::{encode_utf8, is_ascii_chars, is_ascii_chars_encode_utf8, valid_utf8};

verus! {

/// The bytes that percent-encoding leaves as they are: ASCII letters and digits, `-`, `.`, `_`, `~`.
pub open spec fn is_unreserved_byte(b: u8) -> bool {
    ||| 0x30 <= b <= 0x39
    ||| 0x41 <= b <= 0x5a
    ||| 0x61 <= b <= 0x7a
    ||| b == 0x2d
    ||| b == 0x2e
    ||| b == 0x5f
    ||| b == 0x7e
}

/// An upper-case hexadecimal digit, for a value below sixteen.
pub open spec fn hex_digit_upper(d: u8) -> u8 {
    if d < 10 {
        (0x30 + d) as u8
    } else {
        (0x37 + d) as u8
    }
}

/// The value of a hexadecimal digit of either case.
pub open spec fn hex_value(b: u8) -> Option<u8> {
    if 0x30 <= b <= 0x39 {
        Some((b - 0x30) as u8)
    } else if 0x41 <= b <= 0x46 {
        Some((b - 0x37) as u8)
    } else if 0x61 <= b <= 0x66 {
        Some((b - 0x57) as u8)
    } else {
        None
    }
}

/// One byte, percent-encoded.
pub open spec fn percent_encode_byte(b: u8) -> Seq<u8> {
    if is_unreserved_byte(b) {
        seq![b]
    } else {
        seq![0x25u8, hex_digit_upper(b / 16), hex_digit_upper(b % 16)]
    }
}

/// Every byte percent-encoded in turn.
pub open spec fn percent_encode(b: Seq<u8>) -> Seq<u8>
    decreases b.len(),
{
    if b.len() == 0 {
        seq![]
    } else {
        percent_encode_byte(b[0]) + percent_encode(b.drop_first())
    }
}

/// Percent-decoding: `%` and two hexadecimal digits stand for one byte; every other byte,
/// a `%` without two digits after it included, stands for itself.
pub open spec fn percent_decode(b: Seq<u8>) -> Seq<u8>
    decreases b.len(),
{
    if b.len() == 0 {
        seq![]
    } else if b[0] == 0x25 && b.len() >= 3 && hex_value(b[1]) is Some && hex_value(b[2]) is Some {
        seq![(hex_value(b[1])->0 * 16 + hex_value(b[2])->0) as u8] + percent_decode(
            b.subrange(3, b.len() as int),
        )
    } else {
        seq![b[0]] + percent_decode(b.drop_first())
    }
}

/// The ASCII characters of a byte sequence whose bytes are all below 128.
pub open spec fn ascii_text(b: Seq<u8>) -> Seq<char> {
    b.map_values(|x: u8| x as char)
}

/// The percent-encoded text of a text's UTF-8 bytes.
pub open spec fn percent_encode_text(s: Seq<char>) -> Seq<char> {
    ascii_text(percent_encode(encode_utf8(s)))
}

/// Relies on `urlencoding::encode`: every UTF-8 byte of the text but ASCII letters, digits,
/// `-`, `.`, `_` and `~` becomes `%` and two upper-case hexadecimal digits.
#[verifier::external_body]
pub(crate) fn url_encode(s: &str) -> (r: String)
    ensures
        r@ == percent_encode_text(s@),
{
    urlencoding::encode(s).into_owned()
}

/// Relies on `urlencoding::decode`: decodes `%` escapes of either case, keeps every other byte,
/// and fails where the decoded bytes are not UTF-8.
#[verifier::external_body]
pub(crate) fn url_decode(s: &str) -> (r: Option<String>)
    ensures
        r is Some <==> valid_utf8(percent_decode(encode_utf8(s@))),
        r matches Some(t) ==> encode_utf8(t@) == percent_decode(encode_utf8(s@)),
{
    urlencoding::decode(s).ok().map(|t| t.into_owned())
}

proof fn lemma_decode_encoded_byte(b: u8, rest: Seq<u8>)
    ensures
        percent_decode(percent_encode_byte(b) + rest) == seq![b] + percent_decode(rest),
{
    let e = percent_encode_byte(b) + rest;
    if is_unreserved_byte(b) {
        assert(e.drop_first() =~= rest);
    } else {
        let hi = (b / 16) as u8;
        let lo = (b % 16) as u8;
        assert(hex_value(hex_digit_upper(hi)) == Some(hi));
        assert(hex_value(hex_digit_upper(lo)) == Some(lo));
        assert(e.subrange(3, e.len() as int) =~= rest);
        assert((hi * 16 + lo) as u8 == b);
    }
}

/// Percent-decoding undoes percent-encoding.
pub proof fn lemma_percent_round_trip(b: Seq<u8>)
    ensures
        percent_decode(percent_encode(b)) == b,
    decreases b.len(),
{
    if b.len() > 0 {
        lemma_percent_round_trip(b.drop_first());
        lemma_decode_encoded_byte(b[0], percent_encode(b.drop_first()));
        assert(seq![b[0]] + b.drop_first() =~= b);
    }
}

/// Percent-encoding writes ASCII bytes only.
proof fn lemma_percent_encode_ascii(b: Seq<u8>)
    ensures
        forall|i: int| 0 <= i < percent_encode(b).len() ==> #[trigger] percent_encode(b)[i] < 128,
    decreases b.len(),
{
    if b.len() > 0 {
        lemma_percent_encode_ascii(b.drop_first());
        let head = percent_encode_byte(b[0]);
        let tail = percent_encode(b.drop_first());
        assert forall|i: int| 0 <= i < percent_encode(b).len() implies #[trigger] percent_encode(
            b,
        )[i] < 128 by {
            if i < head.len() {
                assert(percent_encode(b)[i] == head[i]);
            } else {
                assert(percent_encode(b)[i] == tail[i - head.len()]);
            }
        }
    }
}

/// The UTF-8 bytes of the ASCII text of some bytes below 128 are those bytes.
proof fn lemma_ascii_text_bytes(b: Seq<u8>)
    requires
        forall|i: int| 0 <= i < b.len() ==> #[trigger] b[i] < 128,
    ensures
        encode_utf8(ascii_text(b)) == b,
{
    let t = ascii_text(b);
    assert(is_ascii_chars(t)) by {
        assert forall|i: int| 0 <= i < t.len() implies '\0' <= #[trigger] t[i] <= '\u{7f}' by {
            assert(t[i] == b[i] as char);
        }
    }
    is_ascii_chars_encode_utf8(t);
    assert forall|i: int| 0 <= i < b.len() implies #[trigger] encode_utf8(t)[i] == b[i] by {
        assert(t[i] as u8 == encode_utf8(t)[i]);
        assert(t[i] == b[i] as char);
    }
    assert(encode_utf8(t) =~= b);
}

/// The UTF-8 bytes of a percent-encoded text are the percent-encoded bytes, and
/// percent-decoding them gives the text's bytes back.
pub proof fn lemma_percent_text_round_trip(s: Seq<char>)
    ensures
        encode_utf8(percent_encode_text(s)) == percent_encode(encode_utf8(s)),
        percent_decode(encode_utf8(percent_encode_text(s))) == encode_utf8(s),
{
    lemma_percent_encode_ascii(encode_utf8(s));
    lemma_ascii_text_bytes(percent_encode(encode_utf8(s)));
    lemma_percent_round_trip(encode_utf8(s));
}

} // verus!
