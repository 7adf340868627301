//! The JSON text of the engine's filter grammar: objects whose members are arrays of strings.
//!
//! Each string is quoted by `serde_json`; the framing around the strings is written here.

use vstd::prelude::*;
use vstd::std_specs::iter::IteratorSpec;
use vstd::string::*;
use vstd::utf8::is_scalar;
use crate::text::{char_from_code, push_char};
use crate::utils::{assoc_set, has_key, keys_unique};

verus! {

/// A lower-case hexadecimal digit, for a value below sixteen.
pub open spec fn hex_digit_lower(d: nat) -> char {
    seq!['0', '1', '2', '3', '4', '5', '6', '7', '8', '9', 'a', 'b', 'c', 'd', 'e', 'f'][d as int]
}

/// How a JSON string writes one character: quote, backslash and control characters escaped,
/// everything else as it is.
pub open spec fn json_escape_char(c: char) -> Seq<char> {
    if c == '"' {
        seq!['\\', '"']
    } else if c == '\\' {
        seq!['\\', '\\']
    } else if c == '\x08' {
        seq!['\\', 'b']
    } else if c == '\x0c' {
        seq!['\\', 'f']
    } else if c == '\n' {
        seq!['\\', 'n']
    } else if c == '\r' {
        seq!['\\', 'r']
    } else if c == '\t' {
        seq!['\\', 't']
    } else if (c as u32) < 0x20 {
        seq![
            '\\',
            'u',
            '0',
            '0',
            hex_digit_lower((c as u32 / 16) as nat),
            hex_digit_lower((c as u32 % 16) as nat),
        ]
    } else {
        seq![c]
    }
}

/// The characters of a text, each escaped in turn.
pub open spec fn json_escape(s: Seq<char>) -> Seq<char>
    decreases s.len(),
{
    if s.len() == 0 {
        seq![]
    } else {
        json_escape_char(s[0]) + json_escape(s.drop_first())
    }
}

/// A JSON string literal: the escaped text between double quotes.
pub open spec fn json_quoted(s: Seq<char>) -> Seq<char> {
    seq!['"'] + json_escape(s) + seq!['"']
}

/// String literals, each after a comma but the first when `first` holds.
pub open spec fn json_string_items(vs: Seq<Seq<char>>, first: bool) -> Seq<char>
    decreases vs.len(),
{
    if vs.len() == 0 {
        seq![]
    } else {
        (if first {
            seq![]
        } else {
            seq![',']
        }) + json_quoted(vs[0]) + json_string_items(vs.drop_first(), false)
    }
}

/// A JSON array of strings, without white space.
pub open spec fn json_string_array(vs: Seq<Seq<char>>) -> Seq<char> {
    seq!['['] + json_string_items(vs, true) + seq![']']
}

/// One member of a filter object: the quoted key, a colon, the array of values.
pub open spec fn json_member(e: (Seq<char>, Seq<Seq<char>>)) -> Seq<char> {
    json_quoted(e.0) + seq![':'] + json_string_array(e.1)
}

/// Members, each after a comma but the first when `first` holds.
pub open spec fn json_member_items(m: Seq<(Seq<char>, Seq<Seq<char>>)>, first: bool) -> Seq<char>
    decreases m.len(),
{
    if m.len() == 0 {
        seq![]
    } else {
        (if first {
            seq![]
        } else {
            seq![',']
        }) + json_member(m[0]) + json_member_items(m.drop_first(), false)
    }
}

/// A JSON object mapping each key to an array of strings, without white space.
pub open spec fn json_filter_object(m: Seq<(Seq<char>, Seq<Seq<char>>)>) -> Seq<char> {
    seq!['{'] + json_member_items(m, true) + seq!['}']
}

/// Members `"key":"value"`, each after a comma but the first when `first` holds.
pub open spec fn json_pair_items(m: Seq<(Seq<char>, Seq<char>)>, first: bool) -> Seq<char>
    decreases m.len(),
{
    if m.len() == 0 {
        seq![]
    } else {
        (if first {
            seq![]
        } else {
            seq![',']
        }) + json_quoted(m[0].0) + seq![':'] + json_quoted(m[0].1) + json_pair_items(
            m.drop_first(),
            false,
        )
    }
}

/// A JSON object of string values, members in the given order, without white space.
pub open spec fn json_string_object(m: Seq<(Seq<char>, Seq<char>)>) -> Seq<char> {
    seq!['{'] + json_pair_items(m, true) + seq!['}']
}

#[verifier::external_type_specification]
#[verifier::external_body]
pub struct ExJsonError(serde_json::Error);

/// Relies on `serde_json::to_string` for a string slice: the string literal with `"`, `\` and
/// the control characters escaped (`\b`, `\t`, `\n`, `\f`, `\r`, else `\u00` and two lower-case
/// hexadecimal digits), every other character as it is. A string is written into a `Vec<u8>`,
/// whose writes never fail, so the call always succeeds.
#[verifier::external_body]
pub(crate) fn json_quote(s: &str) -> (r: Result<String, serde_json::Error>)
    ensures
        r is Ok,
        r->Ok_0@ == json_quoted(s@),
{
    serde_json::to_string(s)
}

/// The JSON string literal of a text.
pub(crate) fn quote(s: &str) -> (r: String)
    ensures
        r@ == json_quoted(s@),
{
    match json_quote(s) {
        Ok(q) => q,
        Err(_) => unreached(),
    }
}

/// Appends the string literals of `vs`, each after a comma but the first when `first` holds.
fn append_string_items(out: &mut String, vs: &Vec<String>, first: bool)
    ensures
        final(out)@ == old(out)@ + json_string_items(vs.deep_view(), first),
{
    let ghost all = vs.deep_view();
    let mut i: usize = 0;
    assert(all.skip(0) =~= all);
    while i < vs.len()
        invariant
            0 <= i <= vs.len(),
            all == vs.deep_view(),
            old(out)@ + json_string_items(all, first) == out@ + json_string_items(
                all.skip(i as int),
                first && i == 0,
            ),
        decreases vs.len() - i,
    {
        let q = quote(vs[i].as_str());
        if i > 0 || !first {
            out.append(",");
        }
        out.append(q.as_str());
        proof {
            let rest = all.skip(i as int);
            assert(rest.drop_first() =~= all.skip(i + 1));
            assert(rest[0] == vs[i as int]@);
            reveal_strlit(",");
        }
        i = i + 1;
    }
    proof {
        assert(all.skip(i as int) =~= Seq::<Seq<char>>::empty());
    }
}

/// The JSON array of the given strings, as `serde_json` writes a list of strings.
pub fn string_array_to_json(vs: &Vec<String>) -> (r: String)
    ensures
        r@ == json_string_array(vs.deep_view()),
{
    let mut out = "[".to_owned();
    append_string_items(&mut out, vs, true);
    out.append("]");
    proof {
        reveal_strlit("[");
        reveal_strlit("]");
    }
    out
}

/// The JSON object of the given key and value pairs, in their order, as `serde_json` writes
/// a map of strings.
pub fn string_map_to_json(pairs: &Vec<(String, String)>) -> (r: String)
    ensures
        r@ == json_string_object(pairs.deep_view()),
{
    let ghost all = pairs.deep_view();
    let mut out = "{".to_owned();
    proof {
        reveal_strlit("{");
        assert(all.skip(0) =~= all);
    }
    let mut i: usize = 0;
    while i < pairs.len()
        invariant
            0 <= i <= pairs.len(),
            all == pairs.deep_view(),
            seq!['{'] + json_pair_items(all, true) == out@ + json_pair_items(
                all.skip(i as int),
                i == 0,
            ),
        decreases pairs.len() - i,
    {
        if i > 0 {
            out.append(",");
        }
        let k = quote(pairs[i].0.as_str());
        let v = quote(pairs[i].1.as_str());
        out.append(k.as_str());
        out.append(":");
        out.append(v.as_str());
        proof {
            let rest = all.skip(i as int);
            assert(rest.drop_first() =~= all.skip(i + 1));
            assert(rest[0] == all[i as int]);
            reveal_strlit(",");
            reveal_strlit(":");
        }
        i = i + 1;
    }
    out.append("}");
    proof {
        reveal_strlit("}");
        assert(all.skip(i as int) =~= Seq::<(Seq<char>, Seq<char>)>::empty());
    }
    out
}

/// The value of a hexadecimal digit of either case.
pub open spec fn hex_char_value(c: char) -> Option<u32> {
    if '0' <= c <= '9' {
        Some((c as u32 - 48) as u32)
    } else if 'a' <= c <= 'f' {
        Some((c as u32 - 87) as u32)
    } else if 'A' <= c <= 'F' {
        Some((c as u32 - 55) as u32)
    } else {
        None
    }
}

/// The length of the escape sequence at `p`: six for `\uXXXX`, else two.
pub open spec fn escape_len(t: Seq<char>, p: int) -> int {
    if p + 1 < t.len() && t[p + 1] == 'u' {
        6
    } else {
        2
    }
}

/// The character an escape sequence starting at `p` (at a backslash) stands for.
pub open spec fn unescape_at(t: Seq<char>, p: int) -> Option<char> {
    if p + 1 >= t.len() {
        None
    } else {
        let e = t[p + 1];
        if e == '"' {
            Some('"')
        } else if e == '\\' {
            Some('\\')
        } else if e == '/' {
            Some('/')
        } else if e == 'b' {
            Some('\x08')
        } else if e == 'f' {
            Some('\x0c')
        } else if e == 'n' {
            Some('\n')
        } else if e == 'r' {
            Some('\r')
        } else if e == 't' {
            Some('\t')
        } else if e == 'u' {
            if p + 5 < t.len() && hex_char_value(t[p + 2]) is Some && hex_char_value(t[p + 3]) is Some
                && hex_char_value(t[p + 4]) is Some && hex_char_value(t[p + 5]) is Some {
                let v = (hex_char_value(t[p + 2])->0 * 4096 + hex_char_value(t[p + 3])->0 * 256
                    + hex_char_value(t[p + 4])->0 * 16 + hex_char_value(t[p + 5])->0) as u32;
                if is_scalar(v) {
                    Some(v as char)
                } else {
                    None
                }
            } else {
                None
            }
        } else {
            None
        }
    }
}

/// Reads the rest of a string literal from `p`, with `acc` decoded so far: the decoded text and
/// the position after the closing quote.
pub open spec fn scan_string(t: Seq<char>, p: int, acc: Seq<char>) -> Option<(Seq<char>, int)>
    decreases t.len() - p,
{
    if p < 0 || p >= t.len() {
        None
    } else if t[p] == '"' {
        Some((acc, p + 1))
    } else if t[p] == '\\' {
        match unescape_at(t, p) {
            Some(c) => if p + escape_len(t, p) <= t.len() {
                scan_string(t, p + escape_len(t, p), acc.push(c))
            } else {
                None
            },
            None => None,
        }
    } else if (t[p] as u32) < 0x20 {
        None
    } else {
        scan_string(t, p + 1, acc.push(t[p]))
    }
}

/// Reads a string literal at `p`.
pub open spec fn parse_string(t: Seq<char>, p: int) -> Option<(Seq<char>, int)> {
    if 0 <= p < t.len() && t[p] == '"' {
        scan_string(t, p + 1, seq![])
    } else {
        None
    }
}

/// Reads the items of an array of strings from `p`, after `acc`: the items and the position
/// after the closing bracket.
pub open spec fn scan_array(t: Seq<char>, p: int, acc: Seq<Seq<char>>) -> Option<
    (Seq<Seq<char>>, int),
>
    decreases t.len() - p,
{
    if p < 0 || p >= t.len() {
        None
    } else {
        match parse_string(t, p) {
            None => None,
            Some((s, q)) => if q <= p || q >= t.len() {
                None
            } else if t[q] == ',' {
                scan_array(t, q + 1, acc.push(s))
            } else if t[q] == ']' {
                Some((acc.push(s), q + 1))
            } else {
                None
            },
        }
    }
}

/// Reads an array of strings at `p`.
pub open spec fn parse_array(t: Seq<char>, p: int) -> Option<(Seq<Seq<char>>, int)> {
    if 0 <= p && p + 1 < t.len() && t[p] == '[' && t[p + 1] == ']' {
        Some((seq![], p + 2))
    } else if 0 <= p < t.len() && t[p] == '[' {
        scan_array(t, p + 1, seq![])
    } else {
        None
    }
}

/// Reads the members of a filter object from `p`, each setting its key in `acc`: the filters
/// and the position after the closing brace.
pub open spec fn scan_members(
    t: Seq<char>,
    p: int,
    acc: Seq<(Seq<char>, Seq<Seq<char>>)>,
) -> Option<(Seq<(Seq<char>, Seq<Seq<char>>)>, int)>
    decreases t.len() - p,
{
    if p < 0 || p >= t.len() {
        None
    } else {
        match parse_string(t, p) {
            None => None,
            Some((k, q)) => if q <= p || q >= t.len() || t[q] != ':' {
                None
            } else {
                match parse_array(t, q + 1) {
                    None => None,
                    Some((vs, r)) => if r <= p || r >= t.len() {
                        None
                    } else if t[r] == ',' {
                        scan_members(t, r + 1, assoc_set(acc, k, vs))
                    } else if t[r] == '}' {
                        Some((assoc_set(acc, k, vs), r + 1))
                    } else {
                        None
                    },
                }
            },
        }
    }
}

/// Reads a whole text as a filter object without white space: keys with arrays of strings.
/// A key given twice keeps its last array.
pub open spec fn parse_filter_object(t: Seq<char>) -> Option<Seq<(Seq<char>, Seq<Seq<char>>)>> {
    if t.len() == 2 && t[0] == '{' && t[1] == '}' {
        Some(seq![])
    } else if t.len() > 0 && t[0] == '{' {
        match scan_members(t, 1, seq![]) {
            Some((m, q)) => if q == t.len() {
                Some(m)
            } else {
                None
            },
            None => None,
        }
    } else {
        None
    }
}

/// The characters of a text, in order, read through `str::chars`.
pub(crate) fn chars_of(s: &str) -> (r: Vec<char>)
    ensures
        r@ == s@,
{
    broadcast use axiom_spec_iter, next_postcondition;

    let mut it = s.chars();
    let mut r: Vec<char> = Vec::new();
    assert(r@ + it.remaining() =~= s@);
    loop
        invariant
            r@ + it.remaining() == s@,
            it.decrease() is Some,
        decreases it.decrease()->0,
    {
        let ghost before = it.remaining();
        match it.next() {
            Some(c) => {
                r.push(c);
                assert(r@ + it.remaining() =~= s@) by {
                    assert(before =~= seq![c] + it.remaining());
                }
            },
            None => {
                assert(r@ =~= s@);
                return r;
            },
        }
    }
}

fn hex_char_value_exec(c: char) -> (r: Option<u32>)
    ensures
        r == hex_char_value(c),
{
    if '0' <= c && c <= '9' {
        Some(c as u32 - 48)
    } else if 'a' <= c && c <= 'f' {
        Some(c as u32 - 87)
    } else if 'A' <= c && c <= 'F' {
        Some(c as u32 - 55)
    } else {
        None
    }
}

fn unescape_exec(t: &Vec<char>, p: usize) -> (r: Option<char>)
    ensures
        r == unescape_at(t@, p as int),
{
    if t.len() == 0 || p >= t.len() - 1 {
        return None;
    }
    let e = t[p + 1];
    if e == '"' {
        Some('"')
    } else if e == '\\' {
        Some('\\')
    } else if e == '/' {
        Some('/')
    } else if e == 'b' {
        Some('\x08')
    } else if e == 'f' {
        Some('\x0c')
    } else if e == 'n' {
        Some('\n')
    } else if e == 'r' {
        Some('\r')
    } else if e == 't' {
        Some('\t')
    } else if e == 'u' {
        if t.len() < 6 || p >= t.len() - 5 {
            return None;
        }
        match (
            hex_char_value_exec(t[p + 2]),
            hex_char_value_exec(t[p + 3]),
            hex_char_value_exec(t[p + 4]),
            hex_char_value_exec(t[p + 5]),
        ) {
            (Some(a), Some(b), Some(c), Some(d)) => char_from_code(
                a * 4096 + b * 256 + c * 16 + d,
            ),
            _ => None,
        }
    } else {
        None
    }
}

/// Reads a string literal at `p` of `t`, as `parse_string` says.
pub fn parse_string_exec(t: &Vec<char>, p: usize) -> (r: Option<(String, usize)>)
    ensures
        match parse_string(t@, p as int) {
            Some((s, q)) => r matches Some((rs, rq)) && rs@ == s && rq == q,
            None => r is None,
        },
{
    if p >= t.len() || t[p] != '"' {
        return None;
    }
    let mut acc = String::new();
    let mut i: usize = p + 1;
    loop
        invariant
            p < t.len(),
            t@[p as int] == '"',
            p < i,
            parse_string(t@, p as int) == scan_string(t@, i as int, acc@),
        decreases t.len() - i,
    {
        if i >= t.len() {
            return None;
        }
        let c = t[i];
        if c == '"' {
            return Some((acc, i + 1));
        } else if c == '\\' {
            match unescape_exec(t, i) {
                Some(ch) => {
                    let len: usize = if i + 1 < t.len() && t[i + 1] == 'u' {
                        6
                    } else {
                        2
                    };
                    if len > t.len() - i {
                        return None;
                    }
                    push_char(&mut acc, ch);
                    i = i + len;
                },
                None => {
                    return None;
                },
            }
        } else if (c as u32) < 0x20 {
            return None;
        } else {
            push_char(&mut acc, c);
            i = i + 1;
        }
    }
}

/// Reads an array of strings at `p` of `t`, as `parse_array` says.
pub fn parse_array_exec(t: &Vec<char>, p: usize) -> (r: Option<(Vec<String>, usize)>)
    ensures
        match parse_array(t@, p as int) {
            Some((vs, q)) => r matches Some((rv, rq)) && rv.deep_view() == vs && rq == q,
            None => r is None,
        },
{
    if p >= t.len() || t[p] != '[' {
        return None;
    }
    if p + 1 < t.len() && t[p + 1] == ']' {
        let empty: Vec<String> = Vec::new();
        assert(empty.deep_view() =~= Seq::<Seq<char>>::empty());
        return Some((empty, p + 2));
    }
    let mut acc: Vec<String> = Vec::new();
    let mut i: usize = p + 1;
    assert(acc.deep_view() =~= Seq::<Seq<char>>::empty());
    loop
        invariant
            p < i,
            parse_array(t@, p as int) == scan_array(t@, i as int, acc.deep_view()),
        decreases t.len() - i,
    {
        if i >= t.len() {
            return None;
        }
        match parse_string_exec(t, i) {
            None => {
                return None;
            },
            Some((s, q)) => {
                if q <= i || q >= t.len() {
                    return None;
                }
                let ghost prev = acc@;
                let ghost prev_deep = acc.deep_view();
                let ghost gs = s;
                acc.push(s);
                assert(acc@ == prev.push(gs));
                assert(acc.deep_view() =~= prev_deep.push(gs@)) by {
                    assert forall|j: int| 0 <= j < prev.len() implies #[trigger] acc.deep_view()[j]
                        == prev_deep[j] by {
                        assert(acc@[j] == prev[j]);
                    }
                }
                if t[q] == ',' {
                    i = q + 1;
                } else if t[q] == ']' {
                    return Some((acc, q + 1));
                } else {
                    return None;
                }
            },
        }
    }
}

/// `s` stands in `t` from position `p` on.
pub open spec fn has_at(t: Seq<char>, p: int, s: Seq<char>) -> bool {
    &&& 0 <= p
    &&& p + s.len() <= t.len()
    &&& forall|j: int| 0 <= j < s.len() ==> t[p + j] == #[trigger] s[j]
}

proof fn lemma_has_at_split(t: Seq<char>, p: int, a: Seq<char>, b: Seq<char>)
    requires
        has_at(t, p, a + b),
    ensures
        has_at(t, p, a),
        has_at(t, p + a.len(), b),
{
    assert forall|j: int| 0 <= j < a.len() implies t[p + j] == #[trigger] a[j] by {
        assert((a + b)[j] == a[j]);
    }
    assert forall|j: int| 0 <= j < b.len() implies t[p + a.len() + j] == #[trigger] b[j] by {
        assert((a + b)[a.len() + j] == b[j]);
    }
}

proof fn lemma_hex_digit_round_trip(d: nat)
    requires
        d < 16,
    ensures
        hex_char_value(hex_digit_lower(d)) == Some(d as u32),
{
    let digits = seq!['0', '1', '2', '3', '4', '5', '6', '7', '8', '9', 'a', 'b', 'c', 'd', 'e', 'f'];
    assert(hex_digit_lower(d) == digits[d as int]);
    assert(digits[0] == '0' && digits[1] == '1' && digits[2] == '2' && digits[3] == '3');
    assert(digits[4] == '4' && digits[5] == '5' && digits[6] == '6' && digits[7] == '7');
    assert(digits[8] == '8' && digits[9] == '9' && digits[10] == 'a' && digits[11] == 'b');
    assert(digits[12] == 'c' && digits[13] == 'd' && digits[14] == 'e' && digits[15] == 'f');
}

/// Reading one escaped character consumes its escape and yields the character.
proof fn lemma_scan_char(t: Seq<char>, q: int, acc: Seq<char>, c: char)
    requires
        has_at(t, q, json_escape_char(c)),
    ensures
        scan_string(t, q, acc) == scan_string(t, q + json_escape_char(c).len(), acc.push(c)),
{
    broadcast use vstd::utf8::char_u32_cast;

    let e = json_escape_char(c);
    assert(t[q] == e[0]);
    if e.len() >= 2 {
        assert(t[q + 1] == e[1]);
    }
    if c == '"' || c == '\\' || c == '\x08' || c == '\x0c' || c == '\n' || c == '\r' || c == '\t' {
        assert(unescape_at(t, q) == Some(c));
        assert(escape_len(t, q) == 2);
    } else if (c as u32) < 0x20 {
        let v = c as u32;
        let hi = (v / 16) as nat;
        let lo = (v % 16) as nat;
        assert(t[q + 2] == e[2]);
        assert(t[q + 3] == e[3]);
        assert(t[q + 4] == e[4]);
        assert(t[q + 5] == e[5]);
        lemma_hex_digit_round_trip(0);
        lemma_hex_digit_round_trip(hi);
        lemma_hex_digit_round_trip(lo);
        assert(hex_digit_lower(0) == '0');
        assert(hex_char_value('0') == Some(0u32));
        assert(hi * 16 + lo == v);
        assert(is_scalar(v));
        assert(unescape_at(t, q) == Some(c));
        assert(escape_len(t, q) == 6);
    } else {
        assert(e == seq![c]);
    }
}

/// The escaped text of `x` and a closing quote read back as `x`.
proof fn lemma_scan_escaped(t: Seq<char>, q: int, acc: Seq<char>, x: Seq<char>)
    requires
        has_at(t, q, json_escape(x) + seq!['"']),
    ensures
        scan_string(t, q, acc) == Some((acc + x, q + json_escape(x).len() + 1)),
    decreases x.len(),
{
    let e = json_escape(x);
    if x.len() == 0 {
        assert(e =~= Seq::<char>::empty());
        assert((e + seq!['"'])[0] == '"');
        assert(acc + x =~= acc);
    } else {
        let c = x[0];
        let e0 = json_escape_char(c);
        let rest = x.drop_first();
        assert(e =~= e0 + json_escape(rest));
        assert(e + seq!['"'] =~= e0 + (json_escape(rest) + seq!['"']));
        lemma_has_at_split(t, q, e0, json_escape(rest) + seq!['"']);
        lemma_scan_char(t, q, acc, c);
        lemma_scan_escaped(t, q + e0.len(), acc.push(c), rest);
        assert(acc.push(c) + rest =~= acc + x);
    }
}

/// A string literal reads back as its text.
proof fn lemma_parse_quoted(t: Seq<char>, p: int, x: Seq<char>)
    requires
        has_at(t, p, json_quoted(x)),
    ensures
        parse_string(t, p) == Some((x, p + json_quoted(x).len())),
{
    assert(json_quoted(x) =~= seq!['"'] + (json_escape(x) + seq!['"']));
    lemma_has_at_split(t, p, seq!['"'], json_escape(x) + seq!['"']);
    assert(t[p] == seq!['"'][0]);
    lemma_scan_escaped(t, p + 1, seq![], x);
    assert(Seq::<char>::empty() + x =~= x);
}

proof fn lemma_scan_array_items(t: Seq<char>, p: int, acc: Seq<Seq<char>>, vs: Seq<Seq<char>>)
    requires
        vs.len() >= 1,
        has_at(t, p, json_quoted(vs[0]) + json_string_items(vs.drop_first(), false) + seq![']']),
    ensures
        scan_array(t, p, acc) == Some(
            (
                acc + vs,
                p + (json_quoted(vs[0]) + json_string_items(vs.drop_first(), false) + seq![
                    ']',
                ]).len(),
            ),
        ),
    decreases vs.len(),
{
    let q0 = json_quoted(vs[0]);
    let rest = vs.drop_first();
    let tail = json_string_items(rest, false) + seq![']'];
    assert(q0 + json_string_items(rest, false) + seq![']'] =~= q0 + tail);
    lemma_has_at_split(t, p, q0, tail);
    lemma_parse_quoted(t, p, vs[0]);
    let q = p + q0.len();
    if rest.len() == 0 {
        assert(tail =~= seq![']']);
        assert(t[q] == tail[0]);
        assert(acc.push(vs[0]) =~= acc + vs);
    } else {
        let next = json_quoted(rest[0]) + json_string_items(rest.drop_first(), false) + seq![']'];
        assert(tail =~= seq![','] + next);
        lemma_has_at_split(t, q, seq![','], next);
        assert(t[q] == seq![','][0]);
        lemma_scan_array_items(t, q + 1, acc.push(vs[0]), rest);
        assert(acc.push(vs[0]) + rest =~= acc + vs);
    }
}

/// An array of string literals reads back as its strings.
proof fn lemma_parse_array_rendered(t: Seq<char>, p: int, vs: Seq<Seq<char>>)
    requires
        has_at(t, p, json_string_array(vs)),
    ensures
        parse_array(t, p) == Some((vs, p + json_string_array(vs).len())),
{
    let body = json_string_items(vs, true) + seq![']'];
    assert(json_string_array(vs) =~= seq!['['] + body);
    lemma_has_at_split(t, p, seq!['['], body);
    assert(t[p] == seq!['['][0]);
    if vs.len() == 0 {
        assert(body =~= seq![']']);
        assert(t[p + 1] == body[0]);
        assert(vs =~= Seq::<Seq<char>>::empty());
    } else {
        assert(body =~= json_quoted(vs[0]) + json_string_items(vs.drop_first(), false) + seq![
            ']',
        ]);
        assert(t[p + 1] == body[0]);
        assert(body[0] == json_quoted(vs[0])[0]);
        lemma_scan_array_items(t, p + 1, seq![], vs);
        assert(Seq::<Seq<char>>::empty() + vs =~= vs);
    }
}

proof fn lemma_scan_members_rendered(
    t: Seq<char>,
    p: int,
    acc: Seq<(Seq<char>, Seq<Seq<char>>)>,
    m: Seq<(Seq<char>, Seq<Seq<char>>)>,
)
    requires
        m.len() >= 1,
        keys_unique(acc + m),
        has_at(t, p, json_member(m[0]) + json_member_items(m.drop_first(), false) + seq!['}']),
    ensures
        scan_members(t, p, acc) == Some(
            (
                acc + m,
                p + (json_member(m[0]) + json_member_items(m.drop_first(), false) + seq![
                    '}',
                ]).len(),
            ),
        ),
    decreases m.len(),
{
    let e = m[0];
    let kq = json_quoted(e.0);
    let arr = json_string_array(e.1);
    let rest = m.drop_first();
    let tail = json_member_items(rest, false) + seq!['}'];
    assert(json_member(e) + json_member_items(rest, false) + seq!['}'] =~= kq + (seq![':'] + (
    arr + tail)));
    lemma_has_at_split(t, p, kq, seq![':'] + (arr + tail));
    lemma_has_at_split(t, p + kq.len(), seq![':'], arr + tail);
    lemma_has_at_split(t, p + kq.len() + 1, arr, tail);
    lemma_parse_quoted(t, p, e.0);
    let q = p + kq.len();
    assert(t[q] == seq![':'][0]);
    lemma_parse_array_rendered(t, q + 1, e.1);
    let r = q + 1 + arr.len();
    assert(!has_key(acc, e.0)) by {
        if has_key(acc, e.0) {
            let i = choose|i: int| 0 <= i < acc.len() && #[trigger] acc[i].0 == e.0;
            assert((acc + m)[i].0 == (acc + m)[acc.len() as int].0);
        }
    }
    assert(assoc_set(acc, e.0, e.1) == acc.push(e));
    if rest.len() == 0 {
        assert(tail =~= seq!['}']);
        assert(t[r] == tail[0]);
        assert(acc.push(e) =~= acc + m);
    } else {
        let next = json_member(rest[0]) + json_member_items(rest.drop_first(), false) + seq!['}'];
        assert(tail =~= seq![','] + next);
        lemma_has_at_split(t, r, seq![','], next);
        assert(t[r] == seq![','][0]);
        assert(acc.push(e) + rest =~= acc + m);
        lemma_scan_members_rendered(t, r + 1, acc.push(e), rest);
    }
}

/// The JSON object of a filter set with unique keys reads back as the same filter set.
pub proof fn lemma_filter_object_round_trip(m: Seq<(Seq<char>, Seq<Seq<char>>)>)
    requires
        keys_unique(m),
    ensures
        parse_filter_object(json_filter_object(m)) == Some(m),
{
    let t = json_filter_object(m);
    assert(has_at(t, 0, t));
    let body = json_member_items(m, true) + seq!['}'];
    assert(t =~= seq!['{'] + body);
    lemma_has_at_split(t, 0, seq!['{'], body);
    assert(t[0] == '{');
    if m.len() == 0 {
        assert(t =~= seq!['{', '}']);
    } else {
        assert(body =~= json_member(m[0]) + json_member_items(m.drop_first(), false) + seq!['}']);
        assert(Seq::<(Seq<char>, Seq<Seq<char>>)>::empty() + m =~= m);
        lemma_scan_members_rendered(t, 1, seq![], m);
        assert(t[1] == body[0]);
        assert(body[0] == json_quoted(m[0].0)[0]);
    }
}

} // verus!
