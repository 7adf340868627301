//! Parameter sets, their query encodings, and the library's error types.

use crate::json::{json_filter_object, json_member_items, quote};
use crate::json::{
    chars_of, lemma_filter_object_round_trip, parse_array_exec, parse_filter_object, parse_string_exec, scan_members,
    string_array_to_json,
};
use crate::percent::{lemma_percent_text_round_trip, percent_decode, url_decode};
use vstd::utf8::{
    decode_utf8, encode_utf8, encode_utf8_decode_utf8, encode_utf8_valid_utf8, valid_utf8,
};
use crate::percent::{percent_encode_text, url_encode};
use vstd::prelude::*;
use vstd::string::*;

verus! {

/// The error envelope that the engine sends with a classified failure status.
pub struct DockerError {
    pub message: String,
}

/// What can go wrong in a call to the engine.
#[derive(Debug, PartialEq, Eq)]
pub enum ClientError {
    /// The socket could not be dialed or the request could not be written.
    ConnectionError { message: String },
    /// An I/O failure while the request was in flight.
    TransportError { message: String },
    /// A body that is not UTF-8, or an error envelope that could not be read.
    BodyDecodeError { message: String },
    /// A JSON body that does not have the expected shape.
    DeserializationError { shape: String, message: String },
    /// A classified failure status with the engine's message.
    ApiError { status: u16, message: String },
    /// A query value that could not be JSON-encoded.
    SerializationError,
    /// A request whose target cannot be formed from the endpoint.
    MalformedRequestError { endpoint: String },
}

/// No two entries share a key.
pub open spec fn keys_unique<V>(s: Seq<(Seq<char>, V)>) -> bool {
    forall|i: int, j: int|
        0 <= i < s.len() && 0 <= j < s.len() && i != j ==> #[trigger] s[i].0 != #[trigger] s[j].0
}

/// Some entry has the key.
pub open spec fn has_key<V>(s: Seq<(Seq<char>, V)>, k: Seq<char>) -> bool {
    exists|i: int| 0 <= i < s.len() && #[trigger] s[i].0 == k
}

/// Sets the value of a key: the entry with that key is replaced where it stands, or a new
/// entry goes last.
pub open spec fn assoc_set<V>(s: Seq<(Seq<char>, V)>, k: Seq<char>, v: V) -> Seq<(Seq<char>, V)> {
    if has_key(s, k) {
        s.update(choose|i: int| 0 <= i < s.len() && #[trigger] s[i].0 == k, (k, v))
    } else {
        s.push((k, v))
    }
}

/// Setting a key keeps the keys unique.
pub proof fn lemma_assoc_set_keys_unique<V>(s: Seq<(Seq<char>, V)>, k: Seq<char>, v: V)
    requires
        keys_unique(s),
    ensures
        keys_unique(assoc_set(s, k, v)),
        has_key(assoc_set(s, k, v), k),
{
    let r = assoc_set(s, k, v);
    if has_key(s, k) {
        let i = choose|i: int| 0 <= i < s.len() && #[trigger] s[i].0 == k;
        assert(r[i].0 == k);
    } else {
        assert(r[s.len() as int].0 == k);
    }
}

/// The value of a key, if some entry has it.
pub open spec fn assoc_get<V>(s: Seq<(Seq<char>, V)>, k: Seq<char>) -> Option<V> {
    if has_key(s, k) {
        Some(s[choose|i: int| 0 <= i < s.len() && #[trigger] s[i].0 == k].1)
    } else {
        None
    }
}

/// After setting a key, the key has the new value and every other key keeps its value.
pub proof fn lemma_assoc_set_get<V>(s: Seq<(Seq<char>, V)>, k: Seq<char>, v: V, other: Seq<char>)
    requires
        keys_unique(s),
    ensures
        assoc_get(assoc_set(s, k, v), k) == Some(v),
        other != k ==> assoc_get(assoc_set(s, k, v), other) == assoc_get(s, other),
{
    let r = assoc_set(s, k, v);
    lemma_assoc_set_keys_unique(s, k, v);
    let ik = choose|i: int| 0 <= i < r.len() && #[trigger] r[i].0 == k;
    if has_key(s, k) {
        let c = choose|i: int| 0 <= i < s.len() && #[trigger] s[i].0 == k;
        assert(r[c].0 == k);
        assert(ik == c) by {
            if ik != c {
                assert(r[ik].0 != r[c].0);
            }
        }
    } else {
        assert(r[s.len() as int].0 == k);
        assert(ik == s.len()) by {
            if ik != s.len() {
                assert(r[ik].0 != r[s.len() as int].0);
            }
        }
    }
    if other != k {
        if has_key(s, other) {
            let j = choose|i: int| 0 <= i < s.len() && #[trigger] s[i].0 == other;
            assert(r[j].0 == other);
            let jr = choose|i: int| 0 <= i < r.len() && #[trigger] r[i].0 == other;
            assert(jr == j) by {
                if jr != j {
                    assert(r[jr].0 != r[j].0);
                }
            }
        } else {
            assert(!has_key(r, other)) by {
                if has_key(r, other) {
                    let jr = choose|i: int| 0 <= i < r.len() && #[trigger] r[i].0 == other;
                    if jr < s.len() {
                        assert(s[jr].0 == other);
                    }
                }
            }
        }
    }
}

/// Sets `key` to `value` in a list of entries with unique keys.
fn assoc_set_exec<V: DeepView>(entries: &mut Vec<(String, V)>, key: &str, value: V)
    requires
        keys_unique(old(entries).deep_view()),
    ensures
        final(entries).deep_view() == assoc_set(old(entries).deep_view(), key@, value.deep_view()),
        keys_unique(final(entries).deep_view()),
{
    let ghost s = entries.deep_view();
    let k = key.to_owned();
    let mut i: usize = 0;
    while i < entries.len()
        invariant
            0 <= i <= entries.len(),
            entries.deep_view() == s,
            s == old(entries).deep_view(),
            keys_unique(s),
            k@ == key@,
            forall|j: int| 0 <= j < i ==> #[trigger] s[j].0 != key@,
        decreases entries.len() - i,
    {
        if entries[i].0 == k {
            assert(s[i as int].0 == key@);
            assert(has_key(s, key@));
            let ghost c = choose|c: int| 0 <= c < s.len() && #[trigger] s[c].0 == key@;
            assert(c == i) by {
                if c != i {
                    assert(s[c].0 != s[i as int].0);
                }
            }
            let ghost prev = entries@;
            let item = (k, value);
            let ghost gitem = item;
            entries.set(i, item);
            assert(entries@ == prev.update(i as int, gitem));
            assert(entries.deep_view() =~= assoc_set(s, key@, gitem.1.deep_view()));
            proof {
                lemma_assoc_set_keys_unique(s, key@, value.deep_view());
            }
            return;
        }
        i = i + 1;
    }
    assert(!has_key(s, key@));
    let ghost prev = entries@;
    let item = (k, value);
    let ghost gitem = item;
    entries.push(item);
    assert(entries@ == prev.push(gitem));
    assert(entries.deep_view() =~= s.push((key@, gitem.1.deep_view())));
    proof {
        lemma_assoc_set_keys_unique(s, key@, value.deep_view());
    }
}

/// A copy of a list of strings.
pub fn copy_strings(v: &Vec<String>) -> (r: Vec<String>)
    ensures
        r.deep_view() == v.deep_view(),
{
    let mut r: Vec<String> = Vec::new();
    let mut i: usize = 0;
    while i < v.len()
        invariant
            0 <= i <= v.len(),
            r@.len() == i,
            r.deep_view() =~= v.deep_view().take(i as int),
        decreases v.len() - i,
    {
        let s = v[i].clone();
        let ghost prev = r@;
        let ghost prev_deep = r.deep_view();
        let ghost gs = s;
        r.push(s);
        assert(r@ == prev.push(gs));
        assert forall|j: int| 0 <= j < i + 1 implies #[trigger] r.deep_view()[j] == v.deep_view()[j] by {
            if j < i {
                assert(prev[j] == r@[j]);
                assert(prev_deep[j] == prev[j]@);
                assert(prev_deep[j] == v.deep_view().take(i as int)[j]);
            } else {
                assert(r@[j] == gs);
            }
        }
        assert(r.deep_view() =~= v.deep_view().take(i + 1));
        i = i + 1;
    }
    assert(v.deep_view().take(i as int) =~= v.deep_view());
    r
}

/// Filter options: keys, each with a list of values, keys unique, in the order first set.
pub struct FilterSet {
    entries: Vec<(String, Vec<String>)>,
}

impl View for FilterSet {
    type V = Seq<(Seq<char>, Seq<Seq<char>>)>;

    closed spec fn view(&self) -> Self::V {
        self.entries.deep_view()
    }
}

impl FilterSet {
    /// The keys are unique.
    pub open spec fn wf(&self) -> bool {
        keys_unique(self@)
    }

    /// A set with no filter.
    pub fn new() -> (r: FilterSet)
        ensures
            r@ == Seq::<(Seq<char>, Seq<Seq<char>>)>::empty(),
            r.wf(),
    {
        let r = FilterSet { entries: Vec::new() };
        assert(r@ =~= Seq::<(Seq<char>, Seq<Seq<char>>)>::empty());
        r
    }

    /// Sets the values of a filter, replacing those it had.
    pub fn set(&mut self, key: &str, values: Vec<String>)
        requires
            old(self).wf(),
        ensures
            final(self)@ == assoc_set(old(self)@, key@, values.deep_view()),
            final(self).wf(),
    {
        assoc_set_exec(&mut self.entries, key, values);
    }

    /// Sets a filter to a single value.
    pub fn set_one(&mut self, key: &str, value: String)
        requires
            old(self).wf(),
        ensures
            final(self)@ == assoc_set(old(self)@, key@, seq![value@]),
            final(self).wf(),
    {
        let ghost v = value@;
        let mut values: Vec<String> = Vec::new();
        values.push(value);
        assert(values.deep_view() =~= seq![v]);
        self.set(key, values);
    }

    /// An independent copy.
    pub fn copy(&self) -> (r: FilterSet)
        ensures
            r@ == self@,
    {
        let mut entries: Vec<(String, Vec<String>)> = Vec::new();
        let mut i: usize = 0;
        while i < self.entries.len()
            invariant
                0 <= i <= self.entries.len(),
                entries@.len() == i,
                entries.deep_view() =~= self.entries.deep_view().take(i as int),
            decreases self.entries.len() - i,
        {
            let key = self.entries[i].0.clone();
            let values = copy_strings(&self.entries[i].1);
            assert((key@, values.deep_view()) == self.entries.deep_view()[i as int]);
            let ghost prev = entries@;
            let ghost prev_deep = entries.deep_view();
            let item = (key, values);
            let ghost gitem = item;
            entries.push(item);
            assert(entries@ == prev.push(gitem));
            assert forall|j: int| 0 <= j < i + 1 implies #[trigger] entries.deep_view()[j]
                == self.entries.deep_view()[j] by {
                if j < i {
                    assert(prev[j] == entries@[j]);
                    assert(prev_deep[j] == prev[j].deep_view());
                    assert(prev_deep[j] == self.entries.deep_view().take(i as int)[j]);
                } else {
                    assert(entries@[j] == gitem);
                }
            }
            assert(entries.deep_view() =~= self.entries.deep_view().take(i + 1));
            i = i + 1;
        }
        assert(self.entries.deep_view().take(i as int) =~= self.entries.deep_view());
        FilterSet { entries }
    }

    /// The filters, in order.
    pub fn entries(&self) -> (r: &Vec<(String, Vec<String>)>)
        ensures
            r.deep_view() == self@,
    {
        &self.entries
    }

    /// Number of filters.
    pub fn len(&self) -> (r: usize)
        ensures
            r == self@.len(),
    {
        self.entries.len()
    }
}

/// Build options: keys, each with one value, keys unique, in the order first set.
pub struct BuildParamSet {
    entries: Vec<(String, String)>,
}

impl View for BuildParamSet {
    type V = Seq<(Seq<char>, Seq<char>)>;

    closed spec fn view(&self) -> Self::V {
        self.entries.deep_view()
    }
}

impl BuildParamSet {
    /// The keys are unique.
    pub open spec fn wf(&self) -> bool {
        keys_unique(self@)
    }

    /// A set with no option.
    pub fn new() -> (r: BuildParamSet)
        ensures
            r@ == Seq::<(Seq<char>, Seq<char>)>::empty(),
            r.wf(),
    {
        let r = BuildParamSet { entries: Vec::new() };
        assert(r@ =~= Seq::<(Seq<char>, Seq<char>)>::empty());
        r
    }

    /// Sets the value of an option, replacing the one it had.
    pub fn set(&mut self, key: &str, value: String)
        requires
            old(self).wf(),
        ensures
            final(self)@ == assoc_set(old(self)@, key@, value@),
            final(self).wf(),
    {
        assoc_set_exec(&mut self.entries, key, value);
    }

    /// An independent copy.
    pub fn copy(&self) -> (r: BuildParamSet)
        ensures
            r@ == self@,
    {
        let mut entries: Vec<(String, String)> = Vec::new();
        let mut i: usize = 0;
        while i < self.entries.len()
            invariant
                0 <= i <= self.entries.len(),
                entries@.len() == i,
                entries.deep_view() =~= self.entries.deep_view().take(i as int),
            decreases self.entries.len() - i,
        {
            let key = self.entries[i].0.clone();
            let value = self.entries[i].1.clone();
            assert((key@, value@) == self.entries.deep_view()[i as int]);
            let ghost prev = entries@;
            let ghost prev_deep = entries.deep_view();
            let item = (key, value);
            let ghost gitem = item;
            entries.push(item);
            assert(entries@ == prev.push(gitem));
            assert forall|j: int| 0 <= j < i + 1 implies #[trigger] entries.deep_view()[j]
                == self.entries.deep_view()[j] by {
                if j < i {
                    assert(prev[j] == entries@[j]);
                    assert(prev_deep[j] == prev[j].deep_view());
                    assert(prev_deep[j] == self.entries.deep_view().take(i as int)[j]);
                } else {
                    assert(entries@[j] == gitem);
                }
            }
            assert(entries.deep_view() =~= self.entries.deep_view().take(i + 1));
            i = i + 1;
        }
        assert(self.entries.deep_view().take(i as int) =~= self.entries.deep_view());
        BuildParamSet { entries }
    }

    /// The options, in order.
    pub fn entries(&self) -> (r: &Vec<(String, String)>)
        ensures
            r.deep_view() == self@,
    {
        &self.entries
    }

    /// Number of options.
    pub fn len(&self) -> (r: usize)
        ensures
            r == self@.len(),
    {
        self.entries.len()
    }
}

/// One `key=value` segment of a build query.
pub open spec fn param_segment(e: (Seq<char>, Seq<char>)) -> Seq<char> {
    e.0 + seq!['='] + e.1
}

/// Segments, each after an `&` but the first when `first` holds.
pub open spec fn param_items(s: Seq<(Seq<char>, Seq<char>)>, first: bool) -> Seq<char>
    decreases s.len(),
{
    if s.len() == 0 {
        seq![]
    } else {
        (if first {
            seq![]
        } else {
            seq!['&']
        }) + param_segment(s[0]) + param_items(s.drop_first(), false)
    }
}

/// The flat build query: `key=value` segments joined by `&`, values as they are.
pub open spec fn build_params_query(s: Seq<(Seq<char>, Seq<char>)>) -> Seq<char> {
    param_items(s, true)
}

/// The `filters` query value: the JSON object of the filters, percent-encoded.
pub open spec fn filters_query_text(m: Seq<(Seq<char>, Seq<Seq<char>>)>) -> Seq<char> {
    percent_encode_text(json_filter_object(m))
}

impl FilterSet {
    /// The JSON object of the filters, as `serde_json` writes a map of string lists.
    pub fn to_json(&self) -> (r: String)
        ensures
            r@ == json_filter_object(self@),
    {
        let ghost all = self@;
        let mut out = "{".to_owned();
        proof {
            reveal_strlit("{");
            assert(all.skip(0) =~= all);
        }
        let mut i: usize = 0;
        while i < self.entries.len()
            invariant
                0 <= i <= self.entries.len(),
                all == self@,
                seq!['{'] + json_member_items(all, true) == out@ + json_member_items(
                    all.skip(i as int),
                    i == 0,
                ),
            decreases self.entries.len() - i,
        {
            if i > 0 {
                out.append(",");
            }
            let k = quote(self.entries[i].0.as_str());
            let v = string_array_to_json(&self.entries[i].1);
            out.append(k.as_str());
            out.append(":");
            out.append(v.as_str());
            proof {
                let rest = all.skip(i as int);
                assert(rest.drop_first() =~= all.skip(i + 1));
                assert(rest[0] == all[i as int]);
                reveal_strlit(",");
                reveal_strlit(":");
            }
            i = i + 1;
        }
        out.append("}");
        proof {
            reveal_strlit("}");
            assert(all.skip(i as int) =~= Seq::<(Seq<char>, Seq<Seq<char>>)>::empty());
        }
        out
    }
}

/// The `filters` query value of a filter set: its JSON object, percent-encoded. Every filter
/// set of strings encodes, so the result is always `Ok`.
pub fn encode_filters(filters: &FilterSet) -> (r: Result<String, ClientError>)
    ensures
        r matches Ok(t) && t@ == filters_query_text(filters@),
{
    let json = filters.to_json();
    Ok(url_encode(json.as_str()))
}

impl FilterSet {
    /// Reads a whole text as a filter object, as `parse_filter_object` says.
    pub fn from_json_chars(t: &Vec<char>) -> (r: Option<FilterSet>)
        ensures
            match parse_filter_object(t@) {
                Some(m) => r matches Some(f) && f@ == m && f.wf(),
                None => r is None,
            },
    {
        if t.len() == 2 && t[0] == '{' && t[1] == '}' {
            return Some(FilterSet::new());
        }
        if t.len() == 0 || t[0] != '{' {
            return None;
        }
        let mut acc = FilterSet::new();
        let mut i: usize = 1;
        loop
            invariant
                1 <= i,
                t@.len() > 0,
                t@[0] == '{',
                !(t@.len() == 2 && t@[1] == '}'),
                acc.wf(),
                scan_members(t@, 1, seq![]) == scan_members(t@, i as int, acc@),
            decreases t.len() - i,
        {
            if i >= t.len() {
                return None;
            }
            match parse_string_exec(t, i) {
                None => {
                    return None;
                },
                Some((k, q)) => {
                    if q <= i || q >= t.len() || t[q] != ':' {
                        return None;
                    }
                    match parse_array_exec(t, q + 1) {
                        None => {
                            return None;
                        },
                        Some((vs, r)) => {
                            if r <= i || r >= t.len() {
                                return None;
                            }
                            acc.set(k.as_str(), vs);
                            if t[r] == ',' {
                                i = r + 1;
                            } else if t[r] == '}' {
                                if r + 1 == t.len() {
                                    return Some(acc);
                                } else {
                                    return None;
                                }
                            } else {
                                return None;
                            }
                        },
                    }
                },
            }
        }
    }
}

/// The filters a `filters` query value stands for: its percent-decoded bytes as UTF-8 text,
/// read as a filter object.
pub open spec fn decoded_filters(encoded: Seq<char>) -> Option<Seq<(Seq<char>, Seq<Seq<char>>)>> {
    let bytes = percent_decode(encode_utf8(encoded));
    if valid_utf8(bytes) {
        parse_filter_object(decode_utf8(bytes))
    } else {
        None
    }
}

/// The filter set of a `filters` query value; `None` when the value is not the percent-encoded
/// JSON of a filter object.
pub fn decode_filters(encoded: &str) -> (r: Option<FilterSet>)
    ensures
        match decoded_filters(encoded@) {
            Some(m) => r matches Some(f) && f@ == m && f.wf(),
            None => r is None,
        },
{
    match url_decode(encoded) {
        Some(text) => {
            proof {
                encode_utf8_decode_utf8(text@);
            }
            let t = chars_of(text.as_str());
            FilterSet::from_json_chars(&t)
        },
        None => None,
    }
}

/// Decoding the `filters` value of a filter set gives the filter set back: the same keys in the
/// same order, each with the same values in the same order.
pub proof fn lemma_filters_round_trip(m: Seq<(Seq<char>, Seq<Seq<char>>)>)
    requires
        keys_unique(m),
    ensures
        decoded_filters(filters_query_text(m)) == Some(m),
{
    let json = json_filter_object(m);
    lemma_percent_text_round_trip(json);
    encode_utf8_valid_utf8(json);
    encode_utf8_decode_utf8(json);
    lemma_filter_object_round_trip(m);
}

/// The flat query string of a build-parameter set: `key=value` joined by `&`, in the set's order.
pub fn encode_build_params(params: &BuildParamSet) -> (r: String)
    ensures
        r@ == build_params_query(params@),
{
    let ghost all = params@;
    let mut out = String::new();
    proof {
        assert(all.skip(0) =~= all);
    }
    let mut i: usize = 0;
    while i < params.entries.len()
        invariant
            0 <= i <= params.entries.len(),
            all == params@,
            param_items(all, true) == out@ + param_items(all.skip(i as int), i == 0),
        decreases params.entries.len() - i,
    {
        if i > 0 {
            out.append("&");
        }
        out.append(params.entries[i].0.as_str());
        out.append("=");
        out.append(params.entries[i].1.as_str());
        proof {
            let rest = all.skip(i as int);
            assert(rest.drop_first() =~= all.skip(i + 1));
            assert(rest[0] == all[i as int]);
            reveal_strlit("&");
            reveal_strlit("=");
        }
        i = i + 1;
    }
    proof {
        assert(all.skip(i as int) =~= Seq::<(Seq<char>, Seq<char>)>::empty());
    }
    out
}

/// The two query encodings, for the parameter types that carry them.
pub trait ObjectConverter {
    /// The flat `key=value&...` query string of build parameters.
    fn parse_params(&self, params: &BuildParamSet) -> (r: String)
        ensures
            r@ == build_params_query(params@),
    {
        encode_build_params(params)
    }

    /// The percent-encoded JSON `filters` value of a filter set; always `Ok`.
    fn url_encoded(&self, params: &FilterSet) -> (r: Result<String, ClientError>)
        ensures
            r matches Ok(t) && t@ == filters_query_text(params@),
    {
        encode_filters(params)
    }
}

/// The pieces of a text between separators, empty pieces included.
pub open spec fn split_on(s: Seq<char>, sep: char) -> Seq<Seq<char>>
    decreases s.len(),
{
    if s.len() == 0 {
        seq![seq![]]
    } else {
        let rest = split_on(s.drop_first(), sep);
        if s[0] == sep {
            seq![seq![]] + rest
        } else {
            rest.update(0, seq![s[0]] + rest[0])
        }
    }
}

/// The `&`-separated segments of a query string; none in the empty string.
pub open spec fn query_segments(q: Seq<char>) -> Seq<Seq<char>> {
    if q.len() == 0 {
        seq![]
    } else {
        split_on(q, '&')
    }
}

proof fn lemma_split_nonempty(s: Seq<char>, sep: char)
    ensures
        split_on(s, sep).len() >= 1,
    decreases s.len(),
{
    if s.len() > 0 {
        lemma_split_nonempty(s.drop_first(), sep);
    }
}

proof fn lemma_split_prefix(a: Seq<char>, t: Seq<char>, sep: char)
    requires
        !a.contains(sep),
    ensures
        split_on(a + t, sep) == split_on(t, sep).update(0, a + split_on(t, sep)[0]),
    decreases a.len(),
{
    lemma_split_nonempty(t, sep);
    if a.len() == 0 {
        assert(a + t =~= t);
        assert(a + split_on(t, sep)[0] =~= split_on(t, sep)[0]);
        assert(split_on(t, sep).update(0, split_on(t, sep)[0]) =~= split_on(t, sep));
    } else {
        let a2 = a.drop_first();
        assert(!a2.contains(sep)) by {
            if a2.contains(sep) {
                let k = choose|k: int| 0 <= k < a2.len() && a2[k] == sep;
                assert(a[k + 1] == sep);
            }
        }
        lemma_split_prefix(a2, t, sep);
        assert((a + t).drop_first() =~= a2 + t);
        assert(a[0] != sep) by {
            assert(a.contains(a[0]));
        }
        assert(seq![a[0]] + (a2 + split_on(t, sep)[0]) =~= a + split_on(t, sep)[0]);
        assert(split_on(a + t, sep) =~= split_on(t, sep).update(0, a + split_on(t, sep)[0]));
    }
}

proof fn lemma_split_params(b: Seq<(Seq<char>, Seq<char>)>)
    requires
        b.len() >= 1,
        forall|i: int| 0 <= i < b.len() ==> !(#[trigger] param_segment(b[i])).contains('&'),
    ensures
        split_on(param_items(b, true), '&') == Seq::new(b.len(), |i: int| param_segment(b[i])),
    decreases b.len(),
{
    let seg0 = param_segment(b[0]);
    let rest = b.drop_first();
    assert(!seg0.contains('&'));
    if b.len() == 1 {
        assert(param_items(rest, false) =~= Seq::<char>::empty());
        assert(param_items(b, true) =~= seg0 + Seq::<char>::empty());
        lemma_split_prefix(seg0, Seq::<char>::empty(), '&');
        assert(split_on(param_items(b, true), '&') =~= Seq::new(
            b.len(),
            |i: int| param_segment(b[i]),
        ));
    } else {
        assert forall|i: int| 0 <= i < rest.len() implies !(#[trigger] param_segment(
            rest[i],
        )).contains('&') by {
            assert(rest[i] == b[i + 1]);
        }
        lemma_split_params(rest);
        let tail = param_items(rest, true);
        assert(param_items(rest, false) =~= seq!['&'] + tail);
        assert(param_items(b, true) =~= seg0 + (seq!['&'] + tail));
        lemma_split_prefix(seg0, seq!['&'] + tail, '&');
        assert((seq!['&'] + tail).drop_first() =~= tail);
        assert(split_on(seq!['&'] + tail, '&') =~= seq![Seq::<char>::empty()] + split_on(
            tail,
            '&',
        ));
        assert(split_on(param_items(b, true), '&') =~= Seq::new(
            b.len(),
            |i: int| param_segment(b[i]),
        ));
    }
}

/// With no `&` in any key or value and no `=` in any key, the build query of a set with
/// unique keys splits at `&` into exactly one `key=value` segment per entry, in the set's
/// order, so that each key stands in exactly one segment.
pub proof fn lemma_build_query_segments(b: Seq<(Seq<char>, Seq<char>)>)
    requires
        keys_unique(b),
        forall|i: int|
            0 <= i < b.len() ==> !(#[trigger] b[i]).0.contains('&') && !b[i].1.contains('&')
                && !b[i].0.contains('='),
    ensures
        query_segments(build_params_query(b)).len() == b.len(),
        forall|i: int|
            0 <= i < b.len() ==> #[trigger] query_segments(build_params_query(b))[i] == b[i].0
                + seq!['='] + b[i].1,
{
    if b.len() == 0 {
        assert(build_params_query(b) =~= Seq::<char>::empty());
    } else {
        assert forall|i: int| 0 <= i < b.len() implies !(#[trigger] param_segment(b[i])).contains(
            '&',
        ) by {
            if param_segment(b[i]).contains('&') {
                let k = choose|k: int|
                    0 <= k < param_segment(b[i]).len() && param_segment(b[i])[k] == '&';
                if k < b[i].0.len() {
                    assert(b[i].0[k] == '&');
                } else if k > b[i].0.len() {
                    assert(b[i].1[k - b[i].0.len() - 1] == '&');
                }
            }
        }
        lemma_split_params(b);
        assert(param_segment(b[0]).len() > 0);
        assert(build_params_query(b).len() > 0);
    }
}

} // verus!
