//! JSON values, and their text by way of serde_json.
use vstd::prelude::*;
use vstd::string::*;
#[allow(unused_imports)]
use vstd::utf8::encode_utf8;
#[allow(unused_imports)]
use crate::collections::{lemma_filter_map_step, map_of};
use crate::text::str_eq;
#[allow(unused_imports)]
use crate::text::has_prefix;

verus! {

/// A JSON value.
#[derive(Debug)]
pub enum Json {
    /// `null`.
    Null,
    /// A truth value.
    Bool(bool),
    /// A number from zero on that is an integer.
    UInt(u64),
    /// A negative integer.
    Int(i64),
    /// Any other number, as its text.
    Real(String),
    /// A string.
    Text(String),
    /// A list.
    Array(Vec<Json>),
    /// An object, as pairs of which the last one of a key counts.
    Object(Vec<(String, Json)>),
}

/// What a JSON value denotes.
pub enum JsonV {
    Null,
    Bool(bool),
    UInt(u64),
    Int(i64),
    Real(Seq<char>),
    Text(Seq<char>),
    Array(Seq<JsonV>),
    Object(Map<Seq<char>, JsonV>),
}

/// What a JSON value denotes.
pub open spec fn meaning(j: Json) -> JsonV
    decreases j,
{
    match j {
        Json::Null => JsonV::Null,
        Json::Bool(b) => JsonV::Bool(b),
        Json::UInt(n) => JsonV::UInt(n),
        Json::Int(n) => JsonV::Int(n),
        Json::Real(s) => JsonV::Real(s@),
        Json::Text(s) => JsonV::Text(s@),
        Json::Array(a) => JsonV::Array(
            Seq::new(
                a@.len(),
                |i: int|
                    if 0 <= i < a@.len() {
                        meaning(a@[i])
                    } else {
                        JsonV::Null
                    },
            ),
        ),
        Json::Object(o) => JsonV::Object(map_of(pairs_meaning(o@))),
    }
}

/// What the pairs of an object denote.
pub open spec fn pairs_meaning(o: Seq<(String, Json)>) -> Seq<(Seq<char>, JsonV)>
    decreases o,
{
    Seq::new(
        o.len(),
        |i: int|
            if 0 <= i < o.len() {
                (o[i].0@, meaning(o[i].1))
            } else {
                (Seq::<char>::empty(), JsonV::Null)
            },
    )
}

impl DeepView for Json {
    type V = JsonV;

    open spec fn deep_view(&self) -> JsonV {
        meaning(*self)
    }
}

proof fn lemma_array(a: Vec<Json>)
    ensures
        meaning(Json::Array(a)) == JsonV::Array(a.deep_view()),
{
    assert(meaning(Json::Array(a))->Array_0 =~= a.deep_view());
}

proof fn lemma_object(o: Vec<(String, Json)>)
    ensures
        meaning(Json::Object(o)) == JsonV::Object(map_of(o.deep_view())),
{
    assert(pairs_meaning(o@) =~= o.deep_view());
}

// ---------------------------------------------------------------------------
// Reading
// ---------------------------------------------------------------------------

/// The value of a field, where the value is an object that has it.
pub open spec fn field(v: JsonV, key: Seq<char>) -> Option<JsonV> {
    match v {
        JsonV::Object(m) => if m.contains_key(key) {
            Some(m[key])
        } else {
            None
        },
        _ => None,
    }
}

/// The characters of a string value.
pub open spec fn as_text(v: JsonV) -> Option<Seq<char>> {
    match v {
        JsonV::Text(s) => Some(s),
        _ => None,
    }
}

/// The text of a field, where it is a string.
pub open spec fn text_field(v: JsonV, key: Seq<char>) -> Option<Seq<char>> {
    match field(v, key) {
        Some(x) => as_text(x),
        None => None,
    }
}

/// The strings of a list, other elements left out; none where it is no list.
pub open spec fn texts_in(v: Option<JsonV>) -> Seq<Seq<char>> {
    match v {
        Some(JsonV::Array(a)) => a.filter_map(text_rule()),
        _ => Seq::empty(),
    }
}

/// Keeps strings.
pub open spec fn text_rule() -> spec_fn(JsonV) -> Option<Seq<char>> {
    |x: JsonV| as_text(x)
}

proof fn lemma_last_pair<B>(s: Seq<(Seq<char>, B)>, k: Seq<char>, i: int)
    requires
        0 <= i < s.len(),
        s[i].0 == k,
        forall|j: int| i < j < s.len() ==> (#[trigger] s[j]).0 != k,
    ensures
        map_of(s).contains_key(k),
        map_of(s)[k] == s[i].1,
    decreases s.len(),
{
    if i < s.len() - 1 {
        lemma_last_pair(s.drop_last(), k, i);
    }
}

proof fn lemma_no_pair<B>(s: Seq<(Seq<char>, B)>, k: Seq<char>)
    requires
        forall|j: int| 0 <= j < s.len() ==> (#[trigger] s[j]).0 != k,
    ensures
        !map_of(s).contains_key(k),
    decreases s.len(),
{
    if s.len() > 0 {
        lemma_no_pair(s.drop_last(), k);
    }
}

impl Json {
    /// Looks up a field of an object.
    pub fn get(&self, key: &str) -> (r: Option<&Json>)
        ensures
            r.deep_view() == field(self.deep_view(), key@),
    {
        match self {
            Json::Object(o) => {
                proof {
                    lemma_object(*o);
                }
                let ghost all = o.deep_view();
                let mut i: usize = o.len();
                while i > 0
                    invariant
                        i <= o@.len(),
                        all == o.deep_view(),
                        self.deep_view() == JsonV::Object(map_of(all)),
                        forall|j: int| i <= j < all.len() ==> (#[trigger] all[j]).0 != key@,
                    decreases i,
                {
                    i = i - 1;
                    assert(all[i as int] == (o@[i as int].0@, o@[i as int].1.deep_view()));
                    if str_eq(o[i].0.as_str(), key) {
                        proof {
                            lemma_last_pair(all, key@, i as int);
                        }
                        return Some(&o[i].1);
                    }
                }
                proof {
                    lemma_no_pair(all, key@);
                }
                None
            },
            _ => None,
        }
    }

    /// The text of a string.
    pub fn as_str(&self) -> (r: Option<&String>)
        ensures
            r.deep_view() == as_text(self.deep_view()),
    {
        match self {
            Json::Text(s) => Some(s),
            _ => None,
        }
    }

    /// The text of a field that is a string.
    pub fn get_str(&self, key: &str) -> (r: Option<&String>)
        ensures
            r.deep_view() == text_field(self.deep_view(), key@),
    {
        match self.get(key) {
            Some(x) => x.as_str(),
            None => None,
        }
    }
}

/// Collects the strings of a list.
pub fn strings_in(v: Option<&Json>) -> (r: Vec<String>)
    ensures
        r.deep_view() == texts_in(v.deep_view()),
{
    let mut out: Vec<String> = Vec::new();
    assert(out.deep_view() =~= Seq::<Seq<char>>::empty());
    match v {
        Some(Json::Array(a)) => {
            proof {
                lemma_array(*a);
            }
            let ghost all = a.deep_view();
            let mut i: usize = 0;
            assert(all.take(0) =~= Seq::<JsonV>::empty());
            while i < a.len()
                invariant
                    i <= a@.len(),
                    all == a.deep_view(),
                    out.deep_view() == all.take(i as int).filter_map(text_rule()),
                decreases a@.len() - i,
            {
                proof {
                    lemma_filter_map_step(all, text_rule(), i as int);
                    assert(all[i as int] == a@[i as int].deep_view());
                }
                match a[i].as_str() {
                    Some(s) => {
                        let ghost before = out.deep_view();
                        out.push(s.clone());
                        assert(out.deep_view() =~= before.push(s@));
                    },
                    None => {},
                }
                i = i + 1;
            }
            assert(all.take(i as int) =~= all);
            out
        },
        _ => out,
    }
}

// ---------------------------------------------------------------------------
// Building
// ---------------------------------------------------------------------------

/// A list of strings.
pub open spec fn text_array(s: Seq<Seq<char>>) -> JsonV {
    JsonV::Array(Seq::new(s.len(), |i: int| JsonV::Text(s[i])))
}

/// Of a list of strings all are kept.
pub proof fn lemma_texts_kept(s: Seq<Seq<char>>)
    ensures
        texts_in(Some(text_array(s))) == s,
    decreases s.len(),
{
    let a = text_array(s)->Array_0;
    reveal(Seq::filter_map);
    if s.len() > 0 {
        let n = s.len() - 1;
        let init = text_array(s.drop_last())->Array_0;
        lemma_texts_kept(s.drop_last());
        lemma_filter_map_step(a, text_rule(), n);
        assert(a.take(n + 1) =~= a);
        assert(a.take(n) =~= init);
        assert(a[n] == JsonV::Text(s[n]));
        assert(s.drop_last().push(s[n]) =~= s);
    }
}

/// A string value.
pub fn text(s: &str) -> (r: Json)
    ensures
        r.deep_view() == JsonV::Text(s@),
{
    Json::Text(s.to_owned())
}

/// A list value.
pub fn array(a: Vec<Json>) -> (r: Json)
    ensures
        r.deep_view() == JsonV::Array(a.deep_view()),
{
    proof {
        lemma_array(a);
    }
    Json::Array(a)
}

/// A list of strings.
pub fn strings(v: &Vec<String>) -> (r: Json)
    ensures
        r.deep_view() == text_array(v.deep_view()),
{
    let ghost all = v.deep_view();
    let mut out: Vec<Json> = Vec::new();
    let mut i: usize = 0;
    while i < v.len()
        invariant
            i <= v@.len(),
            all == v.deep_view(),
            out@.len() == i,
            forall|j: int| 0 <= j < i ==> (#[trigger] out@[j]).deep_view() == JsonV::Text(all[j]),
        decreases v@.len() - i,
    {
        out.push(text(v[i].as_str()));
        i = i + 1;
    }
    assert(JsonV::Array(out.deep_view()) == text_array(all)) by {
        assert(out.deep_view() =~= text_array(all)->Array_0);
    }
    array(out)
}

/// A list of fixed strings.
pub fn literals(v: Vec<&str>) -> (r: Json)
    ensures
        r.deep_view() == text_array(v.deep_view()),
{
    let ghost all = v.deep_view();
    let mut out: Vec<Json> = Vec::new();
    let mut i: usize = 0;
    while i < v.len()
        invariant
            i <= v@.len(),
            all == v.deep_view(),
            out@.len() == i,
            forall|j: int| 0 <= j < i ==> (#[trigger] out@[j]).deep_view() == JsonV::Text(all[j]),
        decreases v@.len() - i,
    {
        out.push(text(v[i]));
        i = i + 1;
    }
    assert(JsonV::Array(out.deep_view()) == text_array(all)) by {
        assert(out.deep_view() =~= text_array(all)->Array_0);
    }
    array(out)
}

/// An object that is being built.
pub struct Fields {
    pairs: Vec<(String, Json)>,
}

impl Fields {
    /// The fields so far.
    pub closed spec fn map(&self) -> Map<Seq<char>, JsonV> {
        map_of(self.pairs.deep_view())
    }

    /// No fields.
    pub fn new() -> (r: Self)
        ensures
            r.map() == Map::<Seq<char>, JsonV>::empty(),
    {
        let pairs: Vec<(String, Json)> = Vec::new();
        assert(pairs.deep_view() =~= Seq::<(Seq<char>, JsonV)>::empty());
        Fields { pairs }
    }

    /// One more field.
    pub fn with(self, key: &str, value: Json) -> (r: Self)
        ensures
            r.map() == self.map().insert(key@, value.deep_view()),
    {
        let mut pairs: Vec<(String, Json)> = self.pairs;
        let ghost before = pairs.deep_view();
        let ghost x = (key@, value.deep_view());
        pairs.push((key.to_owned(), value));
        assert(pairs.deep_view() =~= before.push(x));
        assert(before.push(x).drop_last() =~= before);
        Fields { pairs }
    }

    /// The object with these fields.
    pub fn object(self) -> (r: Json)
        ensures
            r.deep_view() == JsonV::Object(self.map()),
    {
        proof {
            lemma_object(self.pairs);
        }
        Json::Object(self.pairs)
    }
}

// ---------------------------------------------------------------------------
// Text, by serde_json
// ---------------------------------------------------------------------------

/// Whether a key is none of those that serde_json reserves for itself: an object
/// with one of them may be read as something else.
pub open spec fn plain_key(k: Seq<char>) -> bool {
    !has_prefix(k, "$serde_json::private::"@)
}

/// A key that does not begin with `$` is plain.
pub proof fn lemma_plain_key(k: Seq<char>)
    requires
        k.len() == 0 || k[0] != '$',
    ensures
        plain_key(k),
{
    let p = "$serde_json::private::"@;
    reveal_strlit("$serde_json::private::");
    if has_prefix(k, p) {
        assert(k.subrange(0, p.len() as int)[0] == p[0]);
    }
}

/// Whether a value holds no numbers but integers, those below zero apart from
/// the others, and no keys but plain ones, and is nested at most `depth` deep.
pub open spec fn is_plain(v: JsonV, depth: nat) -> bool
    decreases depth,
{
    match v {
        JsonV::Real(_) => false,
        JsonV::Int(n) => n < 0,
        JsonV::Array(a) => depth > 0 && forall|i: int|
            0 <= i < a.len() ==> is_plain(#[trigger] a[i], (depth - 1) as nat),
        JsonV::Object(m) => depth > 0 && forall|k: Seq<char>| #[trigger]
            m.contains_key(k) ==> plain_key(k) && is_plain(m[k], (depth - 1) as nat),
        _ => true,
    }
}

/// An object stays plain with one more plain field.
pub broadcast proof fn lemma_plain_field(m: Map<Seq<char>, JsonV>, k: Seq<char>, v: JsonV, depth: nat)
    requires
        depth > 0,
        plain_key(k),
        is_plain(JsonV::Object(m), depth),
        is_plain(v, (depth - 1) as nat),
    ensures
        #[trigger] is_plain(JsonV::Object(m.insert(k, v)), depth),
{
    let o = JsonV::Object(m);
    assert(is_plain(o, depth));
    assert(o->Object_0 == m);
    assert(forall|q: Seq<char>| #[trigger]
        o->Object_0.contains_key(q) ==> plain_key(q) && is_plain(o->Object_0[q], (depth - 1) as nat));
    let n = m.insert(k, v);
    assert forall|x: Seq<char>| #[trigger] n.contains_key(x) implies plain_key(x) && is_plain(
        n[x],
        (depth - 1) as nat,
    ) by {
        if x != k {
            assert(m.contains_key(x));
            assert(n[x] == m[x]);
            assert(is_plain(m[x], (depth - 1) as nat));
        } else {
            assert(n[x] == v);
        }
    }
}

/// The empty object is plain.
pub broadcast proof fn lemma_plain_empty(depth: nat)
    requires
        depth > 0,
    ensures
        #[trigger] is_plain(JsonV::Object(Map::<Seq<char>, JsonV>::empty()), depth),
{
}

/// A list of strings is plain.
pub broadcast proof fn lemma_plain_texts(s: Seq<Seq<char>>, depth: nat)
    requires
        depth > 0,
    ensures
        #[trigger] is_plain(text_array(s), depth),
{
    let a = text_array(s)->Array_0;
    assert forall|i: int| 0 <= i < a.len() implies is_plain(#[trigger] a[i], (depth - 1) as nat) by {
        assert(a[i] == JsonV::Text(s[i]));
    }
}

/// A value stays plain where it may be nested deeper.
pub proof fn lemma_plain_deeper(v: JsonV, a: nat, b: nat)
    requires
        a <= b,
        is_plain(v, a),
    ensures
        is_plain(v, b),
    decreases a,
{
    match v {
        JsonV::Array(s) => {
            assert forall|i: int| 0 <= i < s.len() implies is_plain(
                #[trigger] s[i],
                (b - 1) as nat,
            ) by {
                lemma_plain_deeper(s[i], (a - 1) as nat, (b - 1) as nat);
            }
        },
        JsonV::Object(m) => {
            assert forall|k: Seq<char>| #[trigger] m.contains_key(k) implies plain_key(k) && is_plain(
                m[k],
                (b - 1) as nat,
            ) by {
                lemma_plain_deeper(m[k], (a - 1) as nat, (b - 1) as nat);
            }
        },
        _ => {},
    }
}

/// What keeps a value plain.
pub broadcast group group_plain {
    lemma_plain_field,
    lemma_plain_empty,
    lemma_plain_texts,
}

/// serde_json's representation of a JSON value.
#[verifier::external_type_specification]
#[verifier::external_body]
pub struct ExValue(serde_json::Value);

/// What a value of serde_json denotes.
pub uninterp spec fn value_of(v: serde_json::Value) -> JsonV;

/// What serde_json reads from a byte sequence, where it is JSON.
pub uninterp spec fn json_in(bytes: Seq<u8>) -> Option<JsonV>;

/// The text that serde_json writes for a value, without whitespace.
pub uninterp spec fn compact_text(v: JsonV) -> Seq<char>;

/// The text that serde_json writes for a value, with line breaks and indentation.
pub uninterp spec fn pretty_text(v: JsonV) -> Seq<char>;

/// Whether a text is what is written for a value with line breaks and
/// indentation, and reads as that value again.
pub open spec fn writes(t: Seq<char>, v: JsonV) -> bool {
    t == pretty_text(v) && json_in(encode_utf8(t)) == Some(v)
}

/// Reads JSON, by `serde_json::from_slice`: none where the bytes are not JSON.
/// What is read is a function of the bytes.
#[verifier::external_body]
pub(crate) fn read_value(bytes: &[u8]) -> (r: Option<serde_json::Value>)
    ensures
        match r {
            Some(v) => json_in(bytes@) == Some(value_of(v)),
            None => json_in(bytes@) is None,
        },
{
    match serde_json::from_slice(bytes) {
        Ok(v) => Some(v),
        Err(_) => None,
    }
}

/// Writes a value, by `serde_json::to_string`, which fails on no value: the text
/// is a function of what the value denotes, and where that has integers only, no
/// key that serde_json reserves for itself, and is nested less than 128 deep,
/// reading the text gives the same again.
#[verifier::external_body]
pub(crate) fn write_value(v: &serde_json::Value) -> (r: Option<String>)
    ensures
        r is Some,
        r->0@ == compact_text(value_of(*v)),
        is_plain(value_of(*v), 127) ==> json_in(encode_utf8(r->0@)) == Some(value_of(*v)),
{
    match serde_json::to_string(v) {
        Ok(s) => Some(s),
        Err(_) => None,
    }
}

/// Writes a value, by `serde_json::to_string_pretty`, which fails on no value:
/// the text is a function of what the value denotes, and where that has integers
/// only, no key that serde_json reserves for itself, and is nested less than 128
/// deep, reading the text gives the same again.
#[verifier::external_body]
pub(crate) fn write_pretty(v: &serde_json::Value) -> (r: Option<String>)
    ensures
        r is Some,
        r->0@ == pretty_text(value_of(*v)),
        is_plain(value_of(*v), 127) ==> json_in(encode_utf8(r->0@)) == Some(value_of(*v)),
{
    match serde_json::to_string_pretty(v) {
        Ok(s) => Some(s),
        Err(_) => None,
    }
}

/// Turns a `serde_json::Value` into a [`Json`], variant by variant.
#[verifier::external_body]
pub(crate) fn to_json(v: serde_json::Value) -> (r: Json)
    ensures
        r.deep_view() == value_of(v),
{
    match v {
        serde_json::Value::Null => Json::Null,
        serde_json::Value::Bool(b) => Json::Bool(b),
        serde_json::Value::Number(n) => match (n.as_u64(), n.as_i64()) {
            (Some(u), _) => Json::UInt(u),
            (_, Some(i)) => Json::Int(i),
            _ => Json::Real(n.to_string()),
        },
        serde_json::Value::String(s) => Json::Text(s),
        serde_json::Value::Array(a) => Json::Array(a.into_iter().map(to_json).collect()),
        serde_json::Value::Object(m) => Json::Object(
            m.into_iter().map(|e| (e.0, to_json(e.1))).collect(),
        ),
    }
}

/// Turns a [`Json`] without fractional numbers into a `serde_json::Value`,
/// variant by variant.
#[verifier::external_body]
pub(crate) fn to_value(j: Json) -> (r: serde_json::Value)
    ensures
        is_plain(j.deep_view(), 127) ==> value_of(r) == j.deep_view(),
{
    match j {
        Json::Null => serde_json::Value::Null,
        Json::Bool(b) => serde_json::Value::Bool(b),
        Json::UInt(u) => serde_json::Value::from(u),
        Json::Int(i) => serde_json::Value::from(i),
        Json::Real(s) => serde_json::Value::String(s),
        Json::Text(s) => serde_json::Value::String(s),
        Json::Array(a) => serde_json::Value::Array(a.into_iter().map(to_value).collect()),
        Json::Object(o) => serde_json::Value::Object(
            o.into_iter().map(|e| (e.0, to_value(e.1))).collect(),
        ),
    }
}

/// Whether a value is an object, by `serde_json::Value::is_object`.
#[verifier::external_body]
fn is_object(v: &serde_json::Value) -> (r: bool)
    ensures
        r == (value_of(*v) is Object),
{
    v.is_object()
}

/// Whether a value is null, by `serde_json::Value::is_null`.
#[verifier::external_body]
fn is_null(v: &serde_json::Value) -> (r: bool)
    ensures
        r == (value_of(*v) is Null),
{
    v.is_null()
}

/// The fields of a value: those of an object, none of anything else.
pub open spec fn fields_of(v: JsonV) -> Map<Seq<char>, JsonV> {
    match v {
        JsonV::Object(m) => m,
        _ => Map::empty(),
    }
}

/// Sets a field, by assignment through `serde_json::Value`'s `IndexMut` for
/// strings, which takes null for an empty object and panics on anything else
/// that is not an object.
#[verifier::external_body]
fn set_field(v: &mut serde_json::Value, key: &str, x: serde_json::Value)
    requires
        value_of(*old(v)) is Object || value_of(*old(v)) is Null,
    ensures
        value_of(*final(v)) == JsonV::Object(fields_of(value_of(*old(v))).insert(key@, value_of(x))),
{
    v[key] = x;
}

/// A value with a field set; none where it is neither an object nor null.
pub(crate) fn with_field(v: serde_json::Value, key: &str, x: serde_json::Value) -> (r: Option<
    serde_json::Value,
>)
    ensures
        match r {
            Some(n) => (value_of(v) is Object || value_of(v) is Null) && value_of(n)
                == JsonV::Object(fields_of(value_of(v)).insert(key@, value_of(x))),
            None => !(value_of(v) is Object || value_of(v) is Null),
        },
{
    if is_object(&v) || is_null(&v) {
        let mut n: serde_json::Value = v;
        set_field(&mut n, key, x);
        Some(n)
    } else {
        None
    }
}

/// Reads JSON from bytes.
pub fn parse_bytes(bytes: &[u8]) -> (r: Option<Json>)
    ensures
        r.deep_view() == json_in(bytes@),
{
    match read_value(bytes) {
        Some(v) => Some(to_json(v)),
        None => None,
    }
}

/// Reads JSON from a text.
pub fn parse_text(s: &str) -> (r: Option<Json>)
    ensures
        r.deep_view() == json_in(encode_utf8(s@)),
{
    parse_bytes(s.as_bytes())
}

/// Writes a value with line breaks and indentation. What is written reads as
/// the value again.
pub fn to_pretty(j: Json) -> (r: String)
    requires
        is_plain(j.deep_view(), 127),
    ensures
        writes(r@, j.deep_view()),
{
    let v: serde_json::Value = to_value(j);
    write_pretty(&v).unwrap()
}

/// Writes a value without whitespace. What is written reads as the value again.
pub fn to_compact(j: Json) -> (r: String)
    requires
        is_plain(j.deep_view(), 127),
    ensures
        r@ == compact_text(j.deep_view()),
        json_in(encode_utf8(r@)) == Some(j.deep_view()),
{
    let v: serde_json::Value = to_value(j);
    write_value(&v).unwrap()
}

} // verus!
