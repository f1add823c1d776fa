//! JSON values as plain data.
use crate::text;
use vstd::prelude::*;

verus! {

/// A JSON number: its value where it is an integer of 64 bits, and how it is written.
#[derive(Debug, PartialEq, Eq)]
pub struct JsonNumber {
    pub unsigned: Option<u64>,
    pub signed: Option<i64>,
    pub text: String,
}

#[derive(Debug, PartialEq, Eq)]
pub enum Json {
    Null,
    Bool(bool),
    Number(JsonNumber),
    Str(String),
    Array(Vec<Json>),
    Object(Vec<(String, Json)>),
}

/// What a JSON value says, with texts as character sequences.
#[verifier::ext_equal]
pub enum JsonView {
    Null,
    Bool(bool),
    Number(Option<u64>, Option<i64>, Seq<char>),
    Str(Seq<char>),
    Array(Seq<JsonView>),
    Object(Seq<(Seq<char>, JsonView)>),
}

impl View for Json {
    type V = JsonView;

    open spec fn view(&self) -> JsonView {
        json_view(*self)
    }
}

pub open spec fn json_view(j: Json) -> JsonView
    decreases j,
{
    match j {
        Json::Null => JsonView::Null,
        Json::Bool(b) => JsonView::Bool(b),
        Json::Number(n) => JsonView::Number(n.unsigned, n.signed, n.text@),
        Json::Str(s) => JsonView::Str(s@),
        Json::Array(items) => JsonView::Array(
            Seq::new(
                items@.len(),
                |i: int|
                    if 0 <= i < items@.len() {
                        json_view(items@[i])
                    } else {
                        JsonView::Null
                    },
            ),
        ),
        Json::Object(entries) => JsonView::Object(
            Seq::new(
                entries@.len(),
                |i: int|
                    if 0 <= i < entries@.len() {
                        (entries@[i].0@, json_view(entries@[i].1))
                    } else {
                        (Seq::empty(), JsonView::Null)
                    },
            ),
        ),
    }
}

pub open spec fn list_view(items: Seq<Json>) -> Seq<JsonView> {
    Seq::new(items.len(), |i: int| items[i]@)
}

pub open spec fn entries_view(entries: Seq<(String, Json)>) -> Seq<(Seq<char>, JsonView)> {
    Seq::new(entries.len(), |i: int| (entries[i].0@, entries[i].1@))
}

pub broadcast proof fn lemma_array_view(j: Json)
    requires
        j is Array,
    ensures
        #[trigger] j@ == JsonView::Array(list_view(j->Array_0@)),
{
    assert(j@->Array_0 =~= list_view(j->Array_0@));
}

pub broadcast proof fn lemma_object_view(j: Json)
    requires
        j is Object,
    ensures
        #[trigger] j@ == JsonView::Object(entries_view(j->Object_0@)),
{
    assert(j@->Object_0 =~= entries_view(j->Object_0@));
}

/// The last value stored under `key`, if any.
pub open spec fn lookup(entries: Seq<(Seq<char>, JsonView)>, key: Seq<char>) -> Option<JsonView>
    decreases entries.len(),
{
    if entries.len() == 0 {
        None
    } else if entries.last().0 == key {
        Some(entries.last().1)
    } else {
        lookup(entries.drop_last(), key)
    }
}

impl JsonView {
    /// The member `key` of an object.
    pub open spec fn member(self, key: Seq<char>) -> Option<JsonView> {
        match self {
            JsonView::Object(entries) => lookup(entries, key),
            _ => None,
        }
    }

    /// The member `key` of an object, or null where there is none.
    pub open spec fn at(self, key: Seq<char>) -> JsonView {
        match self.member(key) {
            Some(v) => v,
            None => JsonView::Null,
        }
    }

    pub open spec fn str_value(self) -> Option<Seq<char>> {
        match self {
            JsonView::Str(s) => Some(s),
            _ => None,
        }
    }

    pub open spec fn u64_value(self) -> Option<u64> {
        match self {
            JsonView::Number(n, _, _) => n,
            _ => None,
        }
    }

    pub open spec fn bool_value(self) -> Option<bool> {
        match self {
            JsonView::Bool(b) => Some(b),
            _ => None,
        }
    }

    pub open spec fn items(self) -> Option<Seq<JsonView>> {
        match self {
            JsonView::Array(items) => Some(items),
            _ => None,
        }
    }
}

/// The view of an optional text.
pub open spec fn opt_view(o: Option<String>) -> Option<Seq<char>> {
    match o {
        Some(s) => Some(s@),
        None => None,
    }
}

/// The entry of `entries` that `key` names.
pub fn find_entry<'a>(entries: &'a Vec<(String, Json)>, key: &str) -> (r: Option<&'a Json>)
    ensures
        match r {
            Some(v) => lookup(entries_view(entries@), key@) == Some(v@),
            None => lookup(entries_view(entries@), key@) is None,
        },
{
    let mut n: usize = entries.len();
    let ghost e = entries_view(entries@);
    assert(e.take(n as int) =~= e);
    while n > 0
        invariant
            n <= entries@.len(),
            e == entries_view(entries@),
            lookup(e, key@) == lookup(e.take(n as int), key@),
        decreases n,
    {
        assert(e.take(n as int).last() == e[n - 1]);
        assert(e.take(n as int).drop_last() =~= e.take(n - 1));
        if text::same(entries[n - 1].0.as_str(), key) {
            return Some(&entries[n - 1].1);
        }
        n = n - 1;
    }
    None
}

impl Json {
    /// The member `key` of an object.
    pub fn get<'a>(&'a self, key: &str) -> (r: Option<&'a Json>)
        ensures
            match r {
                Some(v) => self@.member(key@) == Some(v@),
                None => self@.member(key@) is None,
            },
    {
        broadcast use lemma_object_view;

        match self {
            Json::Object(entries) => find_entry(entries, key),
            _ => None,
        }
    }

    /// The member of the member: `self[a][b]`.
    pub fn get2<'a>(&'a self, a: &str, b: &str) -> (r: Option<&'a Json>)
        ensures
            match r {
                Some(v) => self@.at(a@).member(b@) == Some(v@),
                None => self@.at(a@).member(b@) is None,
            },
    {
        match self.get(a) {
            Some(v) => v.get(b),
            None => None,
        }
    }

    pub fn as_str(&self) -> (r: Option<String>)
        ensures
            opt_view(r) == self@.str_value(),
    {
        match self {
            Json::Str(s) => Some(s.clone()),
            _ => None,
        }
    }

    pub fn as_u64(&self) -> (r: Option<u64>)
        ensures
            r == self@.u64_value(),
    {
        match self {
            Json::Number(n) => n.unsigned,
            _ => None,
        }
    }

    pub fn as_bool(&self) -> (r: Option<bool>)
        ensures
            r == self@.bool_value(),
    {
        match self {
            Json::Bool(b) => Some(*b),
            _ => None,
        }
    }

    /// The text under `key`, where the value is an object that holds a text there.
    pub fn str_at(&self, key: &str) -> (r: Option<String>)
        ensures
            opt_view(r) == self@.at(key@).str_value(),
    {
        match self.get(key) {
            Some(v) => v.as_str(),
            None => None,
        }
    }

    pub fn u64_at(&self, key: &str) -> (r: Option<u64>)
        ensures
            r == self@.at(key@).u64_value(),
    {
        match self.get(key) {
            Some(v) => v.as_u64(),
            None => None,
        }
    }

    /// A value with the same contents.
    pub fn copy(&self) -> (r: Json)
        ensures
            r@ == self@,
        decreases self,
    {
        broadcast use {lemma_object_view, lemma_array_view};

        match self {
            Json::Null => Json::Null,
            Json::Bool(b) => Json::Bool(*b),
            Json::Number(n) => Json::Number(
                JsonNumber { unsigned: n.unsigned, signed: n.signed, text: n.text.clone() },
            ),
            Json::Str(s) => Json::Str(s.clone()),
            Json::Array(items) => {
                let mut out: Vec<Json> = Vec::new();
                let mut i: usize = 0;
                while i < items.len()
                    invariant
                        i <= items@.len(),
                        self matches Json::Array(v) && v == items,
                        out@.len() == i,
                        forall|k: int| 0 <= k < i ==> (#[trigger] out@[k])@ == items@[k]@,
                    decreases items@.len() - i,
                {
                    out.push(items[i].copy());
                    i = i + 1;
                }
                let r = Json::Array(out);
                assert(list_view(out@) =~= list_view(items@));
                r
            },
            Json::Object(entries) => {
                let out = copy_entries(entries);
                Json::Object(out)
            },
        }
    }
}

/// Entries with the same contents.
pub fn copy_entries(entries: &Vec<(String, Json)>) -> (out: Vec<(String, Json)>)
    ensures
        entries_view(out@) == entries_view(entries@),
    decreases entries,
{
    let mut out: Vec<(String, Json)> = Vec::new();
    let mut i: usize = 0;
    while i < entries.len()
        invariant
            i <= entries@.len(),
            out@.len() == i,
            forall|k: int|
                0 <= k < i ==> (#[trigger] out@[k]).0@ == entries@[k].0@ && out@[k].1@
                    == entries@[k].1@,
        decreases entries@.len() - i,
    {
        let key = entries[i].0.clone();
        let value = entries[i].1.copy();
        out.push((key, value));
        i = i + 1;
    }
    assert(entries_view(out@) =~= entries_view(entries@));
    out
}

/// The text value `s`.
pub fn str_value(s: &str) -> (r: Json)
    ensures
        r@ == JsonView::Str(s@),
{
    Json::Str(text::copy(s))
}

/// The natural number `n` as a JSON value.
pub open spec fn nat_view(n: u64) -> JsonView {
    JsonView::Number(
        Some(n),
        if n <= i64::MAX {
            Some(n as i64)
        } else {
            None
        },
        text::decimal(n as int),
    )
}

pub fn nat_value(n: u64) -> (r: Json)
    ensures
        r@ == nat_view(n),
{
    let signed: Option<i64> = if n <= 0x7fff_ffff_ffff_ffff {
        Some(n as i64)
    } else {
        None
    };
    Json::Number(JsonNumber { unsigned: Some(n), signed, text: text::decimal_of(n) })
}

/// Adds an entry behind the others.
pub fn put(entries: &mut Vec<(String, Json)>, key: &str, value: Json)
    ensures
        entries_view(final(entries)@) == entries_view(old(entries)@).push((key@, value@)),
{
    let ghost before = entries_view(entries@);
    let ghost v = value@;
    entries.push((text::copy(key), value));
    assert(entries_view(entries@) =~= before.push((key@, v)));
}

/// Adds a value behind the others.
pub fn put_item(items: &mut Vec<Json>, value: Json)
    ensures
        list_view(final(items)@) == list_view(old(items)@).push(value@),
{
    let ghost before = list_view(items@);
    let ghost v = value@;
    items.push(value);
    assert(list_view(items@) =~= before.push(v));
}

pub fn object(entries: Vec<(String, Json)>) -> (r: Json)
    ensures
        r@ == JsonView::Object(entries_view(entries@)),
{
    broadcast use lemma_object_view;

    Json::Object(entries)
}

pub fn array(items: Vec<Json>) -> (r: Json)
    ensures
        r@ == JsonView::Array(list_view(items@)),
{
    broadcast use lemma_array_view;

    Json::Array(items)
}

pub proof fn lemma_empty_views()
    ensures
        entries_view(Seq::empty()) == Seq::<(Seq<char>, JsonView)>::empty(),
        list_view(Seq::empty()) == Seq::<JsonView>::empty(),
{
    assert(entries_view(Seq::empty()) =~= Seq::<(Seq<char>, JsonView)>::empty());
    assert(list_view(Seq::empty()) =~= Seq::<JsonView>::empty());
}

/// Whether two values say the same; the members of an object may stand in any order.
pub open spec fn same_value(a: JsonView, b: JsonView) -> bool
    decreases a,
{
    match (a, b) {
        (JsonView::Array(x), JsonView::Array(y)) => {
            &&& x.len() == y.len()
            &&& forall|i: int| 0 <= i < x.len() ==> same_value(#[trigger] x[i], y[i])
        },
        (JsonView::Object(x), JsonView::Object(y)) => {
            &&& x.len() == y.len()
            &&& forall|i: int|
                0 <= i < x.len() ==> match lookup(y, (#[trigger] x[i]).0) {
                    Some(v) => same_value(x[i].1, v),
                    None => false,
                }
            &&& forall|i: int| 0 <= i < y.len() ==> lookup(x, (#[trigger] y[i]).0) is Some
        },
        _ => a == b,
    }
}

/// Whether the parts of a number belong together, for an integer of 64 bits.
pub open spec fn whole_number(unsigned: Option<u64>, signed: Option<i64>, s: Seq<char>) -> bool {
    match (unsigned, signed) {
        (Some(n), _) => {
            &&& s == text::decimal(n as int)
            &&& signed == (if n <= 0x7fff_ffff_ffff_ffff {
                Some(n as i64)
            } else {
                None
            })
        },
        (None, Some(n)) => n < 0 && s == "-"@ + text::decimal(-n),
        (None, None) => false,
    }
}

/// No key occurs twice.
pub open spec fn distinct_keys(entries: Seq<(Seq<char>, JsonView)>) -> bool {
    forall|i: int, j: int|
        0 <= i < j < entries.len() ==> (#[trigger] entries[i]).0 != (#[trigger] entries[j]).0
}

/// Whether a value is certain to be read back as it was written: its numbers are integers, no
/// object has a key twice, and its lists and objects stand in one another at most `depth` deep.
pub open spec fn writable(v: JsonView, depth: nat) -> bool
    decreases v,
{
    match v {
        JsonView::Number(unsigned, signed, s) => whole_number(unsigned, signed, s),
        JsonView::Array(items) => {
            &&& depth > 0
            &&& forall|i: int|
                0 <= i < items.len() ==> writable(#[trigger] items[i], (depth - 1) as nat)
        },
        JsonView::Object(entries) => {
            &&& depth > 0
            &&& distinct_keys(entries)
            &&& forall|i: int|
                0 <= i < entries.len() ==> writable((#[trigger] entries[i]).1, (depth - 1) as nat)
        },
        _ => true,
    }
}

/// A value that is found is one of the entries.
pub proof fn lemma_lookup_found(entries: Seq<(Seq<char>, JsonView)>, key: Seq<char>) -> (i: int)
    requires
        lookup(entries, key) is Some,
    ensures
        0 <= i < entries.len(),
        entries[i] == (key, lookup(entries, key)->0),
    decreases entries.len(),
{
    if entries.last().0 == key {
        entries.len() - 1
    } else {
        let i = lemma_lookup_found(entries.drop_last(), key);
        assert(entries.drop_last()[i] == entries[i]);
        i
    }
}

/// A key that is there is found.
pub proof fn lemma_lookup_finds(entries: Seq<(Seq<char>, JsonView)>, i: int)
    requires
        0 <= i < entries.len(),
    ensures
        lookup(entries, entries[i].0) is Some,
    decreases entries.len(),
{
    if i < entries.len() - 1 {
        assert(entries.drop_last()[i] == entries[i]);
        lemma_lookup_finds(entries.drop_last(), i);
    }
}

/// Values that say the same have the same members.
pub proof fn lemma_same_member(a: JsonView, b: JsonView, key: Seq<char>)
    requires
        same_value(a, b),
    ensures
        match (a.member(key), b.member(key)) {
            (Some(v), Some(w)) => same_value(v, w),
            (None, None) => true,
            _ => false,
        },
{
    match (a, b) {
        (JsonView::Object(x), JsonView::Object(y)) => {
            if a.member(key) is Some {
                let i = lemma_lookup_found(x, key);
                assert(x[i].0 == key);
            } else if b.member(key) is Some {
                let j = lemma_lookup_found(y, key);
                assert(y[j].0 == key);
            }
        },
        _ => {},
    }
}

/// How deep lists and objects may stand in one another for `serde_json` to read them.
pub const MAX_DEPTH: usize = 127;

/// What `serde_json::from_str` makes of a text read as any JSON value; nothing where it is an
/// error.
pub uninterp spec fn json_of_text(s: Seq<char>) -> Option<JsonView>;

/// What `serde_json::Value`'s `to_string` writes for a value.
pub uninterp spec fn text_of_json(v: JsonView) -> Seq<char>;

/// The value type of `serde_json`, carried between the parser and the conversions below.
#[verifier::external_type_specification]
#[verifier::external_body]
pub struct ExValue(serde_json::Value);

/// Hands over the contents of a `serde_json::Value` as plain data: each variant becomes the
/// variant of the same name, and a number the results of its `as_u64`, `as_i64` and
/// `to_string`. Nothing is claimed of it here; `parse_json` says what comes of it.
#[verifier::external_body]
fn from_value(value: serde_json::Value) -> Json {
    match value {
        serde_json::Value::Null => Json::Null,
        serde_json::Value::Bool(b) => Json::Bool(b),
        serde_json::Value::Number(n) => Json::Number(
            JsonNumber { unsigned: n.as_u64(), signed: n.as_i64(), text: n.to_string() },
        ),
        serde_json::Value::String(s) => Json::Str(s),
        serde_json::Value::Array(items) => Json::Array(items.into_iter().map(from_value).collect()),
        serde_json::Value::Object(map) => Json::Object(
            map.into_iter().map(|(key, item)| (key, from_value(item))).collect(),
        ),
    }
}

/// Rebuilds a `serde_json::Value` from plain data, a number from its text. Nothing is claimed
/// of it here; `print_json` says what comes of it.
#[verifier::external_body]
fn to_value(json: &Json) -> serde_json::Value {
    match json {
        Json::Null => serde_json::Value::Null,
        Json::Bool(b) => serde_json::Value::Bool(*b),
        Json::Number(n) => serde_json::from_str(&n.text).unwrap_or(serde_json::Value::Null),
        Json::Str(s) => serde_json::Value::String(s.clone()),
        Json::Array(items) => serde_json::Value::Array(items.iter().map(to_value).collect()),
        Json::Object(entries) => serde_json::Value::Object(
            entries.iter().map(|(key, item)| (key.clone(), to_value(item))).collect(),
        ),
    }
}

/// Calls `serde_json::from_str` for a `serde_json::Value`: the value that the text spells, or
/// nothing where it spells none. An object's members come with distinct keys.
#[verifier::external_body]
pub(crate) fn parse_json(s: &str) -> (r: Option<Json>)
    ensures
        match r {
            Some(j) => json_of_text(s@) == Some(j@),
            None => json_of_text(s@) is None,
        },
{
    match serde_json::from_str::<serde_json::Value>(s) {
        Ok(value) => Some(from_value(value)),
        Err(_) => None,
    }
}

/// Whether a text, read as JSON, says the same as `v`.
pub open spec fn says(s: Seq<char>, v: JsonView) -> bool {
    json_of_text(s) matches Some(w) && same_value(w, v)
}

/// Calls `to_string` of `serde_json::Value`: the compact text of a value. Read again, it gives a
/// value that says the same, where numbers are integers, keys are distinct and the nesting stays
/// within what the reader takes; nothing is claimed of other numbers, which may lose digits. It
/// holds while the features `raw_value` and `arbitrary_precision` of that crate are off, which
/// give objects with certain keys another meaning; no dependency of this project turns them on.
#[verifier::external_body]
pub(crate) fn print_json(json: &Json) -> (r: String)
    ensures
        r@ == text_of_json(json@),
        writable(json@, MAX_DEPTH as nat) ==> says(r@, json@),
{
    to_value(json).to_string()
}

/// The members of the object that a text spells; none where it spells no object.
pub open spec fn object_of_text(s: Seq<char>) -> Seq<(Seq<char>, JsonView)> {
    match json_of_text(s) {
        Some(JsonView::Object(entries)) => entries,
        _ => Seq::empty(),
    }
}

pub fn parse_object(s: &str) -> (r: Vec<(String, Json)>)
    ensures
        entries_view(r@) == object_of_text(s@),
{
    broadcast use lemma_object_view;

    match parse_json(s) {
        Some(Json::Object(entries)) => entries,
        _ => {
            let none: Vec<(String, Json)> = Vec::new();
            assert(entries_view(none@) =~= Seq::empty());
            none
        },
    }
}

} // verus!
