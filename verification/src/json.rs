//! The JSON values that the Pi RPC protocol exchanges, with the few
//! accessors that the event handling reads.

use vstd::prelude::*;
use crate::text::str_eq;

verus! {

broadcast use vstd::std_specs::vec::group_vec_axioms;

/// A JSON number, as it was written: a non-negative integer, a negative
/// integer, or any other number kept in its decimal text.
pub enum JsonNumber {
    PosInt(u64),
    NegInt(i64),
    Float(String),
}

/// A JSON value. An object keeps its members in order; a key is looked up
/// at its first member.
pub enum Json {
    Null,
    Bool(bool),
    Number(JsonNumber),
    Str(String),
    Array(Vec<Json>),
    Object(Vec<(String, Json)>),
}

/// The mathematical view of a `JsonNumber`.
pub enum NumberView {
    PosInt(u64),
    NegInt(i64),
    Float(Seq<char>),
}

/// The mathematical view of a `Json` value.
pub enum JsonView {
    Null,
    Bool(bool),
    Number(NumberView),
    Str(Seq<char>),
    Array(Seq<JsonView>),
    Object(Seq<(Seq<char>, JsonView)>),
}

impl View for JsonNumber {
    type V = NumberView;

    open spec fn view(&self) -> NumberView {
        match self {
            JsonNumber::PosInt(n) => NumberView::PosInt(*n),
            JsonNumber::NegInt(n) => NumberView::NegInt(*n),
            JsonNumber::Float(t) => NumberView::Float(t@),
        }
    }
}

/// The views of a sequence of values.
pub open spec fn view_items(items: Seq<Json>) -> Seq<JsonView>
    decreases items,
{
    if items.len() == 0 {
        Seq::empty()
    } else {
        seq![json_view(items[0])] + view_items(items.subrange(1, items.len() as int))
    }
}

/// The views of a sequence of object members.
pub open spec fn view_entries(entries: Seq<(String, Json)>) -> Seq<(Seq<char>, JsonView)>
    decreases entries,
{
    if entries.len() == 0 {
        Seq::empty()
    } else {
        seq![(entries[0].0@, json_view(entries[0].1))] + view_entries(
            entries.subrange(1, entries.len() as int),
        )
    }
}

/// The view of a value.
pub open spec fn json_view(j: Json) -> JsonView
    decreases j,
{
    match j {
        Json::Null => JsonView::Null,
        Json::Bool(b) => JsonView::Bool(b),
        Json::Number(n) => JsonView::Number(n@),
        Json::Str(s) => JsonView::Str(s@),
        Json::Array(items) => JsonView::Array(view_items(items@)),
        Json::Object(entries) => JsonView::Object(view_entries(entries@)),
    }
}

impl View for Json {
    type V = JsonView;

    open spec fn view(&self) -> JsonView {
        json_view(*self)
    }
}

/// A value as JSON text can hold it: no object names a member twice, and a
/// negative-integer number is negative; at every depth.
pub open spec fn json_valid(v: JsonView) -> bool
    decreases v,
{
    match v {
        JsonView::Number(NumberView::NegInt(n)) => n < 0,
        JsonView::Array(items) => forall|i: int|
            0 <= i < items.len() ==> #[trigger] json_valid(items[i]),
        JsonView::Object(entries) => {
            &&& forall|i: int, j: int|
                0 <= i < j < entries.len() ==> #[trigger] entries[i].0 != #[trigger] entries[j].0
            &&& forall|i: int| 0 <= i < entries.len() ==> #[trigger] json_valid(entries[i].1)
        },
        _ => true,
    }
}

/// The value of the first member of `entries` named `key`.
pub open spec fn lookup(entries: Seq<(Seq<char>, JsonView)>, key: Seq<char>) -> Option<JsonView>
    decreases entries.len(),
{
    if entries.len() == 0 {
        None
    } else if entries[0].0 == key {
        Some(entries[0].1)
    } else {
        lookup(entries.drop_first(), key)
    }
}

/// No two members of `entries` share a name.
pub open spec fn names_distinct(entries: Seq<(Seq<char>, JsonView)>) -> bool {
    forall|a: int, b: int| 0 <= a < b < entries.len() ==> #[trigger] entries[a].0 != #[trigger] entries[b].0
}

/// Where no two members share a name, looking a member's name up finds
/// that member.
pub proof fn lemma_lookup_distinct(entries: Seq<(Seq<char>, JsonView)>, i: int)
    requires
        names_distinct(entries),
        0 <= i < entries.len(),
    ensures
        lookup(entries, entries[i].0) == Some(entries[i].1),
    decreases entries.len(),
{
    if i > 0 {
        let rest = entries.drop_first();
        assert(entries[0].0 != entries[i].0);
        assert forall|a: int, b: int| 0 <= a < b < rest.len() implies #[trigger] rest[a].0
            != #[trigger] rest[b].0 by {
            assert(entries[a + 1].0 != entries[b + 1].0);
        }
        lemma_lookup_distinct(rest, i - 1);
    }
}

/// In a valid object the member named `key` is the only one so named, so
/// looking it up finds it wherever it stands (the first and the last member
/// of that name are the same).
pub proof fn lemma_valid_lookup(v: JsonView, i: int)
    requires
        json_valid(v),
        v is Object,
        0 <= i < v->Object_0.len(),
    ensures
        lookup(v->Object_0, v->Object_0[i].0) == Some(v->Object_0[i].1),
{
    assert(names_distinct(v->Object_0));
    lemma_lookup_distinct(v->Object_0, i);
}

impl JsonView {
    /// The member `key` of an object; nothing for any other value.
    pub open spec fn field(self, key: Seq<char>) -> Option<JsonView> {
        match self {
            JsonView::Object(entries) => lookup(entries, key),
            _ => None,
        }
    }

    /// The text of a string.
    pub open spec fn as_text(self) -> Option<Seq<char>> {
        match self {
            JsonView::Str(s) => Some(s),
            _ => None,
        }
    }

    /// The value of a boolean.
    pub open spec fn as_boolean(self) -> Option<bool> {
        match self {
            JsonView::Bool(b) => Some(b),
            _ => None,
        }
    }

    /// The value of a non-negative integer.
    pub open spec fn as_unsigned(self) -> Option<u64> {
        match self {
            JsonView::Number(NumberView::PosInt(n)) => Some(n),
            _ => None,
        }
    }

    /// The elements of an array.
    pub open spec fn as_items(self) -> Option<Seq<JsonView>> {
        match self {
            JsonView::Array(items) => Some(items),
            _ => None,
        }
    }

    /// The text of the member `key`, where it is a string.
    pub open spec fn text_field(self, key: Seq<char>) -> Option<Seq<char>> {
        match self.field(key) {
            Some(v) => v.as_text(),
            None => None,
        }
    }

    /// The value of the member `key`, where it is a boolean.
    pub open spec fn bool_field(self, key: Seq<char>) -> Option<bool> {
        match self.field(key) {
            Some(v) => v.as_boolean(),
            None => None,
        }
    }
}

/// The view of an optional borrowed value.
pub open spec fn view_opt(r: Option<&Json>) -> Option<JsonView> {
    match r {
        Some(x) => Some(x@),
        None => None,
    }
}

/// `view_items` holds each element's view, in order.
pub proof fn lemma_view_items(items: Seq<Json>)
    ensures
        view_items(items).len() == items.len(),
        forall|i: int| 0 <= i < items.len() ==> #[trigger] view_items(items)[i] == items[i]@,
    decreases items.len(),
{
    if items.len() > 0 {
        let rest = items.subrange(1, items.len() as int);
        lemma_view_items(rest);
        assert forall|i: int| 0 <= i < items.len() implies #[trigger] view_items(items)[i]
            == items[i]@ by {
            if i > 0 {
                assert(view_items(items)[i] == view_items(rest)[i - 1]);
            }
        }
    }
}

/// `view_entries` holds each member's name and view, in order.
pub proof fn lemma_view_entries(entries: Seq<(String, Json)>)
    ensures
        view_entries(entries).len() == entries.len(),
        forall|i: int|
            0 <= i < entries.len() ==> #[trigger] view_entries(entries)[i] == (
                entries[i].0@,
                entries[i].1@,
            ),
    decreases entries.len(),
{
    if entries.len() > 0 {
        let rest = entries.subrange(1, entries.len() as int);
        lemma_view_entries(rest);
        assert forall|i: int| 0 <= i < entries.len() implies #[trigger] view_entries(entries)[i]
            == (entries[i].0@, entries[i].1@) by {
            if i > 0 {
                assert(view_entries(entries)[i] == view_entries(rest)[i - 1]);
            }
        }
    }
}

impl JsonNumber {
    /// A copy of the number.
    pub fn duplicate(&self) -> (r: JsonNumber)
        ensures
            r@ == self@,
    {
        match self {
            JsonNumber::PosInt(n) => JsonNumber::PosInt(*n),
            JsonNumber::NegInt(n) => JsonNumber::NegInt(*n),
            JsonNumber::Float(t) => JsonNumber::Float(t.clone()),
        }
    }
}

impl Json {
    /// A copy of the value.
    pub fn duplicate(&self) -> (r: Json)
        ensures
            r@ == self@,
        decreases self,
    {
        match self {
            Json::Null => Json::Null,
            Json::Bool(b) => Json::Bool(*b),
            Json::Number(n) => Json::Number(n.duplicate()),
            Json::Str(s) => Json::Str(s.clone()),
            Json::Array(items) => {
                let mut out: Vec<Json> = Vec::new();
                let n = items.len();
                proof {
                    lemma_view_items(items@);
                }
                for i in 0..n
                    invariant
                        *self == Json::Array(*items),
                        n == items@.len(),
                        view_items(items@).len() == n,
                        forall|k: int| 0 <= k < n ==> #[trigger] view_items(items@)[k] == items@[k]@,
                        out@.len() == i,
                        forall|k: int| 0 <= k < i ==> #[trigger] out@[k]@ == items@[k]@,
                {
                    proof {
                        assert(decreases_to!(*self => self->Array_0));
                        assert(decreases_to!(*items => items@));
                        assert(decreases_to!(items@ => items@[i as int]));
                    }
                    out.push(items[i].duplicate());
                }
                proof {
                    lemma_view_items(out@);
                    assert(view_items(out@) =~= view_items(items@));
                }
                Json::Array(out)
            },
            Json::Object(entries) => {
                let mut out: Vec<(String, Json)> = Vec::new();
                let n = entries.len();
                proof {
                    lemma_view_entries(entries@);
                }
                for i in 0..n
                    invariant
                        *self == Json::Object(*entries),
                        n == entries@.len(),
                        view_entries(entries@).len() == n,
                        forall|k: int|
                            0 <= k < n ==> #[trigger] view_entries(entries@)[k] == (
                                entries@[k].0@,
                                entries@[k].1@,
                            ),
                        out@.len() == i,
                        forall|k: int| 0 <= k < i ==> (#[trigger] out@[k]).0@ == entries@[k].0@,
                        forall|k: int| 0 <= k < i ==> (#[trigger] out@[k]).1@ == entries@[k].1@,
                {
                    proof {
                        assert(decreases_to!(*self => self->Object_0));
                        assert(decreases_to!(*entries => entries@));
                        assert(decreases_to!(entries@ => entries@[i as int]));
                        assert(decreases_to!(entries@[i as int] => entries@[i as int].1));
                    }
                    let name = entries[i].0.clone();
                    let value = entries[i].1.duplicate();
                    out.push((name, value));
                }
                proof {
                    lemma_view_entries(out@);
                    assert(view_entries(out@) =~= view_entries(entries@));
                }
                Json::Object(out)
            },
        }
    }
}

impl Json {
    /// The member `key` of an object (`serde_json::Value::get` with a string key).
    pub fn get(&self, key: &str) -> (r: Option<&Json>)
        ensures
            view_opt(r) == self@.field(key@),
    {
        match self {
            Json::Object(entries) => {
                proof {
                    lemma_view_entries(entries@);
                }
                let ghost vs = view_entries(entries@);
                assert(vs.skip(0) =~= vs);
                let n = entries.len();
                let mut i: usize = 0;
                while i < n
                    invariant
                        *self == Json::Object(*entries),
                        vs == view_entries(entries@),
                        n == entries@.len(),
                        i <= n,
                        vs.len() == n,
                        forall|k: int|
                            0 <= k < n ==> #[trigger] vs[k] == (entries@[k].0@, entries@[k].1@),
                        lookup(vs, key@) == lookup(vs.skip(i as int), key@),
                    decreases n - i,
                {
                    if str_eq(entries[i].0.as_str(), key) {
                        return Some(&entries[i].1);
                    }
                    assert(vs.skip(i as int).drop_first() =~= vs.skip(i + 1));
                    i = i + 1;
                }
                None
            },
            _ => None,
        }
    }

    /// The text of a string (`serde_json::Value::as_str`).
    pub fn as_str(&self) -> (r: Option<&str>)
        ensures
            match r {
                Some(s) => self@.as_text() == Some(s@),
                None => self@.as_text() is None,
            },
    {
        match self {
            Json::Str(s) => Some(s.as_str()),
            _ => None,
        }
    }

    /// The value of a boolean (`serde_json::Value::as_bool`).
    pub fn as_bool(&self) -> (r: Option<bool>)
        ensures
            r == self@.as_boolean(),
    {
        match self {
            Json::Bool(b) => Some(*b),
            _ => None,
        }
    }

    /// The value of a non-negative integer (`serde_json::Value::as_u64`).
    pub fn as_u64(&self) -> (r: Option<u64>)
        ensures
            r == self@.as_unsigned(),
    {
        match self {
            Json::Number(JsonNumber::PosInt(n)) => Some(*n),
            _ => None,
        }
    }

    /// The elements of an array (`serde_json::Value::as_array`).
    pub fn as_array(&self) -> (r: Option<&Vec<Json>>)
        ensures
            match r {
                Some(items) => self@.as_items() == Some(view_items(items@)),
                None => self@.as_items() is None,
            },
    {
        match self {
            Json::Array(items) => Some(items),
            _ => None,
        }
    }

    /// The text of the member `key`, where it is a string.
    pub fn get_str(&self, key: &str) -> (r: Option<&str>)
        ensures
            match r {
                Some(s) => self@.text_field(key@) == Some(s@),
                None => self@.text_field(key@) is None,
            },
    {
        match self.get(key) {
            Some(v) => v.as_str(),
            None => None,
        }
    }

    /// The value of the member `key`, where it is a boolean.
    pub fn get_bool(&self, key: &str) -> (r: Option<bool>)
        ensures
            r == self@.bool_field(key@),
    {
        match self.get(key) {
            Some(v) => v.as_bool(),
            None => None,
        }
    }
}

/// `serde_json::Value`, which only serde_json's printers read here.
#[verifier::external_type_specification]
#[verifier::external_body]
pub struct ExSerdeValue(serde_json::Value);

/// Gives a number to serde_json as a `serde_json::Value`: an integer by
/// `Value::from`, any other number by `serde_json::from_str` of its decimal
/// text. Nothing is stated of the result, which only serde_json reads.
#[verifier::external_body]
fn number_to_value(n: &JsonNumber) -> serde_json::Value {
    match n {
        JsonNumber::PosInt(u) => serde_json::Value::from(*u),
        JsonNumber::NegInt(i) => serde_json::Value::from(*i),
        JsonNumber::Float(t) => serde_json::from_str(t).unwrap_or(serde_json::Value::Null),
    }
}

/// Gives a value to serde_json as a `serde_json::Value`, variant for
/// variant and member for member (`Value::Array`, `Value::Object` collected
/// from the members). Nothing is stated of the result, which only
/// serde_json reads.
#[verifier::external_body]
fn json_to_value(j: &Json) -> serde_json::Value {
    match j {
        Json::Null => serde_json::Value::Null,
        Json::Bool(b) => serde_json::Value::Bool(*b),
        Json::Number(n) => number_to_value(n),
        Json::Str(s) => serde_json::Value::String(s.clone()),
        Json::Array(items) => serde_json::Value::Array(items.iter().map(json_to_value).collect()),
        Json::Object(es) => serde_json::Value::Object(
            es.iter().map(|e| (e.0.clone(), json_to_value(&e.1))).collect(),
        ),
    }
}

/// What `serde_json::to_string_pretty` prints for a value.
pub uninterp spec fn pretty_json_text(v: JsonView) -> Seq<char>;

/// What `serde_json::Value`'s `Display` (compact JSON) prints for a value.
pub uninterp spec fn compact_json_text(v: JsonView) -> Seq<char>;

/// Calls `serde_json::to_string_pretty` (falling back to `Display`, as a
/// `Value` always serialises): the text depends on the value alone and is
/// named `pretty_json_text`.
#[verifier::external_body]
pub(crate) fn pretty_json(j: &Json) -> (r: String)
    ensures
        r@ == pretty_json_text(j@),
{
    let v = json_to_value(j);
    serde_json::to_string_pretty(&v).unwrap_or_else(|_| v.to_string())
}

/// Calls `Display` of `serde_json::Value` (compact JSON): the text depends
/// on the value alone and is named `compact_json_text`.
#[verifier::external_body]
pub(crate) fn json_text(j: &Json) -> (r: String)
    ensures
        r@ == compact_json_text(j@),
{
    json_to_value(j).to_string()
}

/// Takes a `serde_json::Value` apart into a value of the library, variant
/// for variant and member for member; a number is a non-negative integer
/// where `as_u64` gives one, else a negative integer where `as_i64` gives
/// one, else its decimal text. Nothing is stated of it here: `parse_json`
/// states what the whole parse gives.
#[verifier::external_body]
fn value_to_json(v: serde_json::Value) -> Json {
    match v {
        serde_json::Value::Null => Json::Null,
        serde_json::Value::Bool(b) => Json::Bool(b),
        serde_json::Value::Number(n) => Json::Number(match (n.as_u64(), n.as_i64()) {
            (Some(u), _) => JsonNumber::PosInt(u),
            (None, Some(i)) => JsonNumber::NegInt(i),
            _ => JsonNumber::Float(n.to_string()),
        }),
        serde_json::Value::String(s) => Json::Str(s),
        serde_json::Value::Array(a) => Json::Array(a.into_iter().map(value_to_json).collect()),
        serde_json::Value::Object(m) => Json::Object(
            m.into_iter().map(|(k, x)| (k, value_to_json(x))).collect(),
        ),
    }
}

/// What `serde_json::from_str` reads from a text as a `serde_json::Value`,
/// where the text is JSON.
pub uninterp spec fn parsed_json(text: Seq<char>) -> Option<JsonView>;

/// Calls `serde_json::from_str::<serde_json::Value>`: its result, where the
/// text is JSON, is named `parsed_json`, and it is valid, as a serde_json
/// `Map` holds each name once and a number is a negative integer only where
/// it is not a `u64`.
#[verifier::external_body]
pub(crate) fn parse_json(text: &str) -> (r: Option<Json>)
    ensures
        match r {
            Some(j) => parsed_json(text@) == Some(j@),
            None => parsed_json(text@) is None,
        },
        r matches Some(j) ==> json_valid(j@),
{
    serde_json::from_str::<serde_json::Value>(text).ok().map(value_to_json)
}

} // verus!
