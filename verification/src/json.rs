//! JSON documents as plain trees, read and written by `serde_json`.

use serde_json::{Number, Value};
use vstd::prelude::*;

verus! {

/// `serde_json::Value`, carried as it is.
#[verifier::external_type_specification]
#[verifier::external_body]
pub struct ExValue(Value);

/// `serde_json::Number`, carried as it is.
#[verifier::external_type_specification]
#[verifier::external_body]
pub struct ExNumber(Number);

/// A JSON value. The members of an object are kept in the order in which
/// `serde_json` walks them.
#[derive(Debug)]
pub enum JsonValue {
    Null,
    Bool(bool),
    Number(Number),
    String(String),
    Array(Vec<JsonValue>),
    Object(Vec<JsonMember>),
}

/// One member of a JSON object.
#[derive(Debug)]
pub struct JsonMember {
    pub key: String,
    pub value: JsonValue,
}

/// What a [`JsonValue`] holds.
pub enum JsonView {
    Null,
    Bool(bool),
    Number(Number),
    String(Seq<char>),
    Array(Seq<JsonView>),
    Object(Seq<(Seq<char>, JsonView)>),
}

/// What a value holds.
pub open spec fn tree_of(value: JsonValue) -> JsonView
    decreases value, 0nat,
{
    match value {
        JsonValue::Null => JsonView::Null,
        JsonValue::Bool(b) => JsonView::Bool(b),
        JsonValue::Number(n) => JsonView::Number(n),
        JsonValue::String(s) => JsonView::String(s@),
        JsonValue::Array(items) => JsonView::Array(items_upto(items@, items@.len())),
        JsonValue::Object(members) => JsonView::Object(members_upto(members@, members@.len())),
    }
}

/// What the first `n` items of an array hold.
pub open spec fn items_upto(items: Seq<JsonValue>, n: nat) -> Seq<JsonView>
    decreases items, n,
{
    if n == 0 || n > items.len() {
        Seq::empty()
    } else {
        items_upto(items, (n - 1) as nat).push(tree_of(items[n - 1]))
    }
}

/// What the first `n` members of an object hold.
pub open spec fn members_upto(members: Seq<JsonMember>, n: nat) -> Seq<(Seq<char>, JsonView)>
    decreases members, n,
{
    if n == 0 || n > members.len() {
        Seq::empty()
    } else {
        members_upto(members, (n - 1) as nat).push(
            (members[n - 1].key@, tree_of(members[n - 1].value)),
        )
    }
}

impl View for JsonValue {
    type V = JsonView;

    open spec fn view(&self) -> JsonView {
        tree_of(*self)
    }
}

/// What the items of an array hold.
pub open spec fn items_view(items: Seq<JsonValue>) -> Seq<JsonView> {
    Seq::new(items.len(), |i: int| items[i]@)
}

/// What the members of an object hold.
pub open spec fn members_view(members: Seq<JsonMember>) -> Seq<(Seq<char>, JsonView)> {
    Seq::new(members.len(), |i: int| (members[i].key@, members[i].value@))
}

/// The first `n` items hold what each of them holds.
pub proof fn lemma_items_upto(items: Seq<JsonValue>, n: nat)
    requires
        n <= items.len(),
    ensures
        items_upto(items, n) == items_view(items.take(n as int)),
    decreases n,
{
    if n > 0 {
        lemma_items_upto(items, (n - 1) as nat);
        assert(items_upto(items, n) =~= items_view(items.take(n as int)));
    } else {
        assert(items_upto(items, n) =~= items_view(items.take(n as int)));
    }
}

/// The first `n` members hold what each of them holds.
pub proof fn lemma_members_upto(members: Seq<JsonMember>, n: nat)
    requires
        n <= members.len(),
    ensures
        members_upto(members, n) == members_view(members.take(n as int)),
    decreases n,
{
    if n > 0 {
        lemma_members_upto(members, (n - 1) as nat);
        assert(members_upto(members, n) =~= members_view(members.take(n as int)));
    } else {
        assert(members_upto(members, n) =~= members_view(members.take(n as int)));
    }
}

/// An array holds what its items hold.
pub proof fn lemma_array_view(items: Vec<JsonValue>)
    ensures
        JsonValue::Array(items)@ == JsonView::Array(items_view(items@)),
{
    lemma_items_upto(items@, items@.len());
    assert(items@.take(items@.len() as int) =~= items@);
}

/// An object holds what its members hold.
pub proof fn lemma_object_view(members: Vec<JsonMember>)
    ensures
        JsonValue::Object(members)@ == JsonView::Object(members_view(members@)),
{
    lemma_members_upto(members@, members@.len());
    assert(members@.take(members@.len() as int) =~= members@);
}

/// The document that a text parses to, or `None` where it is no JSON.
pub uninterp spec fn json_parsed(text: Seq<char>) -> Option<JsonView>;

/// The tree that a `serde_json` value holds.
pub uninterp spec fn json_model(value: Value) -> JsonView;

/// The compact text of a `serde_json` value, or `None` where it cannot be
/// written.
pub uninterp spec fn value_text(value: Value) -> Option<Seq<char>>;

/// The compact text that `serde_json` writes for a tree.
pub uninterp spec fn json_text(tree: JsonView) -> Option<Seq<char>>;

/// `serde_json::from_str` at the type `Value`. Trusted: whether it succeeds,
/// and the tree of the value, are a function of the text alone.
#[verifier::external_body]
pub(crate) fn parse_json(text: &str) -> (out: Option<Value>)
    ensures
        match out {
            Some(value) => json_parsed(text@) == Some(json_model(value)),
            None => json_parsed(text@).is_none(),
        },
{
    serde_json::from_str::<Value>(text).ok()
}

/// Copies a `serde_json` value into a tree, variant by variant, the members
/// of an object in the order of `Map::iter`. Trusted: the result is the tree
/// that the value holds.
#[verifier::external_body]
pub(crate) fn from_serde(value: &Value) -> (out: JsonValue)
    ensures
        out@ == json_model(*value),
{
    match value {
        Value::Null => JsonValue::Null,
        Value::Bool(b) => JsonValue::Bool(*b),
        Value::Number(n) => JsonValue::Number(n.clone()),
        Value::String(s) => JsonValue::String(s.clone()),
        Value::Array(a) => JsonValue::Array(a.iter().map(from_serde).collect()),
        Value::Object(o) => JsonValue::Object(
            o.iter().map(|(k, v)| JsonMember { key: k.clone(), value: from_serde(v) }).collect(),
        ),
    }
}

/// Builds a `serde_json` value from a tree, variant by variant, the members
/// of an object inserted in order. Trusted: the text of the result is a
/// function of the tree alone.
#[verifier::external_body]
pub(crate) fn to_serde(tree: &JsonValue) -> (out: Value)
    ensures
        value_text(out) == json_text(tree@),
{
    match tree {
        JsonValue::Null => Value::Null,
        JsonValue::Bool(b) => Value::Bool(*b),
        JsonValue::Number(n) => Value::Number(n.clone()),
        JsonValue::String(s) => Value::String(s.clone()),
        JsonValue::Array(a) => Value::Array(a.iter().map(to_serde).collect()),
        JsonValue::Object(o) => Value::Object(
            o.iter().map(|m| (m.key.clone(), to_serde(&m.value))).collect(),
        ),
    }
}

/// `serde_json::to_string` on a `Value`. Trusted: the text is a function of
/// the value alone.
#[verifier::external_body]
pub(crate) fn write_json(value: &Value) -> (out: Option<String>)
    ensures
        match out {
            Some(s) => value_text(*value) == Some(s@),
            None => value_text(*value).is_none(),
        },
{
    serde_json::to_string(value).ok()
}

/// `Number::clone`. Trusted: the copy is the same number.
#[verifier::external_body]
pub(crate) fn clone_number(n: &Number) -> (out: Number)
    ensures
        out == *n,
{
    n.clone()
}

/// Parses a text as JSON.
pub fn parse(text: &str) -> (out: Option<JsonValue>)
    ensures
        match out {
            Some(v) => json_parsed(text@) == Some(v@),
            None => json_parsed(text@).is_none(),
        },
{
    match parse_json(text) {
        Some(value) => Some(from_serde(&value)),
        None => None,
    }
}

/// Writes a tree as compact JSON text.
pub fn to_text(tree: &JsonValue) -> (out: Option<String>)
    ensures
        crate::text::opt_view(out) == json_text(tree@),
{
    let value = to_serde(tree);
    write_json(&value)
}

} // verus!
