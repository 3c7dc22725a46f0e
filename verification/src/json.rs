//! JSON documents are `serde_json` values. The verifier cannot look inside
//! one, so this module names what a value holds and gives a contract to each
//! `serde_json` operation that the library uses. Those contracts are
//! trusted, not proved.
//!
//! The library asks `serde_json` to keep the members of an object in the
//! order in which their names were first put (its feature `preserve_order`),
//! and the contracts here say so.

use serde_json::Value;
use vstd::prelude::*;

verus! {

/// An object of JSON members, as `serde_json` holds it.
pub type Object = serde_json::Map<String, Value>;

/// `serde_json::Value`, of which the verifier sees nothing but what
/// `json_of` names.
#[verifier::external_type_specification]
#[verifier::external_body]
pub struct ExValue(serde_json::Value);

/// `serde_json::Map`, of which the verifier sees nothing but what
/// `members_of` names.
#[verifier::external_type_specification]
#[verifier::external_body]
#[verifier::reject_recursive_types(K)]
#[verifier::reject_recursive_types(V)]
pub struct ExMap<K, V>(serde_json::Map<K, V>);

/// What a JSON value holds.
pub enum Json {
    Null,
    Bool(bool),
    /// A number written without fraction or exponent.
    Int(int),
    /// Any other number, by the bits of its binary64 form.
    Real(u64),
    Text(Seq<char>),
    List(Seq<Json>),
    Object(Members),
}

/// The members of an object: what each name holds, and the names in the
/// order in which the object lists them.
pub struct Members {
    pub named: Map<Seq<char>, Json>,
    pub order: Seq<Seq<char>>,
}

impl Members {
    /// These members with `name` holding `value`. A name that is there keeps
    /// its place; a new name comes last.
    pub open spec fn insert(self, name: Seq<char>, value: Json) -> Members {
        Members {
            named: self.named.insert(name, value),
            order: if self.named.contains_key(name) {
                self.order
            } else {
                self.order.push(name)
            },
        }
    }
}

/// No members.
pub open spec fn no_members() -> Members {
    Members { named: Map::empty(), order: Seq::empty() }
}

/// Whether the order of `m` lists the names of `m`, each once.
pub open spec fn listed_once(m: Members) -> bool {
    &&& m.order.no_duplicates()
    &&& forall|name: Seq<char>| m.named.contains_key(name) <==> m.order.contains(name)
}

/// Members that list each name once still do so after an `insert`.
pub proof fn lemma_insert_lists_once(m: Members, name: Seq<char>, value: Json)
    requires
        listed_once(m),
    ensures
        listed_once(m.insert(name, value)),
{
    let after = m.insert(name, value);
    if m.named.contains_key(name) {
        assert forall|other: Seq<char>| after.named.contains_key(other) <==> after.order.contains(
            other,
        ) by {}
    } else {
        let n = m.order.len() as int;
        assert(!m.order.contains(name));
        assert forall|i: int, j: int| 0 <= i < j < after.order.len() implies after.order[i]
            != after.order[j] by {}
        assert forall|other: Seq<char>| after.named.contains_key(other) <==> after.order.contains(
            other,
        ) by {
            if m.order.contains(other) {
                let i = choose|i: int| 0 <= i < m.order.len() && m.order[i] == other;
                assert(after.order[i] == other);
            }
            if other == name {
                assert(after.order[n] == name);
            }
        }
    }
}

/// What the value `v` holds.
pub uninterp spec fn json_of(v: Value) -> Json;

/// The members that the object `m` holds.
pub uninterp spec fn members_of(m: Object) -> Members;

/// What each value of a list holds, in order.
pub open spec fn jsons_of(values: Seq<Value>) -> Seq<Json> {
    values.map_values(|v: Value| json_of(v))
}

/// The list of texts as JSON strings.
pub open spec fn texts_as_json(texts: Seq<Seq<char>>) -> Seq<Json> {
    texts.map_values(|t: Seq<char>| Json::Text(t))
}

/// Makes `Value::Null`.
#[verifier::external_body]
pub(crate) fn null() -> (v: Value)
    ensures
        json_of(v) == Json::Null,
{
    Value::Null
}

/// Calls `Value::from` on a `u16`: the number `n`.
#[verifier::external_body]
pub(crate) fn from_u16(n: u16) -> (v: Value)
    ensures
        json_of(v) == Json::Int(n as int),
{
    Value::from(n)
}

/// Calls `Value::from` on an `i64`: the number `n`.
#[verifier::external_body]
pub(crate) fn from_i64(n: i64) -> (v: Value)
    ensures
        json_of(v) == Json::Int(n as int),
{
    Value::from(n)
}

/// Makes `Value::String`: the JSON string with the text of `text`.
#[verifier::external_body]
pub(crate) fn from_string(text: String) -> (v: Value)
    ensures
        json_of(v) == Json::Text(text@),
{
    Value::String(text)
}

/// Makes `Value::Array`: the JSON array of `items`, in their order.
#[verifier::external_body]
pub(crate) fn from_list(items: Vec<Value>) -> (v: Value)
    ensures
        json_of(v) == Json::List(jsons_of(items@)),
{
    Value::Array(items)
}

/// Makes `Value::Object`: the JSON object with the members of `m`.
#[verifier::external_body]
pub(crate) fn from_object(m: Object) -> (v: Value)
    ensures
        json_of(v) == Json::Object(members_of(m)),
{
    Value::Object(m)
}

/// Calls `Value::as_object`: the members of `v` where it is an object,
/// nothing where it is not.
#[verifier::external_body]
pub(crate) fn as_object(v: &Value) -> (m: Option<&Object>)
    ensures
        m is Some <==> json_of(*v) is Object,
        m matches Some(o) ==> json_of(*v) == Json::Object(members_of(*o)),
{
    v.as_object()
}

/// Calls `Value::clone`: the copy holds what `v` holds.
#[verifier::external_body]
pub(crate) fn copy_value(v: &Value) -> (copy: Value)
    ensures
        json_of(copy) == json_of(*v),
{
    v.clone()
}

/// Calls `Map::new`: an object without members.
#[verifier::external_body]
pub(crate) fn new_object() -> (m: Object)
    ensures
        members_of(m) == no_members(),
{
    serde_json::Map::new()
}

/// Calls `Map::insert`, which with the feature `preserve_order` is the
/// `insert` of an `IndexMap`: afterwards `key` names `value`. Where the object
/// held `key` before, `key` keeps its place in the order; where it did not,
/// `key` comes last. The other members stay as they are.
#[verifier::external_body]
pub(crate) fn put_member(m: &mut Object, key: String, value: Value)
    ensures
        members_of(*final(m)) == members_of(*old(m)).insert(key@, json_of(value)),
{
    m.insert(key, value);
}

/// Calls `Map::is_empty`: whether the object has no member.
#[verifier::external_body]
pub(crate) fn has_no_member(m: &Object) -> (empty: bool)
    ensures
        empty <==> members_of(*m) == no_members(),
{
    m.is_empty()
}

/// Calls `Map::clone`: the copy holds the members of `m`.
#[verifier::external_body]
pub(crate) fn copy_object(m: &Object) -> (copy: Object)
    ensures
        members_of(copy) == members_of(*m),
{
    m.clone()
}

/// A copy of each value of `values`, in order.
pub(crate) fn copy_values(values: &Vec<Value>) -> (copy: Vec<Value>)
    ensures
        jsons_of(copy@) == jsons_of(values@),
{
    let mut copy: Vec<Value> = Vec::new();
    let mut i: usize = 0;
    while i < values.len()
        invariant
            i <= values.len(),
            copy.len() == i,
            forall|j: int| 0 <= j < i ==> json_of(copy@[j]) == json_of(values@[j]),
        decreases values.len() - i,
    {
        copy.push(copy_value(&values[i]));
        i = i + 1;
    }
    copy
}

} // verus!
