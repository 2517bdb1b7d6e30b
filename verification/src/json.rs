//! JSON documents, as built and read by `serde_json`.

use crate::text::opt_str;
use vstd::prelude::*;

verus! {

/// How deep documents may nest. `serde_json` reads at most 127 levels.
pub const MAX_DEPTH: usize = 100;

/// A JSON document.
pub enum JsonTree {
    Null,
    Bool(bool),
    /// A number without sign or fraction.
    Uint(u64),
    /// A negative number without fraction.
    Negative(i64),
    /// Any other number, by the bits of its double.
    Float(u64),
    Text(Seq<char>),
    List(Seq<JsonTree>),
    Object(Map<Seq<char>, JsonTree>),
}

impl JsonTree {
    /// The member `key` of an object.
    pub open spec fn member(self, key: Seq<char>) -> Option<JsonTree> {
        match self {
            JsonTree::Object(m) => if m.contains_key(key) {
                Some(m[key])
            } else {
                None
            },
            _ => None,
        }
    }

    pub open spec fn text(self) -> Option<Seq<char>> {
        match self {
            JsonTree::Text(s) => Some(s),
            _ => None,
        }
    }

    pub open spec fn uint(self) -> Option<u64> {
        match self {
            JsonTree::Uint(n) => Some(n),
            _ => None,
        }
    }

    /// Nests at most `depth` levels and holds neither negative numbers nor
    /// fractions.
    pub open spec fn simple(self, depth: nat) -> bool
        decreases depth,
    {
        match self {
            JsonTree::Null | JsonTree::Bool(_) | JsonTree::Uint(_) | JsonTree::Text(_) => true,
            JsonTree::Negative(_) | JsonTree::Float(_) => false,
            JsonTree::List(items) => depth > 0 && forall|i: int|
                0 <= i < items.len() ==> (#[trigger] items[i]).simple((depth - 1) as nat),
            JsonTree::Object(m) => depth > 0 && forall|k: Seq<char>| #[trigger]
                m.contains_key(k) ==> m[k].simple((depth - 1) as nat),
        }
    }
}

/// An object without members.
pub open spec fn no_members() -> Map<Seq<char>, JsonTree> {
    Map::empty()
}

#[verifier::external_type_specification]
#[verifier::external_body]
pub struct ExValue(serde_json::Value);

#[verifier::external_type_specification]
#[verifier::external_body]
#[verifier::reject_recursive_types(K)]
#[verifier::reject_recursive_types(V)]
pub struct ExMap<K, V>(serde_json::Map<K, V>);

/// The document that a `serde_json::Value` holds.
pub uninterp spec fn tree(v: serde_json::Value) -> JsonTree;

/// The members of a `serde_json` object under construction.
pub uninterp spec fn members(m: serde_json::Map<String, serde_json::Value>) -> Map<
    Seq<char>,
    JsonTree,
>;

/// The text `serde_json::to_vec` writes for a document.
pub uninterp spec fn json_text(t: JsonTree) -> Seq<u8>;

/// The document `serde_json::from_slice` reads from a text.
pub uninterp spec fn json_document(text: Seq<u8>) -> Option<JsonTree>;

/// The documents that a list of values holds.
pub open spec fn trees(values: Seq<serde_json::Value>) -> Seq<JsonTree> {
    values.map_values(|v: serde_json::Value| tree(v))
}

pub open spec fn opt_tree(v: Option<serde_json::Value>) -> Option<JsonTree> {
    match v {
        Some(v) => Some(tree(v)),
        None => None,
    }
}

pub open spec fn opt_tree_ref(v: Option<&serde_json::Value>) -> Option<JsonTree> {
    match v {
        Some(v) => Some(tree(*v)),
        None => None,
    }
}

/// `serde_json::Value::Bool`: a boolean.
#[verifier::external_body]
pub(crate) fn json_bool(b: bool) -> (res: serde_json::Value)
    ensures
        tree(res) == JsonTree::Bool(b),
{
    serde_json::Value::Bool(b)
}

/// `serde_json::Value::from` on a `u64`: a number.
#[verifier::external_body]
pub(crate) fn json_uint(n: u64) -> (res: serde_json::Value)
    ensures
        tree(res) == JsonTree::Uint(n),
{
    serde_json::Value::from(n)
}

/// `serde_json::Value::String`: a text.
#[verifier::external_body]
pub(crate) fn json_string(s: String) -> (res: serde_json::Value)
    ensures
        tree(res) == JsonTree::Text(s@),
{
    serde_json::Value::String(s)
}

/// `serde_json::Value::Array`: a list, in the given order.
#[verifier::external_body]
pub(crate) fn json_list(items: Vec<serde_json::Value>) -> (res: serde_json::Value)
    ensures
        tree(res) == JsonTree::List(trees(items@)),
{
    serde_json::Value::Array(items)
}

/// `serde_json::Value::Object`: an object with the members of `m`.
#[verifier::external_body]
pub(crate) fn json_object(m: serde_json::Map<String, serde_json::Value>) -> (res: serde_json::Value)
    ensures
        tree(res) == JsonTree::Object(members(m)),
{
    serde_json::Value::Object(m)
}

/// `serde_json::Map::new`: no members.
#[verifier::external_body]
pub(crate) fn object_new() -> (res: serde_json::Map<String, serde_json::Value>)
    ensures
        members(res) == no_members(),
{
    serde_json::Map::new()
}

/// `serde_json::Map::insert` adds a member or replaces the one of that name.
#[verifier::external_body]
pub(crate) fn object_insert(
    m: &mut serde_json::Map<String, serde_json::Value>,
    key: String,
    v: serde_json::Value,
)
    ensures
        members(*final(m)) == members(*old(m)).insert(key@, tree(v)),
{
    m.insert(key, v);
}

/// `serde_json::to_vec` on a value: its text is a function of the document and
/// not empty, and `serde_json::from_slice` reads the document back from it.
#[verifier::external_body]
pub(crate) fn json_bytes(v: &serde_json::Value) -> (res: Vec<u8>)
    requires
        tree(*v).simple(MAX_DEPTH as nat),
    ensures
        res@ == json_text(tree(*v)),
        json_document(res@) == Some(tree(*v)),
        res@.len() > 0,
{
    serde_json::to_vec(v).expect("a JSON value has a text")
}

/// `serde_json::from_slice` into a value: the document, if the bytes are one.
#[verifier::external_body]
pub(crate) fn json_parse(bytes: &Vec<u8>) -> (res: Option<serde_json::Value>)
    ensures
        opt_tree(res) == json_document(bytes@),
{
    serde_json::from_slice(bytes).ok()
}

/// `serde_json::Value::get` by a text: the member of that name, if the value is
/// an object that has one.
#[verifier::external_body]
pub(crate) fn json_get<'a>(v: &'a serde_json::Value, key: &str) -> (res: Option<
    &'a serde_json::Value,
>)
    ensures
        opt_tree_ref(res) == tree(*v).member(key@),
{
    v.get(key)
}

/// `serde_json::Value::as_str`: the text, if the value is one.
#[verifier::external_body]
pub(crate) fn json_as_str<'a>(v: &'a serde_json::Value) -> (res: Option<&'a str>)
    ensures
        opt_str(res) == tree(*v).text(),
{
    v.as_str()
}

/// `serde_json::Value::as_u64`: the number, if the value is one without sign or
/// fraction.
#[verifier::external_body]
pub(crate) fn json_as_u64(v: &serde_json::Value) -> (res: Option<u64>)
    ensures
        res == tree(*v).uint(),
{
    v.as_u64()
}

/// Adds a text member.
pub(crate) fn put_text(
    m: &mut serde_json::Map<String, serde_json::Value>,
    key: &str,
    value: String,
)
    ensures
        members(*final(m)) == members(*old(m)).insert(key@, JsonTree::Text(value@)),
{
    object_insert(m, key.to_owned(), json_string(value));
}

/// Adds a number member.
pub(crate) fn put_uint(m: &mut serde_json::Map<String, serde_json::Value>, key: &str, value: u64)
    ensures
        members(*final(m)) == members(*old(m)).insert(key@, JsonTree::Uint(value)),
{
    object_insert(m, key.to_owned(), json_uint(value));
}

/// The text member `key`.
pub(crate) fn get_text<'a>(v: &'a serde_json::Value, key: &str) -> (res: Option<&'a str>)
    ensures
        opt_str(res) == text_member(tree(*v), key@),
{
    match json_get(v, key) {
        Some(m) => json_as_str(m),
        None => None,
    }
}

/// The number member `key`.
pub(crate) fn get_uint(v: &serde_json::Value, key: &str) -> (res: Option<u64>)
    ensures
        res == uint_member(tree(*v), key@),
{
    match json_get(v, key) {
        Some(m) => json_as_u64(m),
        None => None,
    }
}

/// The text member `key` of an object.
pub open spec fn text_member(t: JsonTree, key: Seq<char>) -> Option<Seq<char>> {
    match t.member(key) {
        Some(m) => m.text(),
        None => None,
    }
}

/// The number member `key` of an object.
pub open spec fn uint_member(t: JsonTree, key: Seq<char>) -> Option<u64> {
    match t.member(key) {
        Some(m) => m.uint(),
        None => None,
    }
}

} // verus!
