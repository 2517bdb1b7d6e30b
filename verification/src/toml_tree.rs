//! TOML documents, as built and read by the `toml` crate.

use crate::text::{opt_str, texts};
use vstd::prelude::*;

verus! {

/// A TOML value.
pub enum TomlTree {
    Text(Seq<char>),
    Int(i64),
    Bool(bool),
    /// A floating-point number, by the bits of its double.
    Float(u64),
    /// A date or time, by its text.
    Moment(Seq<char>),
    List(Seq<TomlTree>),
    Table(Map<Seq<char>, TomlTree>),
}

impl TomlTree {
    pub open spec fn text(self) -> Option<Seq<char>> {
        match self {
            TomlTree::Text(s) => Some(s),
            _ => None,
        }
    }

    pub open spec fn number(self) -> Option<i64> {
        match self {
            TomlTree::Int(n) => Some(n),
            _ => None,
        }
    }

    pub open spec fn boolean(self) -> Option<bool> {
        match self {
            TomlTree::Bool(b) => Some(b),
            _ => None,
        }
    }

    pub open spec fn list(self) -> Option<Seq<TomlTree>> {
        match self {
            TomlTree::List(items) => Some(items),
            _ => None,
        }
    }

    pub open spec fn table(self) -> Option<Map<Seq<char>, TomlTree>> {
        match self {
            TomlTree::Table(m) => Some(m),
            _ => None,
        }
    }

    /// A text, a whole number or a boolean.
    pub open spec fn scalar(self) -> bool {
        self is Text || self is Int || self is Bool
    }
}

/// A key that is written without quotes.
pub open spec fn bare_key(key: Seq<char>) -> bool {
    key.len() > 0 && forall|i: int|
        0 <= i < key.len() ==> crate::slug::is_alnum(#[trigger] key[i]) || key[i] == '_'
}

/// A table of scalars and of lists of scalars, under bare keys.
pub open spec fn flat(m: Map<Seq<char>, TomlTree>) -> bool {
    forall|k: Seq<char>| #[trigger]
        m.contains_key(k) ==> bare_key(k) && (m[k].scalar() || (m[k] matches TomlTree::List(items)
            && forall|i: int| 0 <= i < items.len() ==> (#[trigger] items[i]).scalar()))
}

/// A table of lists of flat tables, under bare keys.
pub open spec fn listing(m: Map<Seq<char>, TomlTree>) -> bool {
    forall|k: Seq<char>| #[trigger]
        m.contains_key(k) ==> bare_key(k) && (m[k] matches TomlTree::List(items) && forall|i: int|
            0 <= i < items.len() ==> ((#[trigger] items[i]) matches TomlTree::Table(t) && flat(t)))
}

/// A document made of tables of lists of flat tables, under bare keys.
pub open spec fn ledger(m: Map<Seq<char>, TomlTree>) -> bool {
    forall|k: Seq<char>| #[trigger]
        m.contains_key(k) ==> bare_key(k) && (m[k] matches TomlTree::Table(t) && listing(t))
}

/// A table without members.
pub open spec fn no_entries() -> Map<Seq<char>, TomlTree> {
    Map::empty()
}

/// The member `key`.
pub open spec fn entry_of(m: Map<Seq<char>, TomlTree>, key: Seq<char>) -> Option<TomlTree> {
    if m.contains_key(key) {
        Some(m[key])
    } else {
        None
    }
}

#[verifier::external_type_specification]
#[verifier::external_body]
pub struct ExTomlValue(toml::Value);

#[verifier::external_type_specification]
#[verifier::external_body]
#[verifier::reject_recursive_types(K)]
#[verifier::reject_recursive_types(V)]
pub struct ExTomlMap<K, V>(toml::map::Map<K, V>);

/// What a `toml::Value` holds.
pub uninterp spec fn toml_tree(v: toml::Value) -> TomlTree;

/// The members of a `toml` table.
pub uninterp spec fn entries(t: toml::map::Map<String, toml::Value>) -> Map<Seq<char>, TomlTree>;

/// The text `toml::to_string` writes for a document.
pub uninterp spec fn toml_text(m: Map<Seq<char>, TomlTree>) -> Seq<char>;

/// The document `toml::from_str` reads from a text, or the text of its error.
pub uninterp spec fn toml_document(text: Seq<char>) -> Result<
    Map<Seq<char>, TomlTree>,
    Seq<char>,
>;

/// What a list of values holds.
pub open spec fn toml_trees(values: Seq<toml::Value>) -> Seq<TomlTree> {
    values.map_values(|v: toml::Value| toml_tree(v))
}

pub open spec fn opt_value(v: Option<&toml::Value>) -> Option<TomlTree> {
    match v {
        Some(v) => Some(toml_tree(*v)),
        None => None,
    }
}

pub open spec fn opt_values(v: Option<&Vec<toml::Value>>) -> Option<Seq<TomlTree>> {
    match v {
        Some(v) => Some(toml_trees(v@)),
        None => None,
    }
}

pub open spec fn opt_table(t: Option<&toml::map::Map<String, toml::Value>>) -> Option<
    Map<Seq<char>, TomlTree>,
> {
    match t {
        Some(t) => Some(entries(*t)),
        None => None,
    }
}

/// What reading a document came to.
pub open spec fn outcome(r: Result<toml::map::Map<String, toml::Value>, String>) -> Result<
    Map<Seq<char>, TomlTree>,
    Seq<char>,
> {
    match r {
        Ok(t) => Ok(entries(t)),
        Err(e) => Err(e@),
    }
}

/// A document that could be read.
pub open spec fn found(m: Map<Seq<char>, TomlTree>) -> Result<
    Map<Seq<char>, TomlTree>,
    Seq<char>,
> {
    Ok(m)
}

/// `toml::Value::String`: a text.
#[verifier::external_body]
pub(crate) fn toml_string(s: String) -> (res: toml::Value)
    ensures
        toml_tree(res) == TomlTree::Text(s@),
{
    toml::Value::String(s)
}

/// `toml::Value::Integer`: a whole number.
#[verifier::external_body]
pub(crate) fn toml_int(n: i64) -> (res: toml::Value)
    ensures
        toml_tree(res) == TomlTree::Int(n),
{
    toml::Value::Integer(n)
}

/// `toml::Value::Boolean`: a boolean.
#[verifier::external_body]
pub(crate) fn toml_bool(b: bool) -> (res: toml::Value)
    ensures
        toml_tree(res) == TomlTree::Bool(b),
{
    toml::Value::Boolean(b)
}

/// `toml::Value::Array`: a list, in the given order.
#[verifier::external_body]
pub(crate) fn toml_list(items: Vec<toml::Value>) -> (res: toml::Value)
    ensures
        toml_tree(res) == TomlTree::List(toml_trees(items@)),
{
    toml::Value::Array(items)
}

/// `toml::Value::Table`: a table with the members of `t`.
#[verifier::external_body]
pub(crate) fn toml_table(t: toml::map::Map<String, toml::Value>) -> (res: toml::Value)
    ensures
        toml_tree(res) == TomlTree::Table(entries(t)),
{
    toml::Value::Table(t)
}

/// `toml::map::Map::new`: no members.
#[verifier::external_body]
pub(crate) fn table_new() -> (res: toml::map::Map<String, toml::Value>)
    ensures
        entries(res) == no_entries(),
{
    toml::map::Map::new()
}

/// `toml::map::Map::insert` adds a member or replaces the one of that name.
#[verifier::external_body]
pub(crate) fn table_insert(
    t: &mut toml::map::Map<String, toml::Value>,
    key: String,
    v: toml::Value,
)
    ensures
        entries(*final(t)) == entries(*old(t)).insert(key@, toml_tree(v)),
{
    t.insert(key, v);
}

/// `toml::map::Map::get`: the member of that name.
#[verifier::external_body]
pub(crate) fn table_get<'a>(t: &'a toml::map::Map<String, toml::Value>, key: &str) -> (res: Option<
    &'a toml::Value,
>)
    ensures
        opt_value(res) == entry_of(entries(*t), key@),
{
    t.get(key)
}

/// `toml::map::Map::keys`: the names of the members.
#[verifier::external_body]
pub(crate) fn table_keys(t: &toml::map::Map<String, toml::Value>) -> (res: Vec<String>)
    ensures
        texts(res@).to_set() == entries(*t).dom(),
{
    t.keys().cloned().collect()
}

/// `toml::Value::as_str`: the text, if the value is one.
#[verifier::external_body]
pub(crate) fn toml_as_str<'a>(v: &'a toml::Value) -> (res: Option<&'a str>)
    ensures
        opt_str(res) == toml_tree(*v).text(),
{
    v.as_str()
}

/// `toml::Value::as_integer`: the whole number, if the value is one.
#[verifier::external_body]
pub(crate) fn toml_as_int(v: &toml::Value) -> (res: Option<i64>)
    ensures
        res == toml_tree(*v).number(),
{
    v.as_integer()
}

/// `toml::Value::as_bool`: the boolean, if the value is one.
#[verifier::external_body]
pub(crate) fn toml_as_bool(v: &toml::Value) -> (res: Option<bool>)
    ensures
        res == toml_tree(*v).boolean(),
{
    v.as_bool()
}

/// `toml::Value::as_array`: the list, if the value is one.
#[verifier::external_body]
pub(crate) fn toml_as_list<'a>(v: &'a toml::Value) -> (res: Option<&'a Vec<toml::Value>>)
    ensures
        opt_values(res) == toml_tree(*v).list(),
{
    v.as_array()
}

/// `toml::Value::as_table`: the table, if the value is one.
#[verifier::external_body]
pub(crate) fn toml_as_table<'a>(v: &'a toml::Value) -> (res: Option<
    &'a toml::map::Map<String, toml::Value>,
>)
    ensures
        opt_table(res) == toml_tree(*v).table(),
{
    v.as_table()
}

/// `toml::to_string` on a table: its text is a function of the document, and
/// `toml::from_str` reads the document back from it.
#[verifier::external_body]
pub(crate) fn toml_print(t: &toml::map::Map<String, toml::Value>) -> (res: String)
    requires
        ledger(entries(*t)),
    ensures
        res@ == toml_text(entries(*t)),
        toml_document(res@) == found(entries(*t)),
{
    toml::to_string(t).expect("a TOML table has a text")
}

/// `toml::from_str` into a table: the document, or the text of the error.
#[verifier::external_body]
pub(crate) fn toml_parse(text: &str) -> (res: Result<toml::map::Map<String, toml::Value>, String>)
    ensures
        outcome(res) == toml_document(text@),
{
    toml::from_str(text).map_err(|e: toml::de::Error| e.to_string())
}

} // verus!
