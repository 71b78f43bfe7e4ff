//! A source document as plain data: the tree of values that a structured-text
//! file holds, and the reading of such a file.

use vstd::prelude::*;
use crate::text::str_eq;

verus! {

/// One value of a document. Of a float and of a date only the kind is kept:
/// no table reads either.
#[derive(Debug, PartialEq, Eq)]
pub enum Node {
    Text(String),
    Integer(i64),
    Float,
    Boolean(bool),
    Datetime,
    Array(Vec<Node>),
    Table(Vec<Member>),
}

/// One key of a table, with its value.
#[derive(Debug, PartialEq, Eq)]
pub struct Member {
    pub key: String,
    pub value: Node,
}

/// The value under `key` among the members from `from` on: that of the first
/// member with this key.
pub open spec fn lookup_from(members: Seq<Member>, key: Seq<char>, from: int) -> Option<Node>
    decreases members.len() - from,
{
    if from < 0 || from >= members.len() {
        None
    } else if members[from].key@ == key {
        Some(members[from].value)
    } else {
        lookup_from(members, key, from + 1)
    }
}

/// The value under `key` in a table, if the table has that key.
pub open spec fn lookup(members: Seq<Member>, key: Seq<char>) -> Option<Node> {
    lookup_from(members, key, 0)
}

/// The value under `key` in a table.
pub fn find<'a>(members: &'a Vec<Member>, key: &str) -> (found: Option<&'a Node>)
    ensures
        match lookup(members@, key@) {
            Some(value) => found matches Some(v) && *v == value,
            None => found is None,
        },
{
    let mut i: usize = 0;
    while i < members.len()
        invariant
            i <= members@.len(),
            lookup(members@, key@) == lookup_from(members@, key@, i as int),
        decreases members@.len() - i,
    {
        if str_eq(members[i].key.as_str(), key) {
            return Some(&members[i].value);
        }
        i += 1;
    }
    None
}

/// `toml::Value`: one value of a parsed document, as the parser holds it.
#[verifier::external_type_specification]
#[verifier::external_body]
pub struct ExTomlValue(toml::Value);

/// `toml::de::Error`: why a text is no document.
#[verifier::external_type_specification]
#[verifier::external_body]
pub struct ExTomlError(toml::de::Error);

/// What a value of the parser holds, as plain data: its variant, its scalar,
/// and its items or members in the order in which the parser hands them out.
pub uninterp spec fn plain(value: toml::Value) -> Node;

/// The document that a text holds, if the text is a document: what
/// `toml::from_str` makes of it, as plain data.
pub uninterp spec fn toml_document(text: Seq<char>) -> Option<Node>;

/// `toml::de::Error::message`: the parser's words for what is wrong. Nothing
/// is claimed of them.
pub assume_specification[ toml::de::Error::message ](error: &toml::de::Error) -> (message: &str)
;

/// Copies one value of the parser into plain data, variant by variant: a
/// string and a number with what they hold, a float and a date by their kind
/// alone, an array item by item, a table member by member. The contract
/// claims only that the copy depends on the value alone.
#[verifier::external_body]
fn plain_value(value: &toml::Value) -> (node: Node)
    ensures
        node == plain(*value),
{
    match value {
        toml::Value::String(s) => Node::Text(s.clone()),
        toml::Value::Integer(n) => Node::Integer(*n),
        toml::Value::Float(_) => Node::Float,
        toml::Value::Boolean(b) => Node::Boolean(*b),
        toml::Value::Datetime(_) => Node::Datetime,
        toml::Value::Array(items) => Node::Array(items.iter().map(plain_value).collect()),
        toml::Value::Table(table) => Node::Table(
            table.iter().map(|(k, v)| Member { key: k.clone(), value: plain_value(v) }).collect(),
        ),
    }
}

/// `toml::from_str`, at the type `toml::Value`: parses a text as a document.
/// The contract claims only that the outcome depends on the text alone: an
/// error exactly where the text is no document, and otherwise a value whose
/// plain copy is the document that `toml_document` names.
#[verifier::external_body]
fn parse_document(text: &str) -> (parsed: Result<toml::Value, toml::de::Error>)
    ensures
        match parsed {
            Ok(value) => toml_document(text@) == Some(plain(value)),
            Err(_) => toml_document(text@) is None,
        },
{
    toml::from_str::<toml::Value>(text)
}

/// Why a text could not be read as a document.
#[derive(Debug, PartialEq, Eq)]
pub struct SyntaxError {
    /// The parser's description of the fault.
    pub message: String,
}

/// Reads a text as a document. The outcome is decided by the text: the
/// document that the parser finds in it, or a syntax error where it finds
/// none.
pub fn read_document(text: &str) -> (document: Result<Node, SyntaxError>)
    ensures
        match toml_document(text@) {
            Some(value) => document matches Ok(d) && d == value,
            None => document is Err,
        },
{
    match parse_document(text) {
        Ok(value) => Ok(plain_value(&value)),
        Err(error) => Err(SyntaxError { message: error.message().to_owned() }),
    }
}

} // verus!
