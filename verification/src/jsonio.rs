//! The crossing points between the document model and its serialized text
//! form. Parsing and serializing are done by an outside library; what they
//! return is named here and never restated.

use vstd::prelude::*;

use crate::doc::{Doc, DocV};

verus! {

#[verifier::external_type_specification]
#[verifier::external_body]
pub struct ExValue(serde_json::Value);

/// The document that a piece of text parses to, if it parses at all. The
/// result depends on the characters of the text alone.
pub uninterp spec fn parsed_doc(s: Seq<char>) -> Option<DocV>;

/// The serialized text of a document. The result depends on the document
/// alone.
pub uninterp spec fn ser_of(d: DocV) -> Seq<char>;

/// Relies on reading `serde_json::Value` variant by variant; converts each
/// node one-for-one into the library's document type.
#[verifier::external_body]
fn doc_of_value(v: &serde_json::Value) -> Doc {
    match v {
        serde_json::Value::Null => Doc::Null,
        serde_json::Value::Bool(b) => Doc::Bool(*b),
        serde_json::Value::Number(n) => Doc::Num(n.to_string()),
        serde_json::Value::String(s) => Doc::Str(s.clone()),
        serde_json::Value::Array(items) => Doc::Arr(items.iter().map(doc_of_value).collect()),
        serde_json::Value::Object(m) => Doc::Obj(
            m.iter().map(|(k, x)| (k.clone(), doc_of_value(x))).collect(),
        ),
    }
}

/// Relies on `serde_json::Value`'s constructors and on deserializing
/// `serde_json::Number` from its literal text; converts each node
/// one-for-one into a `serde_json::Value`.
#[verifier::external_body]
fn value_of_doc(d: &Doc) -> serde_json::Value {
    match d {
        Doc::Null => serde_json::Value::Null,
        Doc::Bool(b) => serde_json::Value::Bool(*b),
        Doc::Num(s) => match serde_json::from_str::<serde_json::Number>(s) {
            Ok(n) => serde_json::Value::Number(n),
            Err(_) => serde_json::Value::Null,
        },
        Doc::Str(s) => serde_json::Value::String(s.clone()),
        Doc::Arr(items) => serde_json::Value::Array(items.iter().map(value_of_doc).collect()),
        Doc::Obj(entries) => serde_json::Value::Object(
            entries.iter().map(|e| (e.0.clone(), value_of_doc(&e.1))).collect(),
        ),
    }
}

/// Relies on `serde_json::from_str`: whether a piece of text parses, and
/// what it parses to, depend on the characters of the text alone.
#[verifier::external_body]
pub(crate) fn parse_json(s: &String) -> (r: Option<Doc>)
    ensures
        match r {
            Some(d) => parsed_doc(s@) == Some(d@),
            None => parsed_doc(s@) is None,
        },
{
    match serde_json::from_str::<serde_json::Value>(s) {
        Ok(v) => Some(doc_of_value(&v)),
        Err(_) => None,
    }
}

/// Relies on `serde_json::to_string`: the serialized text of a tree of
/// plain values depends on the tree alone.
#[verifier::external_body]
pub(crate) fn ser_json(d: &Doc) -> (r: String)
    ensures
        r@ == ser_of(d@),
{
    match serde_json::to_string(&value_of_doc(d)) {
        Ok(s) => s,
        Err(_) => String::new(),
    }
}

} // verus!
