//! Structured template documents as a plain tree, read with `toml` or
//! `serde_yaml_ng`.
use vstd::prelude::*;

verus! {

#[verifier::external_type_specification]
#[verifier::external_body]
pub struct ExTomlValue(toml::Value);

#[verifier::external_type_specification]
#[verifier::external_body]
pub struct ExYamlValue(serde_yaml_ng::Value);

/// A node of a key/value document.
#[derive(Debug)]
pub enum DocNode {
    Null,
    Bool(bool),
    Int(i64),
    Str(String),
    /// A float, a date or a tagged value: nothing a template uses.
    Other,
    List(Vec<DocNode>),
    /// Key/value pairs in document order (TOML: in key order).
    Table(Vec<(DocNode, DocNode)>),
}

/// The tree `toml` reads from a TOML document, if it is well-formed.
pub uninterp spec fn toml_doc(s: Seq<char>) -> Option<DocNode>;

/// The tree `serde_yaml_ng` reads from a YAML document, if it is well-formed.
pub uninterp spec fn yaml_doc(s: Seq<char>) -> Option<DocNode>;

/// Relies on `str::parse::<toml::Table>`: reads a TOML document, or reports
/// why it is not one; the outcome depends on the text alone.
#[verifier::external_body]
pub(crate) fn parse_toml(s: &str) -> (r: Result<DocNode, String>)
    ensures
        match toml_doc(s@) {
            Some(d) => r == Ok::<DocNode, String>(d),
            None => r is Err,
        },
{
    match s.parse::<toml::Table>() {
        Ok(t) => Ok(toml_node(toml::Value::Table(t))),
        Err(e) => Err(e.to_string()),
    }
}

/// Converts a `toml::Value`, variant by variant (part of `parse_toml`).
#[verifier::external_body]
fn toml_node(v: toml::Value) -> DocNode {
    match v {
        toml::Value::String(s) => DocNode::Str(s),
        toml::Value::Integer(i) => DocNode::Int(i),
        toml::Value::Float(_) => DocNode::Other,
        toml::Value::Boolean(b) => DocNode::Bool(b),
        toml::Value::Datetime(_) => DocNode::Other,
        toml::Value::Array(a) => DocNode::List(a.into_iter().map(toml_node).collect()),
        toml::Value::Table(t) => DocNode::Table(t.into_iter().map(|(k, v)| (DocNode::Str(k), toml_node(v))).collect()),
    }
}

/// Relies on `serde_yaml_ng::from_str::<serde_yaml_ng::Value>`: reads a YAML
/// document, or reports why it is not one; the outcome depends on the text
/// alone.
#[verifier::external_body]
pub(crate) fn parse_yaml(s: &str) -> (r: Result<DocNode, String>)
    ensures
        match yaml_doc(s@) {
            Some(d) => r == Ok::<DocNode, String>(d),
            None => r is Err,
        },
{
    match serde_yaml_ng::from_str::<serde_yaml_ng::Value>(s) {
        Ok(v) => Ok(yaml_node(v)),
        Err(e) => Err(e.to_string()),
    }
}

/// Converts a `serde_yaml_ng::Value`, variant by variant (part of `parse_yaml`).
#[verifier::external_body]
fn yaml_node(v: serde_yaml_ng::Value) -> DocNode {
    match v {
        serde_yaml_ng::Value::Null => DocNode::Null,
        serde_yaml_ng::Value::Bool(b) => DocNode::Bool(b),
        serde_yaml_ng::Value::Number(n) => n.as_i64().map_or(DocNode::Other, DocNode::Int),
        serde_yaml_ng::Value::String(s) => DocNode::Str(s),
        serde_yaml_ng::Value::Sequence(a) => DocNode::List(a.into_iter().map(yaml_node).collect()),
        serde_yaml_ng::Value::Mapping(m) => DocNode::Table(m.into_iter().map(|(k, v)| (yaml_node(k), yaml_node(v))).collect()),
        serde_yaml_ng::Value::Tagged(_) => DocNode::Other,
    }
}

} // verus!
