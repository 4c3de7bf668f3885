use vstd::prelude::*;

use yaml_rust::Yaml;

verus! {

#[verifier::external_type_specification]
#[verifier::external_body]
pub struct ExYaml(Yaml);

/// Which kind of node a YAML value is, with its scalar payload.
#[derive(Clone, Debug, PartialEq)]
pub enum YamlNode {
    Real(String),
    Integer(i64),
    Text(String),
    Boolean(bool),
    Sequence,
    Mapping,
    Alias(usize),
    Null,
    /// What a lookup gives for an absent key or a document that is not a
    /// mapping.
    BadValue,
}

/// The node under a key of a document.
pub uninterp spec fn node_at(doc: Yaml, key: Seq<char>) -> Yaml;

/// The kind and scalar payload of a node.
pub uninterp spec fn shape_of(node: Yaml) -> YamlNode;

/// The debug rendering of a node.
pub uninterp spec fn debug_text(node: Yaml) -> Seq<char>;

/// Relies on yaml_rust's `Index<&str> for Yaml`: the node under `key`, or
/// `BadValue` where the document is not a mapping or has no such key.
#[verifier::external_body]
pub fn lookup_node(doc: &Yaml, key: &str) -> (r: Yaml)
    ensures
        r == node_at(*doc, key@),
{
    doc[key].clone()
}

/// Relies on the variants of `yaml_rust::Yaml`: tells them apart, one arm
/// each, keeping the scalar payloads.
#[verifier::external_body]
pub fn node_shape(node: &Yaml) -> (r: YamlNode)
    ensures
        r == shape_of(*node),
{
    match node {
        Yaml::Real(s) => YamlNode::Real(s.clone()),
        Yaml::Integer(i) => YamlNode::Integer(*i),
        Yaml::String(s) => YamlNode::Text(s.clone()),
        Yaml::Boolean(b) => YamlNode::Boolean(*b),
        Yaml::Array(_) => YamlNode::Sequence,
        Yaml::Hash(_) => YamlNode::Mapping,
        Yaml::Alias(n) => YamlNode::Alias(*n),
        Yaml::Null => YamlNode::Null,
        Yaml::BadValue => YamlNode::BadValue,
    }
}

/// Relies on the derived `Debug` of `Yaml`: a rendering of a node for error
/// messages.
#[verifier::external_body]
pub fn describe_node(node: &Yaml) -> (r: String)
    ensures
        r@ == debug_text(*node),
{
    format!("{:?}", node)
}

} // verus!
