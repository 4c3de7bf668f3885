use vstd::prelude::*;

use yaml_rust::Yaml;

use crate::error::{Error, ErrorKind};
use crate::mode::{is_mode_string, mode_value, parse_octal};
use crate::reconcile::Params;
use crate::yaml::{lookup_node, node_at, node_shape, shape_of, YamlNode};

verus! {

/// Permission bits used when no mode is given.
pub const DEFAULT_MODE: u32 = 0o644;

/// The parameter under `key`, as the kind of node found there.
pub open spec fn param_of(doc: Yaml, key: Seq<char>) -> YamlNode {
    shape_of(node_at(doc, key))
}

/// Whether a required parameter can be taken as text.
pub open spec fn is_text(v: YamlNode) -> bool {
    v is Text
}

/// Whether the mode parameter is acceptable: absent, or a permission string.
/// A number is not (`0600` written without quotes is a YAML integer), and
/// neither is a null.
pub open spec fn is_mode_param(v: YamlNode) -> bool {
    match v {
        YamlNode::BadValue => true,
        YamlNode::Text(t) => is_mode_string(t@),
        _ => false,
    }
}

/// The permission bits an acceptable mode parameter stands for.
pub open spec fn mode_param_value(v: YamlNode) -> int {
    match v {
        YamlNode::Text(t) => mode_value(t@),
        _ => DEFAULT_MODE as int,
    }
}

fn required_text(key: &str, v: YamlNode) -> (r: Result<String, Error>)
    ensures
        match r {
            Ok(t) => v is Text && t@ == v->Text_0@,
            Err(e) => !(v is Text) && e.kind == ErrorKind::InvalidFormat && e.message@ == key@,
        },
{
    match v {
        YamlNode::Text(t) => Ok(t),
        _ => Err(Error::invalid_format(key)),
    }
}

/// Builds the desired state from the three parameters: `content` and `dest`
/// must be strings; `mode` must be absent (meaning `0o644`) or a permission
/// string. Every other input is a format error, naming the parameter or,
/// for a malformed mode string, carrying that string.
pub fn params_from_values(content: YamlNode, dest: YamlNode, mode: YamlNode) -> (r: Result<
    Params,
    Error,
>)
    ensures
        r is Ok <==> is_text(content) && is_text(dest) && is_mode_param(mode),
        match r {
            Ok(p) => {
                &&& p.wf()
                &&& p.content@ == content->Text_0@
                &&& p.dest@ == dest->Text_0@
                &&& p.mode as int == mode_param_value(mode)
            },
            Err(e) => e.kind == ErrorKind::InvalidFormat,
        },
{
    let mode_bits = match mode {
        YamlNode::BadValue => DEFAULT_MODE,
        YamlNode::Text(t) => match parse_octal(t.as_str()) {
            Ok(v) => v,
            Err(e) => return Err(e),
        },
        _ => return Err(Error::invalid_format("mode")),
    };
    let content = match required_text("content", content) {
        Ok(t) => t,
        Err(e) => return Err(e),
    };
    let dest = match required_text("dest", dest) {
        Ok(t) => t,
        Err(e) => return Err(e),
    };
    Ok(Params { content, dest, mode: mode_bits })
}

/// Reads the desired state from a parameter mapping with the keys
/// `content`, `dest` and, optionally, `mode`.
pub fn parse_params(yaml: Yaml) -> (r: Result<Params, Error>)
    ensures
        r is Ok <==> is_text(param_of(yaml, "content"@)) && is_text(param_of(yaml, "dest"@))
            && is_mode_param(param_of(yaml, "mode"@)),
        match r {
            Ok(p) => {
                &&& p.wf()
                &&& p.content@ == param_of(yaml, "content"@)->Text_0@
                &&& p.dest@ == param_of(yaml, "dest"@)->Text_0@
                &&& p.mode as int == mode_param_value(param_of(yaml, "mode"@))
            },
            Err(e) => e.kind == ErrorKind::InvalidFormat,
        },
{
    let mode = node_shape(&lookup_node(&yaml, "mode"));
    let content = node_shape(&lookup_node(&yaml, "content"));
    let dest = node_shape(&lookup_node(&yaml, "dest"));
    params_from_values(content, dest, mode)
}

} // verus!
