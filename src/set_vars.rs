use vstd::prelude::*;

use serde_yaml::{Error as YamlError, Value};
use yaml_rust::{EmitError, Yaml, YamlEmitter};

use crate::error::{Error, ErrorKind};
use crate::reconcile::ModuleResult;
use crate::yaml::{debug_text, describe_node, node_shape, shape_of, YamlNode};

verus! {

#[verifier::external_type_specification]
#[verifier::external_body]
pub struct ExValue(Value);

#[verifier::external_type_specification]
#[verifier::external_body]
pub struct ExYamlError(YamlError);

#[verifier::external_type_specification]
#[verifier::external_body]
pub struct ExEmitError(EmitError);

/// The entries of a mapping node, in order; `None` for any other node.
pub uninterp spec fn entries_of(doc: Yaml) -> Option<Seq<(Yaml, Yaml)>>;

/// The YAML document a node is written out as; `None` where writing fails.
pub uninterp spec fn emitted(node: Yaml) -> Option<Seq<char>>;

/// The value a YAML document reads as; `None` where reading fails.
pub uninterp spec fn parsed(text: Seq<char>) -> Option<Value>;

/// Relies on `Yaml::as_hash`: the entries of a mapping node, in the
/// mapping's order, and `None` for any other node.
#[verifier::external_body]
fn mapping_entries(doc: &Yaml) -> (r: Option<Vec<(Yaml, Yaml)>>)
    ensures
        match r {
            Some(es) => entries_of(*doc) == Some(es@),
            None => entries_of(*doc) is None,
        },
{
    doc.as_hash().map(|h| h.iter().map(|(k, v)| (k.clone(), v.clone())).collect())
}

/// Relies on `YamlEmitter::dump`: writes a node out as a YAML document.
#[verifier::external_body]
fn emit_document(y: &Yaml) -> (r: Result<String, EmitError>)
    ensures
        match r {
            Ok(t) => emitted(*y) == Some(t@),
            Err(_) => emitted(*y) is None,
        },
{
    let mut out = String::new();
    let res = YamlEmitter::new(&mut out).dump(y);
    res.map(|_| out)
}

/// Relies on `serde_yaml::from_str`: reads a YAML document into a value.
#[verifier::external_body]
fn read_value(text: &str) -> (r: Result<Value, YamlError>)
    ensures
        match r {
            Ok(v) => parsed(text@) == Some(v),
            Err(_) => parsed(text@) is None,
        },
{
    serde_yaml::from_str(text)
}

/// The variable an entry sets: its key must be a string, and its value is
/// the node written out and read back as a YAML value.
pub open spec fn binding_of(entry: (Yaml, Yaml)) -> Option<(Seq<char>, Value)> {
    match (shape_of(entry.0), emitted(entry.1)) {
        (YamlNode::Text(name), Some(text)) => match parsed(text) {
            Some(v) => Some((name@, v)),
            None => None,
        },
        _ => None,
    }
}

/// Whether every entry sets a variable.
pub open spec fn all_bind(es: Seq<(Yaml, Yaml)>) -> bool {
    forall|i: int| 0 <= i < es.len() ==> (#[trigger] binding_of(es[i])) is Some
}

/// The message for an entry that sets no variable: the value where it cannot
/// be carried over, otherwise the key.
pub open spec fn failure_text(entry: (Yaml, Yaml)) -> Seq<char> {
    match emitted(entry.1) {
        Some(text) => if parsed(text) is Some {
            debug_text(entry.0)
        } else {
            debug_text(entry.1)
        },
        None => debug_text(entry.1),
    }
}

/// The variables after setting each entry in order, later entries winning.
pub open spec fn bind_entries(m: Map<Seq<char>, Value>, es: Seq<(Yaml, Yaml)>) -> Map<
    Seq<char>,
    Value,
>
    decreases es.len(),
{
    if es.len() == 0 {
        m
    } else {
        let b = binding_of(es.last())->Some_0;
        bind_entries(m, es.drop_last()).insert(b.0, b.1)
    }
}

/// Variables by name; a later binding of a name shadows earlier ones.
pub open spec fn bindings_map(es: Seq<(String, Value)>) -> Map<Seq<char>, Value>
    decreases es.len(),
{
    if es.len() == 0 {
        Map::empty()
    } else {
        bindings_map(es.drop_last()).insert(es.last().0@, es.last().1)
    }
}

proof fn lemma_latest_binding(es: Seq<(String, Value)>, k: Seq<char>, i: int)
    requires
        0 <= i < es.len(),
        es[i].0@ == k,
        forall|j: int| i < j < es.len() ==> (#[trigger] es[j]).0@ != k,
    ensures
        bindings_map(es).contains_key(k),
        bindings_map(es)[k] == es[i].1,
    decreases es.len(),
{
    if i < es.len() - 1 {
        let init = es.drop_last();
        assert forall|j: int| i < j < init.len() implies (#[trigger] init[j]).0@ != k by {
            assert(init[j] == es[j]);
        }
        lemma_latest_binding(init, k, i);
    }
}

proof fn lemma_unbound(es: Seq<(String, Value)>, k: Seq<char>)
    requires
        forall|j: int| 0 <= j < es.len() ==> (#[trigger] es[j]).0@ != k,
    ensures
        !bindings_map(es).contains_key(k),
    decreases es.len(),
{
    if es.len() > 0 {
        let init = es.drop_last();
        assert forall|j: int| 0 <= j < init.len() implies (#[trigger] init[j]).0@ != k by {
            assert(init[j] == es[j]);
        }
        lemma_unbound(init, k);
    }
}

/// The variable context of an execution.
pub struct Vars {
    bindings: Vec<(String, Value)>,
}

impl View for Vars {
    type V = Map<Seq<char>, Value>;

    closed spec fn view(&self) -> Map<Seq<char>, Value> {
        bindings_map(self.bindings@)
    }
}

impl Vars {
    /// A context with no variables.
    pub fn new() -> (r: Vars)
        ensures
            r@ == Map::<Seq<char>, Value>::empty(),
    {
        Vars { bindings: Vec::new() }
    }

    /// Binds `name` to `value`, replacing any earlier value.
    pub fn insert(&mut self, name: String, value: Value)
        ensures
            final(self)@ == old(self)@.insert(name@, value),
    {
        self.bindings.push((name, value));
        proof {
            assert(self.bindings@.drop_last() =~= old(self).bindings@);
        }
    }

    /// The value bound to `name`, if any.
    pub fn get(&self, name: &String) -> (r: Option<&Value>)
        ensures
            match r {
                Some(v) => self@.contains_key(name@) && *v == self@[name@],
                None => !self@.contains_key(name@),
            },
    {
        let mut i: usize = self.bindings.len();
        while i > 0
            invariant
                i <= self.bindings@.len(),
                forall|j: int| i <= j < self.bindings@.len() ==> (#[trigger] self.bindings@[j]).0@ != name@,
            decreases i,
        {
            i = i - 1;
            if self.bindings[i].0 == *name {
                proof {
                    lemma_latest_binding(self.bindings@, name@, i as int);
                }
                return Some(&self.bindings[i].1);
            }
        }
        proof {
            lemma_unbound(self.bindings@, name@);
        }
        None
    }
}

/// Merges a mapping of new variables into `vars`.
///
/// `params` must be a mapping whose keys are strings; each value is carried
/// over as a YAML value. One bad entry fails the whole call, leaving no
/// partial update. Assigning variables is not file state, so the result
/// never reports a change.
pub fn exec(params: Yaml, vars: Vars) -> (r: Result<(ModuleResult, Vars), Error>)
    ensures
        r is Ok <==> entries_of(params) is Some && all_bind(entries_of(params)->Some_0),
        match r {
            Ok((m, v)) => {
                &&& !m.changed
                &&& m.output is None
                &&& v@ == bind_entries(vars@, entries_of(params)->Some_0)
            },
            Err(e) => {
                &&& e.kind == ErrorKind::InvalidFormat
                &&& entries_of(params) is None ==> e.message@ == debug_text(params)
                &&& entries_of(params) is Some ==> exists|i: int|
                    #![trigger entries_of(params)->Some_0[i]]
                    {
                        &&& 0 <= i < entries_of(params)->Some_0.len()
                        &&& binding_of(entries_of(params)->Some_0[i]) is None
                        &&& forall|j: int|
                            0 <= j < i ==> (#[trigger] binding_of(
                                entries_of(params)->Some_0[j],
                            )) is Some
                        &&& e.message@ == failure_text(entries_of(params)->Some_0[i])
                    }
            },
        },
{
    let entries = match mapping_entries(&params) {
        Some(entries) => entries,
        None => {
            let described = describe_node(&params);
            return Err(Error { kind: ErrorKind::InvalidFormat, message: described });
        },
    };
    let ghost es = entries@;
    let mut new_vars = vars;
    let mut i: usize = 0;
    while i < entries.len()
        invariant
            es == entries@,
            entries_of(params) == Some(es),
            i <= es.len(),
            forall|j: int| 0 <= j < i ==> (#[trigger] binding_of(es[j])) is Some,
            new_vars@ == bind_entries(vars@, es.take(i as int)),
        decreases es.len() - i,
    {
        let key = &entries[i].0;
        let node = &entries[i].1;
        let text = match emit_document(node) {
            Ok(text) => text,
            Err(_) => return Err(Error { kind: ErrorKind::InvalidFormat, message: describe_node(node) }),
        };
        let value = match read_value(text.as_str()) {
            Ok(value) => value,
            Err(_) => {
                proof {
                    assert(emitted(es[i as int].1) == Some(text@));
                    assert(parsed(text@) is None);
                    assert(binding_of(es[i as int]) is None);
                }
                return Err(Error { kind: ErrorKind::InvalidFormat, message: describe_node(node) });
            },
        };
        let name = match node_shape(key) {
            YamlNode::Text(name) => name,
            _ => return Err(Error { kind: ErrorKind::InvalidFormat, message: describe_node(key) }),
        };
        proof {
            assert(es.take(i + 1).drop_last() =~= es.take(i as int));
            assert(es.take(i + 1).last() == es[i as int]);
        }
        new_vars.insert(name, value);
        i = i + 1;
    }
    proof {
        assert(es.take(i as int) =~= es);
    }
    Ok((ModuleResult { changed: false, output: None }, new_vars))
}

} // verus!
