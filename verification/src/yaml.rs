//! The document model of the codec: a metadata document is a mapping from
//! string keys to scalar or string-list values, kept in document order.
//!
//! Parsing text into this model and emitting it back are the only places
//! where the library leans on an outside structured-text implementation.

use vstd::prelude::*;

use serde_yaml::{Mapping, Number, Value};

verus! {

/// One value of a metadata document.
///
/// The database's documents hold only strings, integers, lists of strings
/// and empty values; any other shape (a nested mapping, a float, a native
/// boolean) is represented by [`Val::Other`] and coerces to no field type.
#[derive(Debug, Clone)]
pub enum Val {
    Str(String),
    Int(i64),
    List(Vec<String>),
    Null,
    Other,
}

/// The mathematical value of a [`Val`].
pub ghost enum YamlVal {
    Str(Seq<char>),
    Int(int),
    List(Seq<Seq<char>>),
    Null,
    Other,
}

impl View for Val {
    type V = YamlVal;

    open spec fn view(&self) -> YamlVal {
        match self {
            Val::Str(s) => YamlVal::Str(s@),
            Val::Int(i) => YamlVal::Int(*i as int),
            Val::List(l) => YamlVal::List(l.deep_view()),
            Val::Null => YamlVal::Null,
            Val::Other => YamlVal::Other,
        }
    }
}

/// The mathematical value of a whole document: its key/value pairs in
/// document order.
pub open spec fn doc_model(d: Seq<(String, Val)>) -> Seq<(Seq<char>, YamlVal)> {
    d.map_values(|p: (String, Val)| (p.0@, p.1@))
}

/// No two pairs of the document share a key.
pub open spec fn distinct_keys(d: Seq<(Seq<char>, YamlVal)>) -> bool {
    forall|i: int, j: int| 0 <= i < j < d.len() ==> d[i].0 != d[j].0
}

/// Every value of the document lies inside the model: none is of a shape
/// the model cannot name.
pub open spec fn no_foreign_values(d: Seq<(Seq<char>, YamlVal)>) -> bool {
    forall|i: int| 0 <= i < d.len() ==> !(d[i].1 is Other)
}

/// What parsing a text into the document model yields: the pairs of the
/// document's top-level mapping in order, or nothing where the text is not
/// one syntactically valid document whose top level is a mapping with
/// string keys. A function of the text alone.
pub uninterp spec fn yaml_doc_of(text: Seq<char>) -> Option<Seq<(Seq<char>, YamlVal)>>;

/// The YAML value type of the outside structured-text implementation,
/// opaque to the library: values of it are only carried into [`yaml_val`].
#[verifier::external_type_specification]
#[verifier::external_body]
pub struct ExYamlValue(Value);

/// Relies on serde_yaml::Value: carries one parsed scalar or sequence into
/// the document model, as [`parse_yaml_document`]'s contract states; a
/// value of a shape outside the model becomes [`Val::Other`].
#[verifier::external_body]
fn yaml_val(v: Value) -> Val {
    match v {
        Value::String(s) => Val::Str(s),
        Value::Number(n) => match n.as_i64() { Some(i) => Val::Int(i), None => Val::Other },
        Value::Sequence(xs) => {
            let mut l: Vec<String> = Vec::new();
            for x in xs { match x { Value::String(s) => l.push(s), _ => return Val::Other } }
            Val::List(l)
        },
        Value::Null => Val::Null,
        _ => Val::Other,
    }
}

/// Relies on serde_yaml::from_str: parses one YAML document into its
/// top-level mapping, in document order, rejecting syntactically invalid
/// input (duplicate keys included). Values outside the document model are
/// carried as [`Val::Other`].
#[verifier::external_body]
pub(crate) fn parse_yaml_document(text: &str) -> (r: Option<Vec<(String, Val)>>)
    ensures
        (match r {
            Some(d) => yaml_doc_of(text@) == Some(doc_model(d@)),
            None => yaml_doc_of(text@) is None,
        }),
{
    let m: Mapping = match serde_yaml::from_str(text) { Ok(m) => m, Err(_) => return None };
    let mut doc: Vec<(String, Val)> = Vec::new();
    for (k, v) in m {
        match k { Value::String(s) => doc.push((s, yaml_val(v))), _ => return None }
    }
    Some(doc)
}

/// Relies on serde_yaml::to_string and serde_yaml::from_str: a mapping of
/// strings, integers and string lists under distinct string keys is
/// serialized to one document that parses back to the same mapping, in the
/// same order (the mapping keeps insertion order).
#[verifier::external_body]
pub(crate) fn emit_yaml_document(doc: &Vec<(String, Val)>) -> (r: String)
    requires
        distinct_keys(doc_model(doc@)),
        no_foreign_values(doc_model(doc@)),
    ensures
        yaml_doc_of(r@) == Some(doc_model(doc@)),
{
    let mut m = Mapping::new();
    for (k, v) in doc.iter() {
        m.insert(Value::String(k.clone()), match v {
            Val::Str(s) => Value::String(s.clone()),
            Val::Int(i) => Value::Number(Number::from(*i)),
            Val::List(xs) => Value::Sequence(xs.iter().map(|x| Value::String(x.clone())).collect()),
            Val::Null | Val::Other => Value::Null,
        });
    }
    match serde_yaml::to_string(&m) { Ok(s) => s, Err(_) => String::new() }
}

} // verus!
