use vstd::prelude::*;

verus! {

/// serde_yaml's parsed value, carried through unopened.
#[verifier::external_type_specification]
#[verifier::external_body]
pub struct ExValue(serde_yaml::Value);

/// A YAML value tree. Mapping keys are scalars written as text; every
/// number keeps its text, and integers their value too.
#[derive(Debug)]
pub enum Yaml {
    Null,
    Bool(bool),
    /// A non-negative integer, with its text.
    Unsigned(u64, String),
    /// A negative integer, with its text.
    Signed(i64, String),
    /// Any other number, as text.
    Real(String),
    Text(String),
    List(Vec<Yaml>),
    Table(Vec<(String, Yaml)>),
}

/// Why a text could not be turned into a tree of the schema.
#[derive(Debug, Clone, PartialEq, Eq)]
pub enum DecodeError {
    /// The text is not valid YAML.
    Syntax(String),
    /// A mapping key is not text.
    KeyNotText,
    /// The tree is nested deeper than any schema allows.
    TooDeep,
    /// A mapping holds a key that its type does not declare.
    UnknownField(String),
    /// A mandatory field is absent.
    MissingField(String),
    /// A field holds a value of the wrong kind.
    WrongType(String),
    /// A record of the schema is not a mapping.
    NotAMapping,
    /// A mapping of names holds this name twice.
    DuplicateKey(String),
}

/// Nesting depth of a tree: one for a leaf.
pub open spec fn depth(y: Yaml) -> nat
    decreases y,
{
    match y {
        Yaml::List(items) => 1 + items_depth(items@),
        Yaml::Table(entries) => 1 + entries_depth(entries@),
        _ => 1,
    }
}

pub open spec fn items_depth(items: Seq<Yaml>) -> nat
    decreases items,
{
    if items.len() == 0 {
        0
    } else {
        let a = depth(items.last());
        let b = items_depth(items.drop_last());
        if a > b { a } else { b }
    }
}

pub open spec fn entries_depth(entries: Seq<(String, Yaml)>) -> nat
    decreases entries,
{
    if entries.len() == 0 {
        0
    } else {
        let a = depth(entries.last().1);
        let b = entries_depth(entries.drop_last());
        if a > b { a } else { b }
    }
}

/// The text is valid YAML.
pub uninterp spec fn yaml_valid(text: Seq<char>) -> bool;

/// Relies on serde_yaml's `from_str` into a `Value`: parses YAML text, and
/// fails exactly where the text is not YAML.
#[verifier::external_body]
fn parse_value(text: &String) -> (r: Result<serde_yaml::Value, DecodeError>)
    ensures
        r is Ok <==> yaml_valid(text@),
        r is Err ==> r matches Err(DecodeError::Syntax(_)),
{
    serde_yaml::from_str(text).map_err(|e| DecodeError::Syntax(e.to_string()))
}

/// Relies on serde_yaml's `Value::is_null`.
#[verifier::external_body]
fn value_is_null(v: &serde_yaml::Value) -> bool {
    v.is_null()
}

/// Relies on serde_yaml's `Value::as_bool`.
#[verifier::external_body]
fn value_bool(v: &serde_yaml::Value) -> Option<bool> {
    v.as_bool()
}

/// Relies on serde_yaml's `Value::as_u64`.
#[verifier::external_body]
fn value_u64(v: &serde_yaml::Value) -> Option<u64> {
    v.as_u64()
}

/// Relies on serde_yaml's `Value::as_i64`.
#[verifier::external_body]
fn value_i64(v: &serde_yaml::Value) -> Option<i64> {
    v.as_i64()
}

/// Relies on serde_yaml's `Number` as `Display`: the text of a number.
#[verifier::external_body]
fn value_number_text(v: &serde_yaml::Value) -> Option<String> {
    match v {
        serde_yaml::Value::Number(n) => Some(n.to_string()),
        _ => None,
    }
}

/// Relies on serde_yaml's `Value::as_str`.
#[verifier::external_body]
fn value_str(v: &serde_yaml::Value) -> Option<String> {
    v.as_str().map(|s| s.to_owned())
}

/// Relies on serde_yaml's `Value::as_sequence`.
#[verifier::external_body]
fn value_items(v: &serde_yaml::Value) -> Option<Vec<serde_yaml::Value>> {
    v.as_sequence().cloned()
}

/// Relies on serde_yaml's `Value::as_mapping` and `Mapping::iter`: the
/// entries of a mapping, in order.
#[verifier::external_body]
fn value_entries(v: &serde_yaml::Value) -> Option<Vec<(serde_yaml::Value, serde_yaml::Value)>> {
    v.as_mapping().map(|m| m.iter().map(|(k, x)| (k.clone(), x.clone())).collect())
}

/// The text of a boolean scalar.
pub fn bool_text(b: bool) -> (r: String)
    ensures
        r@ == (if b { "true"@ } else { "false"@ }),
{
    if b {
        "true".to_owned()
    } else {
        "false".to_owned()
    }
}

/// The text of a scalar used as a mapping key.
fn key_text(k: &serde_yaml::Value) -> (r: Result<String, DecodeError>)
    ensures
        r is Err ==> r == Err::<String, DecodeError>(DecodeError::KeyNotText),
{
    if let Some(s) = value_str(k) {
        return Ok(s);
    }
    if let Some(b) = value_bool(k) {
        return Ok(bool_text(b));
    }
    match value_number_text(k) {
        Some(t) => Ok(t),
        None => Err(DecodeError::KeyNotText),
    }
}

/// Turns a parsed value into a tree no deeper than `limit`.
fn tree_of(v: &serde_yaml::Value, limit: usize) -> (r: Result<Yaml, DecodeError>)
    ensures
        r matches Ok(y) ==> depth(y) <= limit,
        !(r matches Err(DecodeError::Syntax(_))),
    decreases limit,
{
    if limit == 0 {
        return Err(DecodeError::TooDeep);
    }
    if value_is_null(v) {
        return Ok(Yaml::Null);
    }
    if let Some(b) = value_bool(v) {
        return Ok(Yaml::Bool(b));
    }
    if let Some(t) = value_number_text(v) {
        if let Some(n) = value_u64(v) {
            return Ok(Yaml::Unsigned(n, t));
        }
        if let Some(n) = value_i64(v) {
            return Ok(Yaml::Signed(n, t));
        }
        return Ok(Yaml::Real(t));
    }
    if let Some(s) = value_str(v) {
        return Ok(Yaml::Text(s));
    }
    if let Some(values) = value_items(v) {
        let mut items: Vec<Yaml> = Vec::new();
        let mut i: usize = 0;
        while i < values.len()
            invariant
                0 <= i <= values.len(),
                limit >= 1,
                items_depth(items@) <= limit - 1,
            decreases values.len() - i,
        {
            let item = match tree_of(&values[i], limit - 1) {
                Ok(y) => y,
                Err(e) => return Err(e),
            };
            let ghost before = items@;
            items.push(item);
            assert(items@.drop_last() == before);
            i = i + 1;
        }
        return Ok(Yaml::List(items));
    }
    if let Some(pairs) = value_entries(v) {
        let mut entries: Vec<(String, Yaml)> = Vec::new();
        let mut i: usize = 0;
        while i < pairs.len()
            invariant
                0 <= i <= pairs.len(),
                limit >= 1,
                entries_depth(entries@) <= limit - 1,
            decreases pairs.len() - i,
        {
            let key = match key_text(&pairs[i].0) {
                Ok(k) => k,
                Err(e) => return Err(e),
            };
            let item = match tree_of(&pairs[i].1, limit - 1) {
                Ok(y) => y,
                Err(e) => return Err(e),
            };
            let ghost before = entries@;
            entries.push((key, item));
            assert(entries@.drop_last() == before);
            i = i + 1;
        }
        return Ok(Yaml::Table(entries));
    }
    Err(DecodeError::WrongType("value".to_owned()))
}

/// The deepest nesting that any tree of the schema needs, with room to spare.
pub const DEPTH_LIMIT: usize = 64;

/// Parses YAML text into a tree.
pub fn parse_tree(text: &String) -> (r: Result<Yaml, DecodeError>)
    ensures
        !yaml_valid(text@) ==> r matches Err(DecodeError::Syntax(_)),
        yaml_valid(text@) ==> !(r matches Err(DecodeError::Syntax(_))),
        r matches Ok(y) ==> depth(y) <= DEPTH_LIMIT,
{
    let v = match parse_value(text) {
        Ok(v) => v,
        Err(e) => return Err(e),
    };
    tree_of(&v, DEPTH_LIMIT)
}

} // verus!
