use vstd::prelude::*;
use crate::compare::value_eq;
use crate::value::{Value, type_of};
use crate::path::{PathPart, components, parts_view, path_components};
use crate::value_type::hashable;

verus! {

/// The payload of a hashable value that its hash is taken over.
#[derive(Debug, PartialEq, Eq, Hash)]
pub enum HashKey {
    Text(String),
    Integer(i128),
    Time(i64, u32),
    Duration(i64),
    Field(Vec<String>),
    Glob(String),
    Regex(String),
    Command,
    File(Vec<PathPart>),
    Bool(bool),
    Binary(Vec<u8>),
}

/// `k` is the hash payload of `v`: the text of texts, globs (their pattern)
/// and regexes (their source), the components of files, the number of
/// integers, the instant of times, the span of durations, the segments of
/// fields, the bytes of binaries; nothing for commands.
pub open spec fn key_of(k: HashKey, v: Value) -> bool {
    match (k, v) {
        (HashKey::Text(a), Value::Text(b)) => a@ == b@,
        (HashKey::Integer(a), Value::Integer(b)) => a == b,
        (HashKey::Time(s, n), Value::Time(t)) => s == t.seconds && n == t.nanos,
        (HashKey::Duration(a), Value::Duration(d)) => a == d.micros,
        (HashKey::Field(a), Value::Field(b)) => a@.len() == b@.len()
            && forall|i: int| 0 <= i < a@.len() ==> a@[i]@ == b@[i]@,
        (HashKey::Glob(a), Value::Glob(g)) => a@ == g.pattern@,
        (HashKey::Regex(a), Value::Regex(b)) => a@ == b@,
        (HashKey::Command, Value::Command(_)) => true,
        (HashKey::Command, Value::ConditionCommand(_)) => true,
        (HashKey::File(a), Value::File(b)) => parts_view(a@) == path_components(b@),
        (HashKey::Bool(a), Value::Bool(b)) => a == b,
        (HashKey::Binary(a), Value::Binary(b)) => a@ == b@,
        _ => false,
    }
}

/// Two hash payloads with the same content.
pub open spec fn same_key(a: HashKey, b: HashKey) -> bool {
    match (a, b) {
        (HashKey::Text(x), HashKey::Text(y)) => x@ == y@,
        (HashKey::Integer(x), HashKey::Integer(y)) => x == y,
        (HashKey::Bool(x), HashKey::Bool(y)) => x == y,
        _ => a == b,
    }
}

fn copy_texts(v: &Vec<String>) -> (r: Vec<String>)
    ensures
        r@.len() == v@.len(),
        forall|i: int| 0 <= i < v@.len() ==> r@[i]@ == v@[i]@,
{
    let mut r: Vec<String> = Vec::new();
    let mut i: usize = 0;
    while i < v.len()
        invariant
            i <= v@.len(),
            r@.len() == i,
            forall|j: int| 0 <= j < i ==> r@[j]@ == v@[j]@,
        decreases v@.len() - i,
    {
        r.push(v[i].clone());
        i = i + 1;
    }
    r
}

fn copy_bytes(v: &Vec<u8>) -> (r: Vec<u8>)
    ensures
        r@ == v@,
{
    let mut r: Vec<u8> = Vec::new();
    let mut i: usize = 0;
    while i < v.len()
        invariant
            i <= v@.len(),
            r@ == v@.subrange(0, i as int),
        decreases v@.len() - i,
    {
        r.push(v[i]);
        assert(v@.subrange(0, i + 1) =~= v@.subrange(0, i as int).push(v@[i as int]));
        i = i + 1;
    }
    assert(v@.subrange(0, i as int) =~= v@);
    r
}

impl Value {
    /// The payload that this value hashes by. Only hashable kinds have one:
    /// lists, dictionaries, tables, structs, streams, closures and scopes are
    /// mutable or unbounded and cannot be hash keys.
    pub fn hash_key(&self) -> (r: HashKey)
        requires
            hashable(type_of(*self)),
        ensures
            key_of(r, *self),
    {
        match self {
            Value::Text(v) => HashKey::Text(v.clone()),
            Value::Integer(v) => HashKey::Integer(*v),
            Value::Time(t) => HashKey::Time(t.seconds, t.nanos),
            Value::Duration(d) => HashKey::Duration(d.micros),
            Value::Field(f) => HashKey::Field(copy_texts(f)),
            Value::Glob(g) => HashKey::Glob(g.pattern.clone()),
            Value::Regex(x) => HashKey::Regex(x.clone()),
            Value::Command(_) | Value::ConditionCommand(_) => HashKey::Command,
            Value::File(p) => HashKey::File(components(p.as_str())),
            Value::Bool(b) => HashKey::Bool(*b),
            Value::Binary(b) => HashKey::Binary(copy_bytes(b)),
            _ => {
                proof {
                    assert(!hashable(type_of(*self)));
                }
                HashKey::Command
            },
        }
    }
}

/// Integers, texts and booleans can be hashed, and two equal values of one
/// of these kinds hash by the same payload.
pub proof fn lemma_equal_scalars_hash_equal(a: Value, b: Value, ka: HashKey, kb: HashKey)
    requires
        (a is Integer && b is Integer) || (a is Text && b is Text) || (a is Bool && b is Bool),
        value_eq(a, b),
        key_of(ka, a),
        key_of(kb, b),
    ensures
        hashable(type_of(a)),
        hashable(type_of(b)),
        same_key(ka, kb),
{
}

/// Exactly texts, integers, times, durations, fields, globs, regexes,
/// commands, files, booleans and binaries can be hashed; hashing anything
/// else, such as a list, dictionary, table, closure or stream, is ruled out.
pub proof fn lemma_hashable_kinds(v: Value)
    ensures
        hashable(type_of(v)) <==> (v is Text || v is Integer || v is Time || v is Duration || v is Field
            || v is Glob || v is Regex || v is Command || v is ConditionCommand || v is File
            || v is Bool || v is Binary),
{
}

/// Lists, dictionaries, tables, closures and binary streams cannot be hashed.
pub proof fn lemma_mutable_kinds_unhashable(v: Value)
    requires
        v is List || v is Dict || v is Table || v is Closure || v is BinaryStream,
    ensures
        !hashable(type_of(v)),
{
}

}
