use std::cmp::Ordering;
use vstd::prelude::*;
use crate::glob::{Glob, glob_match};
use crate::path::{compare_paths, path_cmp};
use crate::text::{compare_text, same_text};
use crate::value::{Row, Value, type_of};
use crate::value_type::{ValueType, compare_columns, lemma_type_cmp_equal, int_cmp, rank, schema_equals, text_cmp, type_cmp, type_eq};

verus! {

/// Lexicographic order of two sequences of strings from position `i` on.
pub open spec fn texts_cmp(x: Seq<String>, y: Seq<String>, i: int) -> Ordering
    decreases x.len() - i,
{
    if i < 0 || i >= x.len() {
        if i >= 0 && i < y.len() { Ordering::Less } else { Ordering::Equal }
    } else if i >= y.len() {
        Ordering::Greater
    } else {
        let c = text_cmp(x[i]@, y[i]@);
        if c == Ordering::Equal { texts_cmp(x, y, i + 1) } else { c }
    }
}

pub open spec fn bool_cmp(a: bool, b: bool) -> Ordering {
    if a == b { Ordering::Equal } else if !a { Ordering::Less } else { Ordering::Greater }
}

/// The partial order of values. Values of different types are ordered by
/// their types. Values of one type are ordered by their payload; tables,
/// structs and lists element by element, the shorter first when one is a
/// prefix of the other; commands, closures, streams and the remaining kinds
/// are not ordered.
pub open spec fn value_cmp(a: Value, b: Value) -> Option<Ordering>
    decreases a, 0nat,
{
    if !type_eq(type_of(a), type_of(b)) {
        Some(type_cmp(type_of(a), type_of(b)))
    } else {
        match (a, b) {
            (Value::Text(x), Value::Text(y)) => Some(text_cmp(x@, y@)),
            (Value::Field(x), Value::Field(y)) => Some(texts_cmp(x@, y@, 0)),
            (Value::Glob(x), Value::Glob(y)) => Some(text_cmp(x.pattern@, y.pattern@)),
            (Value::Regex(x), Value::Regex(y)) => Some(text_cmp(x@, y@)),
            (Value::Integer(x), Value::Integer(y)) => Some(int_cmp(x as int, y as int)),
            (Value::Time(x), Value::Time(y)) => {
                let c = int_cmp(x.seconds as int, y.seconds as int);
                Some(if c == Ordering::Equal { int_cmp(x.nanos as int, y.nanos as int) } else { c })
            },
            (Value::File(x), Value::File(y)) => Some(path_cmp(x@, y@)),
            (Value::Duration(x), Value::Duration(y)) => Some(int_cmp(x.micros as int, y.micros as int)),
            (Value::Bool(x), Value::Bool(y)) => Some(bool_cmp(x, y)),
            (Value::Table(x), Value::Table(y)) => rows_cmp(x.rows@, y.rows@, 0),
            (Value::Struct(x), Value::Struct(y)) => values_cmp(x.cells@, y.cells@, 0),
            (Value::List(x), Value::List(y)) => values_cmp(x.items@, y.items@, 0),
            _ => None,
        }
    }
}

/// Lexicographic order of two sequences of values from position `i` on;
/// unordered as soon as one pair of elements is.
pub open spec fn values_cmp(x: Seq<Value>, y: Seq<Value>, i: int) -> Option<Ordering>
    decreases x, x.len() - i,
{
    if i < 0 || i >= x.len() {
        if i >= 0 && i < y.len() { Some(Ordering::Less) } else { Some(Ordering::Equal) }
    } else if i >= y.len() {
        Some(Ordering::Greater)
    } else {
        let c = value_cmp(x[i], y[i]);
        if c == Some(Ordering::Equal) { values_cmp(x, y, i + 1) } else { c }
    }
}

/// Lexicographic order of two sequences of rows from position `i` on.
pub open spec fn rows_cmp(x: Seq<Row>, y: Seq<Row>, i: int) -> Option<Ordering>
    decreases x, x.len() - i,
{
    if i < 0 || i >= x.len() {
        if i >= 0 && i < y.len() { Some(Ordering::Less) } else { Some(Ordering::Equal) }
    } else if i >= y.len() {
        Some(Ordering::Greater)
    } else {
        let c = values_cmp(x[i].cells@, y[i].cells@, 0);
        if c == Some(Ordering::Equal) { rows_cmp(x, y, i + 1) } else { c }
    }
}

/// Whether a comparison involves a file path, whose equality depends on the
/// file system.
pub open spec fn involves_file(a: Value, b: Value) -> bool {
    match (a, b) {
        (Value::File(_), Value::File(_)) | (Value::Text(_), Value::File(_)) | (Value::File(_), Value::Text(_)) => true,
        _ => false,
    }
}

/// Equality of values, apart from the comparisons that involve file paths.
/// A glob equals the texts that it matches, in either order; tables,
/// structs and lists are equal when their order says so; other values of
/// different kinds are never equal.
pub open spec fn value_eq(a: Value, b: Value) -> bool {
    match (a, b) {
        (Value::Text(x), Value::Text(y)) => x@ == y@,
        (Value::Glob(g), Value::Text(t)) => glob_match(g.pattern@, t@),
        (Value::Text(t), Value::Glob(g)) => glob_match(g.pattern@, t@),
        (Value::Integer(x), Value::Integer(y)) => x == y,
        (Value::Time(x), Value::Time(y)) => x.seconds == y.seconds && x.nanos == y.nanos,
        (Value::Duration(x), Value::Duration(y)) => x == y,
        (Value::Field(x), Value::Field(y)) => x@.len() == y@.len()
            && forall|i: int| 0 <= i < x@.len() ==> x@[i]@ == y@[i]@,
        (Value::Glob(x), Value::Glob(y)) => x.pattern@ == y.pattern@,
        (Value::Regex(x), Value::Regex(y)) => x@ == y@,
        (Value::Command(x), Value::Command(y)) => x.name@ == y.name@,
        (Value::List(_), Value::List(_)) | (Value::Table(_), Value::Table(_))
        | (Value::Struct(_), Value::Struct(_)) => value_cmp(a, b) == Some(Ordering::Equal),
        (Value::Bool(x), Value::Bool(y)) => x == y,
        _ => false,
    }
}

/// Relies on std's `Path::canonicalize` and `OsStr::as_encoded_bytes`: the
/// bytes of the absolute form of a path with links resolved, or nothing
/// where the file system cannot give it. What it gives depends on the file
/// system.
#[verifier::external_body]
fn canonicalize(p: &String) -> (r: Option<Vec<u8>>) {
    let q = std::path::Path::new(p).canonicalize().ok()?;
    Some(q.as_os_str().as_encoded_bytes().to_vec())
}

fn same_bytes(p1: &Vec<u8>, p2: &Vec<u8>) -> (r: bool)
    ensures
        r == (p1@ == p2@),
{
    if p1.len() != p2.len() {
        return false;
    }
    let mut i: usize = 0;
    while i < p1.len()
        invariant
            p1@.len() == p2@.len(),
            i <= p1@.len(),
            forall|j: int| 0 <= j < i ==> p1@[j] == p2@[j],
        decreases p1@.len() - i,
    {
        if p1[i] != p2[i] {
            return false;
        }
        i = i + 1;
    }
    assert(p1@ =~= p2@);
    true
}

/// Two paths name the same file when both canonical forms exist and agree.
pub fn file_result_compare(c1: Option<Vec<u8>>, c2: Option<Vec<u8>>) -> (r: bool)
    ensures
        r == (c1 is Some && c2 is Some && c1->0@ == c2->0@),
{
    match (c1, c2) {
        (Some(p1), Some(p2)) => same_bytes(&p1, &p2),
        _ => false,
    }
}

fn same_texts(x: &Vec<String>, y: &Vec<String>) -> (r: bool)
    ensures
        r == (x@.len() == y@.len() && forall|i: int| 0 <= i < x@.len() ==> x@[i]@ == y@[i]@),
{
    if x.len() != y.len() {
        return false;
    }
    let mut i: usize = 0;
    while i < x.len()
        invariant
            x@.len() == y@.len(),
            i <= x@.len(),
            forall|j: int| 0 <= j < i ==> x@[j]@ == y@[j]@,
        decreases x@.len() - i,
    {
        if !same_text(x[i].as_str(), y[i].as_str()) {
            return false;
        }
        i = i + 1;
    }
    true
}

fn compare_int(a: i128, b: i128) -> (r: Ordering)
    ensures
        r == int_cmp(a as int, b as int),
{
    if a < b { Ordering::Less } else if a > b { Ordering::Greater } else { Ordering::Equal }
}

fn compare_texts(x: &Vec<String>, y: &Vec<String>, i: usize) -> (r: Ordering)
    requires
        i <= x@.len(),
    ensures
        r == texts_cmp(x@, y@, i as int),
    decreases x@.len() - i,
{
    if i >= x.len() {
        if i < y.len() { Ordering::Less } else { Ordering::Equal }
    } else if i >= y.len() {
        Ordering::Greater
    } else {
        let c = compare_text(x[i].as_str(), y[i].as_str());
        match c {
            Ordering::Equal => compare_texts(x, y, i + 1),
            _ => c,
        }
    }
}

/// Whether two values have the same type.
fn same_type(a: &Value, b: &Value) -> (r: bool)
    ensures
        r == type_eq(type_of(*a), type_of(*b)),
{
    match (a, b) {
        (Value::TableStream(x), Value::TableStream(y)) => schema_equals(&x.types, &y.types),
        (Value::Table(x), Value::Table(y)) => schema_equals(&x.types, &y.types),
        (Value::Struct(x), Value::Struct(y)) => schema_equals(&x.types, &y.types),
        (Value::List(x), Value::List(y)) => x.element_type.equals(&y.element_type),
        (Value::Dict(x), Value::Dict(y)) => x.key_type.equals(&y.key_type) && x.value_type.equals(&y.value_type),
        _ => {
            let ta = a.value_type();
            let tb = b.value_type();
            let ra = ta.rank_of();
            ra == tb.rank_of() && !(10 <= ra && ra <= 14)
        },
    }
}

/// The canonical order of the types of two values.
fn compare_types(a: &Value, b: &Value) -> (r: Ordering)
    ensures
        r == type_cmp(type_of(*a), type_of(*b)),
{
    let ra = a.value_type().rank_of();
    let rb = b.value_type().rank_of();
    if ra < rb {
        return Ordering::Less;
    } else if ra > rb {
        return Ordering::Greater;
    }
    match (a, b) {
        (Value::TableStream(x), Value::TableStream(y)) => compare_columns(&x.types, &y.types, 0),
        (Value::Table(x), Value::Table(y)) => compare_columns(&x.types, &y.types, 0),
        (Value::Struct(x), Value::Struct(y)) => compare_columns(&x.types, &y.types, 0),
        (Value::List(x), Value::List(y)) => x.element_type.compare(&y.element_type),
        (Value::Dict(x), Value::Dict(y)) => {
            let c = x.key_type.compare(&y.key_type);
            match c {
                Ordering::Equal => x.value_type.compare(&y.value_type),
                _ => c,
            }
        },
        _ => Ordering::Equal,
    }
}

fn compare_values(x: &Vec<Value>, y: &Vec<Value>, i: usize) -> (r: Option<Ordering>)
    requires
        i <= x@.len(),
    ensures
        r == values_cmp(x@, y@, i as int),
    decreases x@, x@.len() - i,
{
    if i >= x.len() {
        if i < y.len() { Some(Ordering::Less) } else { Some(Ordering::Equal) }
    } else if i >= y.len() {
        Some(Ordering::Greater)
    } else {
        let c = x[i].partial_cmp(&y[i]);
        match c {
            Some(Ordering::Equal) => compare_values(x, y, i + 1),
            _ => c,
        }
    }
}

fn compare_rows(x: &Vec<Row>, y: &Vec<Row>, i: usize) -> (r: Option<Ordering>)
    requires
        i <= x@.len(),
    ensures
        r == rows_cmp(x@, y@, i as int),
    decreases x@, x@.len() - i,
{
    if i >= x.len() {
        if i < y.len() { Some(Ordering::Less) } else { Some(Ordering::Equal) }
    } else if i >= y.len() {
        Some(Ordering::Greater)
    } else {
        let c = compare_values(&x[i].cells, &y[i].cells, 0);
        match c {
            Some(Ordering::Equal) => compare_rows(x, y, i + 1),
            _ => c,
        }
    }
}

impl Value {
    /// The partial order of values: by type first, then by payload.
    pub fn partial_cmp(&self, other: &Value) -> (r: Option<Ordering>)
        ensures
            r == value_cmp(*self, *other),
        decreases *self, 0nat,
    {
        if !same_type(self, other) {
            return Some(compare_types(self, other));
        }
        match (self, other) {
            (Value::Text(x), Value::Text(y)) => Some(compare_text(x.as_str(), y.as_str())),
            (Value::Field(x), Value::Field(y)) => Some(compare_texts(x, y, 0)),
            (Value::Glob(x), Value::Glob(y)) => Some(compare_text(x.pattern.as_str(), y.pattern.as_str())),
            (Value::Regex(x), Value::Regex(y)) => Some(compare_text(x.as_str(), y.as_str())),
            (Value::Integer(x), Value::Integer(y)) => Some(compare_int(*x, *y)),
            (Value::Time(x), Value::Time(y)) => {
                let c = compare_int(x.seconds as i128, y.seconds as i128);
                match c {
                    Ordering::Equal => Some(compare_int(x.nanos as i128, y.nanos as i128)),
                    _ => Some(c),
                }
            },
            (Value::File(x), Value::File(y)) => Some(compare_paths(x.as_str(), y.as_str())),
            (Value::Duration(x), Value::Duration(y)) => Some(compare_int(x.micros as i128, y.micros as i128)),
            (Value::Bool(x), Value::Bool(y)) => Some(
                if *x == *y { Ordering::Equal } else if !*x { Ordering::Less } else { Ordering::Greater },
            ),
            (Value::Table(x), Value::Table(y)) => compare_rows(&x.rows, &y.rows, 0),
            (Value::Struct(x), Value::Struct(y)) => compare_values(&x.cells, &y.cells, 0),
            (Value::List(x), Value::List(y)) => compare_values(&x.items, &y.items, 0),
            _ => None,
        }
    }

    /// Equality of values. Comparisons that involve a file path compare the
    /// canonical forms that the file system gives; the others are exact.
    pub fn eq(&self, other: &Value) -> (r: bool)
        ensures
            !involves_file(*self, *other) ==> r == value_eq(*self, *other),
    {
        match (self, other) {
            (Value::Text(x), Value::Text(y)) => same_text(x.as_str(), y.as_str()),
            (Value::Glob(g), Value::Text(t)) => g.matches(t.as_str()),
            (Value::Text(t), Value::Glob(g)) => g.matches(t.as_str()),
            (Value::Integer(x), Value::Integer(y)) => *x == *y,
            (Value::Time(x), Value::Time(y)) => x.seconds == y.seconds && x.nanos == y.nanos,
            (Value::Duration(x), Value::Duration(y)) => *x == *y,
            (Value::Field(x), Value::Field(y)) => same_texts(x, y),
            (Value::Glob(x), Value::Glob(y)) => same_text(x.pattern.as_str(), y.pattern.as_str()),
            (Value::Regex(x), Value::Regex(y)) => same_text(x.as_str(), y.as_str()),
            (Value::Command(x), Value::Command(y)) => same_text(x.name.as_str(), y.name.as_str()),
            (Value::List(_), Value::List(_)) | (Value::Table(_), Value::Table(_))
            | (Value::Struct(_), Value::Struct(_)) => {
                match self.partial_cmp(other) {
                    Some(Ordering::Equal) => true,
                    _ => false,
                }
            },
            (Value::File(x), Value::File(y)) => file_result_compare(canonicalize(x), canonicalize(y)),
            (Value::Text(x), Value::File(y)) => file_result_compare(canonicalize(x), canonicalize(y)),
            (Value::File(x), Value::Text(y)) => file_result_compare(canonicalize(y), canonicalize(x)),
            (Value::Bool(x), Value::Bool(y)) => *x == *y,
            _ => false,
        }
    }
}

/// A glob equals a text exactly when it matches the text, in either order.
pub proof fn lemma_glob_text_equality(g: Glob, t: String)
    ensures
        value_eq(Value::Glob(g), Value::Text(t)) == glob_match(g.pattern@, t@),
        value_eq(Value::Text(t), Value::Glob(g)) == value_eq(Value::Glob(g), Value::Text(t)),
        !involves_file(Value::Glob(g), Value::Text(t)),
        !involves_file(Value::Text(t), Value::Glob(g)),
{
}

/// Values of different types are always ordered, by the order of their types.
pub proof fn lemma_cross_type_order(a: Value, b: Value)
    requires
        !type_eq(type_of(a), type_of(b)),
    ensures
        value_cmp(a, b) == Some(type_cmp(type_of(a), type_of(b))),
        rank(type_of(a)) < rank(type_of(b)) ==> value_cmp(a, b) == Some(Ordering::Less),
        rank(type_of(a)) > rank(type_of(b)) ==> value_cmp(a, b) == Some(Ordering::Greater),
        value_cmp(a, b) != Some(Ordering::Equal),
{
    if type_cmp(type_of(a), type_of(b)) == Ordering::Equal {
        lemma_type_cmp_equal(type_of(a), type_of(b));
    }
}

}
