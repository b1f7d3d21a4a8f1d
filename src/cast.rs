use vstd::prelude::*;
use vstd::utf8::{decode_utf8, encode_utf8, valid_utf8};
use vstd::string::StringSliceAdditionalSpecFns;
use crate::format::{int_text, int_to_string};
use crate::glob::Glob;
use crate::number::{canonical_int_text, lemma_int_text_parses, lemma_parse_prints_back, parse_int, parse_integer};
use crate::value::{List, Row, Value, type_of};
use crate::value_type::{ValueType, type_eq, canonical_name};

verus! {

/// The kinds of recoverable failure.
#[derive(Clone, Copy, Debug, PartialEq, Eq, Structural)]
pub enum ErrorKind {
    /// Text that does not read as the requested scalar.
    Parse,
    /// Bytes or a path that are not valid UTF-8 where text is required.
    Encoding,
    /// A schema that does not fit the requested operation.
    Type,
    /// A value that cannot serve as the requested argument.
    Argument,
    /// No conversion exists between the two types.
    UnsupportedConversion,
}

/// A recoverable failure: its kind and a message for people.
#[derive(Debug)]
pub struct Error {
    pub kind: ErrorKind,
    pub message: String,
}

pub open spec fn fails_with<T>(r: Result<T, Error>, k: ErrorKind) -> bool {
    r matches Err(e) && e.kind == k
}

pub fn error<T>(kind: ErrorKind, message: &str) -> (r: Result<T, Error>)
    ensures
        fails_with(r, kind),
{
    Err(Error { kind, message: message.to_string() })
}

/// Whether `s` is a regular expression that compiles.
pub uninterp spec fn regex_compiles(s: Seq<char>) -> bool;

/// Relies on `regex::Regex::new`: whether a pattern compiles depends on its
/// text alone.
#[verifier::external_body]
fn regex_is_valid(s: &str) -> (r: bool)
    ensures
        r == regex_compiles(s@),
{
    regex::Regex::new(s).is_ok()
}

/// Relies on std's `String::from_utf8`: it succeeds exactly on valid UTF-8,
/// and the string then holds the decoded characters.
#[verifier::external_body]
fn string_from_utf8(b: Vec<u8>) -> (r: Option<String>)
    ensures
        r matches Some(s) ==> valid_utf8(b@) && s@ == decode_utf8(b@),
        r is None ==> !valid_utf8(b@),
{
    String::from_utf8(b).ok()
}

/// The first cell of each row that has one, in order.
pub open spec fn first_cells(rows: Seq<Row>) -> Seq<Value>
    decreases rows.len(),
{
    if rows.len() == 0 {
        Seq::empty()
    } else {
        let p = first_cells(rows.drop_last());
        if rows.last().cells@.len() > 0 { p.push(rows.last().cells@[0]) } else { p }
    }
}

/// The outcome of reading text as an integer.
pub open spec fn integer_outcome(s: Seq<char>, r: Result<Value, Error>) -> bool {
    match parse_int(s) {
        Some(n) => r matches Ok(Value::Integer(i)) && i == n,
        None => fails_with(r, ErrorKind::Parse),
    }
}

/// The outcome of compiling text as a regular expression.
pub open spec fn regex_outcome(s: Seq<char>, r: Result<Value, Error>) -> bool {
    if regex_compiles(s) {
        r matches Ok(Value::Regex(x)) && x@ == s
    } else {
        fails_with(r, ErrorKind::Parse)
    }
}

/// The outcome of decoding bytes as text.
pub open spec fn decode_outcome(b: Seq<u8>, r: Result<Value, Error>) -> bool {
    if valid_utf8(b) {
        r matches Ok(Value::Text(t)) && t@ == decode_utf8(b)
    } else {
        fails_with(r, ErrorKind::Encoding)
    }
}

/// The outcome of converting a value that reads as the text `s` (a path, a
/// glob, a regex source or a printed integer) to the type `t`, for the targets
/// that go through that text.
pub open spec fn text_like_outcome(s: Seq<char>, t: ValueType, r: Result<Value, Error>) -> bool {
    match t {
        ValueType::Text => r matches Ok(Value::Text(x)) && x@ == s,
        ValueType::File => r matches Ok(Value::File(x)) && x@ == s,
        ValueType::Glob => r matches Ok(Value::Glob(g)) && g.pattern@ == s,
        ValueType::Integer => integer_outcome(s, r),
        ValueType::Regex => regex_outcome(s, r),
        _ => fails_with(r, ErrorKind::UnsupportedConversion),
    }
}

/// What converting `v` to the type `t` gives.
pub open spec fn cast_outcome(v: Value, t: ValueType, r: Result<Value, Error>) -> bool {
    if type_eq(type_of(v), t) {
        r == Ok::<Value, Error>(v)
    } else {
        match v {
            Value::Text(s) => match t {
                ValueType::Field => r matches Ok(Value::Field(f)) && f@.len() == 1 && f@[0]@ == s@,
                ValueType::Binary => r matches Ok(Value::Binary(b)) && b@ == encode_utf8(s@),
                _ => text_like_outcome(s@, t, r),
            },
            Value::File(p) => text_like_outcome(p@, t, r),
            Value::Glob(g) => text_like_outcome(g.pattern@, t, r),
            Value::Regex(x) => text_like_outcome(x@, t, r),
            Value::Integer(i) => match t {
                ValueType::Field => r matches Ok(Value::Field(f)) && f@.len() == 1 && f@[0]@ == int_text(i as int),
                _ => text_like_outcome(int_text(i as int), t, r),
            },
            Value::Type(x) => if t is Text { r matches Ok(Value::Text(s)) && s@ == canonical_name(x) }
                else { fails_with(r, ErrorKind::UnsupportedConversion) },
            Value::Binary(b) => if t is Text { decode_outcome(b@, r) }
                else { fails_with(r, ErrorKind::UnsupportedConversion) },
            Value::BinaryStream(s) => if t is Text { decode_outcome(s.pending@, r) }
                else { fails_with(r, ErrorKind::UnsupportedConversion) },
            Value::TableStream(s) => match t {
                ValueType::List(e) => if s.types@.len() == 1 && type_eq(s.types@[0].cell_type, *e) {
                    r matches Ok(Value::List(l)) && l.element_type == *e && l.items@ == first_cells(s.pending@)
                } else {
                    fails_with(r, ErrorKind::Type)
                },
                _ => fails_with(r, ErrorKind::UnsupportedConversion),
            },
            _ => fails_with(r, ErrorKind::UnsupportedConversion),
        }
    }
}

/// Converts text to the targets that go through text.
fn cast_text_like(s: String, t: ValueType) -> (r: Result<Value, Error>)
    ensures
        text_like_outcome(s@, t, r),
{
    match t {
        ValueType::Text => Ok(Value::Text(s)),
        ValueType::File => Ok(Value::File(s)),
        ValueType::Glob => Ok(Value::Glob(Glob::new(s.as_str()))),
        ValueType::Integer => match parse_integer(s.as_str()) {
            Some(i) => Ok(Value::Integer(i)),
            None => error(ErrorKind::Parse, "Text is not a valid integer"),
        },
        ValueType::Regex => {
            if regex_is_valid(s.as_str()) {
                Ok(Value::Regex(s))
            } else {
                error(ErrorKind::Parse, "Text is not a valid regular expression")
            }
        },
        _ => error(ErrorKind::UnsupportedConversion, "Unimplemented conversion"),
    }
}

fn decode_text(b: Vec<u8>) -> (r: Result<Value, Error>)
    ensures
        decode_outcome(b@, r),
{
    match string_from_utf8(b) {
        Some(s) => Ok(Value::Text(s)),
        None => error(ErrorKind::Encoding, "Binary data is not valid UTF-8"),
    }
}

/// Drains rows, keeping the first cell of each row that has one.
fn drain_first_cells(rows: Vec<Row>) -> (r: Vec<Value>)
    ensures
        r@ == first_cells(rows@),
{
    let ghost orig = rows@;
    let mut rows = rows;
    let mut out: Vec<Value> = Vec::new();
    let n = rows.len();
    let mut k: usize = 0;
    while rows.len() > 0
        invariant
            k <= orig.len(),
            orig.len() == n,
            rows@ == orig.subrange(k as int, orig.len() as int),
            rows@.len() == orig.len() - k,
            out@ == first_cells(orig.subrange(0, k as int)),
        decreases rows.len(),
    {
        assert(k < orig.len());
        let mut row = rows.remove(0);
        assert(orig.subrange(0, k + 1).drop_last() =~= orig.subrange(0, k as int));
        assert(rows@ =~= orig.subrange(k + 1, orig.len() as int));
        if row.cells.len() > 0 {
            let c = row.cells.remove(0);
            out.push(c);
        }
        k = k + 1;
    }
    assert(orig.subrange(0, k as int) =~= orig);
    out
}

impl Value {
    /// Converts this value to the type `new_type`, by the fixed table of
    /// conversions; a value already of that type is returned unchanged.
    pub fn cast(self, new_type: ValueType) -> (r: Result<Value, Error>)
        ensures
            cast_outcome(self, new_type, r),
    {
        if self.has_type(&new_type) {
            return Ok(self);
        }
        match self {
            Value::Text(s) => match new_type {
                ValueType::Field => Ok(Value::Field(vec![s])),
                ValueType::Binary => {
                    let b = vstd::slice::slice_to_vec(s.as_str().as_bytes());
                    Ok(Value::Binary(b))
                },
                _ => cast_text_like(s, new_type),
            },
            Value::File(p) => cast_text_like(p, new_type),
            Value::Glob(g) => cast_text_like(g.pattern, new_type),
            Value::Regex(x) => cast_text_like(x, new_type),
            Value::Integer(i) => match new_type {
                ValueType::Field => Ok(Value::Field(vec![int_to_string(i)])),
                _ => cast_text_like(int_to_string(i), new_type),
            },
            Value::Type(x) => match new_type {
                ValueType::Text => Ok(Value::Text(x.name())),
                _ => error(ErrorKind::UnsupportedConversion, "Unimplemented conversion"),
            },
            Value::Binary(b) => match new_type {
                ValueType::Text => decode_text(b),
                _ => error(ErrorKind::UnsupportedConversion, "Unimplemented conversion"),
            },
            Value::BinaryStream(s) => match new_type {
                ValueType::Text => decode_text(s.pending),
                _ => error(ErrorKind::UnsupportedConversion, "Unimplemented conversion"),
            },
            Value::TableStream(s) => match new_type {
                ValueType::List(e) => {
                    if s.types.len() != 1 {
                        return error(ErrorKind::Type, "Stream must have exactly one column to convert to list");
                    }
                    if !s.types[0].cell_type.equals(&*e) {
                        return error(ErrorKind::Type, "Incompatible stream type");
                    }
                    let items = drain_first_cells(s.pending);
                    Ok(Value::List(List { element_type: *e, items }))
                },
                _ => error(ErrorKind::UnsupportedConversion, "Unimplemented conversion"),
            },
            _ => error(ErrorKind::UnsupportedConversion, "Unimplemented conversion"),
        }
    }
}

/// Text that reads as an integer converts to an integer, and when it is in
/// the form integers print in, converting that integer back to text gives
/// the same text.
pub proof fn lemma_integer_text_round_trip(s: String, r1: Result<Value, Error>, r2: Result<Value, Error>)
    requires
        parse_int(s@) is Some,
        cast_outcome(Value::Text(s), ValueType::Integer, r1),
        r1 is Ok ==> cast_outcome(r1->Ok_0, ValueType::Text, r2),
    ensures
        r1 is Ok && r1->Ok_0 is Integer && r1->Ok_0->Integer_0 == parse_int(s@)->0,
        canonical_int_text(s@) ==> (r2 is Ok && r2->Ok_0 is Text && r2->Ok_0->Text_0@ == s@),
{
    if canonical_int_text(s@) {
        lemma_parse_prints_back(s@);
    }
}

/// Every integer converts to text that reads back as the same integer.
pub proof fn lemma_integer_prints_and_parses(i: i128, r1: Result<Value, Error>, r2: Result<Value, Error>)
    requires
        cast_outcome(Value::Integer(i), ValueType::Text, r1),
        r1 is Ok ==> cast_outcome(r1->Ok_0, ValueType::Integer, r2),
    ensures
        r1 is Ok && r1->Ok_0 is Text,
        r2 is Ok && r2->Ok_0 is Integer && r2->Ok_0->Integer_0 == i,
{
    lemma_int_text_parses(i);
}

}
