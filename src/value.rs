use vstd::prelude::*;
use crate::duration::Duration;
use crate::glob::Glob;
use crate::value_type::{ColumnType, ValueType, type_eq, schema_equals, schema_copy};

verus! {

/// An instant: seconds and nanoseconds since the Unix epoch, and the offset
/// from UTC, in seconds, of the zone it was taken in.
#[derive(Clone, Copy, Debug, PartialEq, Eq, Structural, Hash)]
pub struct Time {
    pub seconds: i64,
    pub nanos: u32,
    pub offset_seconds: i32,
}

/// A handle on a command, known by name.
#[derive(Debug)]
pub struct CommandRef {
    pub name: String,
}

/// A handle on a closure, known by its source text.
#[derive(Debug)]
pub struct ClosureRef {
    pub source: String,
}

/// A handle on a lexical scope, known by name.
#[derive(Debug)]
pub struct ScopeRef {
    pub name: String,
}

/// One row of a table: a cell per column.
#[derive(Debug)]
pub struct Row {
    pub cells: Vec<Value>,
}

/// Rows held in memory, with their schema.
#[derive(Debug)]
pub struct Table {
    pub types: Vec<ColumnType>,
    pub rows: Vec<Row>,
}

/// Named fields, in order.
#[derive(Debug)]
pub struct Struct {
    pub types: Vec<ColumnType>,
    pub cells: Vec<Value>,
}

/// A sequence of values of one declared type.
#[derive(Debug)]
pub struct List {
    pub element_type: ValueType,
    pub items: Vec<Value>,
}

/// Key and value pairs in insertion order, with declared key and value types.
#[derive(Debug)]
pub struct Dict {
    pub key_type: ValueType,
    pub value_type: ValueType,
    pub entries: Vec<(Value, Value)>,
}

/// A single-pass source of rows: what has not been received yet, in order.
#[derive(Debug)]
pub struct TableStream {
    pub types: Vec<ColumnType>,
    pub pending: Vec<Row>,
}

/// A single-pass source of bytes: what has not been read yet, in order.
#[derive(Debug)]
pub struct BinaryStream {
    pub pending: Vec<u8>,
}

/// The value of the shell: every piece of data that flows through commands
/// and pipelines.
#[derive(Debug)]
pub enum Value {
    Text(String),
    Integer(i128),
    Time(Time),
    Duration(Duration),
    Field(Vec<String>),
    Glob(Glob),
    Regex(String),
    Command(CommandRef),
    Closure(ClosureRef),
    ConditionCommand(CommandRef),
    TableStream(TableStream),
    File(String),
    Table(Table),
    Struct(Struct),
    List(List),
    Dict(Dict),
    Scope(ScopeRef),
    Bool(bool),
    Empty(),
    BinaryStream(BinaryStream),
    Binary(Vec<u8>),
    Type(ValueType),
}

/// How a value lines up in a column.
#[derive(Clone, Copy, Debug, PartialEq, Eq, Structural)]
pub enum Alignment {
    Left,
    Right,
}

/// The type of a value.
pub open spec fn type_of(v: Value) -> ValueType {
    match v {
        Value::Text(_) => ValueType::Text,
        Value::Integer(_) => ValueType::Integer,
        Value::Time(_) => ValueType::Time,
        Value::Duration(_) => ValueType::Duration,
        Value::Field(_) => ValueType::Field,
        Value::Glob(_) => ValueType::Glob,
        Value::Regex(_) => ValueType::Regex,
        Value::Command(_) => ValueType::Command,
        Value::ConditionCommand(_) => ValueType::Command,
        Value::Closure(_) => ValueType::Closure,
        Value::File(_) => ValueType::File,
        Value::TableStream(s) => ValueType::TableStream(s.types),
        Value::Table(t) => ValueType::Table(t.types),
        Value::Struct(s) => ValueType::Struct(s.types),
        Value::List(l) => ValueType::List(Box::new(l.element_type)),
        Value::Dict(d) => ValueType::Dict(Box::new(d.key_type), Box::new(d.value_type)),
        Value::Scope(_) => ValueType::Scope,
        Value::Bool(_) => ValueType::Bool,
        Value::Empty() => ValueType::Empty,
        Value::BinaryStream(_) => ValueType::BinaryStream,
        Value::Binary(_) => ValueType::Binary,
        Value::Type(_) => ValueType::Type,
    }
}

impl Value {
    pub fn text(s: &str) -> (r: Value)
        ensures
            r matches Value::Text(t) && t@ == s@,
    {
        Value::Text(s.to_string())
    }

    /// A table stream with no columns and no rows.
    pub fn empty_stream() -> (r: Value)
        ensures
            r matches Value::TableStream(s) && s.types@.len() == 0 && s.pending@.len() == 0,
    {
        Value::TableStream(TableStream { types: Vec::new(), pending: Vec::new() })
    }

    /// Times, durations and integers line up on the right, the rest on the left.
    pub fn alignment(&self) -> (r: Alignment)
        ensures
            r == (if self is Time || self is Duration || self is Integer { Alignment::Right } else { Alignment::Left }),
    {
        match self {
            Value::Time(_) | Value::Duration(_) | Value::Integer(_) => Alignment::Right,
            _ => Alignment::Left,
        }
    }

    /// The type of this value.
    pub fn value_type(&self) -> (r: ValueType)
        ensures
            type_eq(r, type_of(*self)),
    {
        match self {
            Value::Text(_) => ValueType::Text,
            Value::Integer(_) => ValueType::Integer,
            Value::Time(_) => ValueType::Time,
            Value::Duration(_) => ValueType::Duration,
            Value::Field(_) => ValueType::Field,
            Value::Glob(_) => ValueType::Glob,
            Value::Regex(_) => ValueType::Regex,
            Value::Command(_) => ValueType::Command,
            Value::ConditionCommand(_) => ValueType::Command,
            Value::Closure(_) => ValueType::Closure,
            Value::File(_) => ValueType::File,
            Value::TableStream(s) => ValueType::TableStream(schema_copy(&s.types)),
            Value::Table(t) => ValueType::Table(schema_copy(&t.types)),
            Value::Struct(s) => ValueType::Struct(schema_copy(&s.types)),
            Value::List(l) => ValueType::List(Box::new(l.element_type.deep_copy())),
            Value::Dict(d) => ValueType::Dict(Box::new(d.key_type.deep_copy()), Box::new(d.value_type.deep_copy())),
            Value::Scope(_) => ValueType::Scope,
            Value::Bool(_) => ValueType::Bool,
            Value::Empty() => ValueType::Empty,
            Value::BinaryStream(_) => ValueType::BinaryStream,
            Value::Binary(_) => ValueType::Binary,
            Value::Type(_) => ValueType::Type,
        }
    }

    /// Whether this value is of the type `t`.
    pub fn has_type(&self, t: &ValueType) -> (r: bool)
        ensures
            r == type_eq(type_of(*self), *t),
    {
        match (self, t) {
            (Value::Text(_), ValueType::Text) => true,
            (Value::Integer(_), ValueType::Integer) => true,
            (Value::Time(_), ValueType::Time) => true,
            (Value::Duration(_), ValueType::Duration) => true,
            (Value::Field(_), ValueType::Field) => true,
            (Value::Glob(_), ValueType::Glob) => true,
            (Value::Regex(_), ValueType::Regex) => true,
            (Value::Command(_), ValueType::Command) => true,
            (Value::ConditionCommand(_), ValueType::Command) => true,
            (Value::Closure(_), ValueType::Closure) => true,
            (Value::File(_), ValueType::File) => true,
            (Value::TableStream(s), ValueType::TableStream(c)) => schema_equals(&s.types, c),
            (Value::Table(s), ValueType::Table(c)) => schema_equals(&s.types, c),
            (Value::Struct(s), ValueType::Struct(c)) => schema_equals(&s.types, c),
            (Value::List(l), ValueType::List(e)) => l.element_type.equals(&**e),
            (Value::Dict(d), ValueType::Dict(k, v)) => d.key_type.equals(&**k) && d.value_type.equals(&**v),
            (Value::Scope(_), ValueType::Scope) => true,
            (Value::Bool(_), ValueType::Bool) => true,
            (Value::Empty(), ValueType::Empty) => true,
            (Value::BinaryStream(_), ValueType::BinaryStream) => true,
            (Value::Binary(_), ValueType::Binary) => true,
            (Value::Type(_), ValueType::Type) => true,
            _ => false,
        }
    }
}

}
