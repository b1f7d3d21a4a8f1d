use std::cmp::Ordering;
use vstd::prelude::*;

verus! {

/// A column of a table schema: its name and the type of its cells.
#[derive(Debug)]
pub struct ColumnType {
    pub name: String,
    pub cell_type: ValueType,
}

/// The type of a value, parameterised where the value is a container.
#[derive(Debug)]
pub enum ValueType {
    Text,
    Integer,
    Time,
    Duration,
    Field,
    Glob,
    Regex,
    Command,
    Closure,
    File,
    TableStream(Vec<ColumnType>),
    Table(Vec<ColumnType>),
    Struct(Vec<ColumnType>),
    List(Box<ValueType>),
    Dict(Box<ValueType>, Box<ValueType>),
    Scope,
    Bool,
    Float,
    Empty,
    Any,
    BinaryStream,
    Binary,
    Type,
}

/// The position of a type's variant in the canonical order of types.
pub open spec fn rank(t: ValueType) -> nat {
    match t {
        ValueType::Text => 0,
        ValueType::Integer => 1,
        ValueType::Time => 2,
        ValueType::Duration => 3,
        ValueType::Field => 4,
        ValueType::Glob => 5,
        ValueType::Regex => 6,
        ValueType::Command => 7,
        ValueType::Closure => 8,
        ValueType::File => 9,
        ValueType::TableStream(_) => 10,
        ValueType::Table(_) => 11,
        ValueType::Struct(_) => 12,
        ValueType::List(_) => 13,
        ValueType::Dict(_, _) => 14,
        ValueType::Scope => 15,
        ValueType::Bool => 16,
        ValueType::Float => 17,
        ValueType::Empty => 18,
        ValueType::Any => 19,
        ValueType::BinaryStream => 20,
        ValueType::Binary => 21,
        ValueType::Type => 22,
    }
}

/// Whether a type carries parameters (a schema or element types).
pub open spec fn is_parametric(t: ValueType) -> bool {
    10 <= rank(t) <= 14
}

/// Whether values of this type may be used as hash keys.
pub open spec fn hashable(t: ValueType) -> bool {
    match t {
        ValueType::Text | ValueType::Integer | ValueType::Time | ValueType::Duration
        | ValueType::Field | ValueType::Glob | ValueType::Regex | ValueType::Command
        | ValueType::File | ValueType::Bool | ValueType::Binary => true,
        _ => false,
    }
}

/// The canonical name of a type.
pub open spec fn canonical_name(t: ValueType) -> Seq<char> {
    match t {
        ValueType::Text => "text"@,
        ValueType::Integer => "integer"@,
        ValueType::Time => "time"@,
        ValueType::Duration => "duration"@,
        ValueType::Field => "field"@,
        ValueType::Glob => "glob"@,
        ValueType::Regex => "regex"@,
        ValueType::Command => "command"@,
        ValueType::Closure => "closure"@,
        ValueType::File => "file"@,
        ValueType::TableStream(_) => "table_stream"@,
        ValueType::Table(_) => "table"@,
        ValueType::Struct(_) => "struct"@,
        ValueType::List(_) => "list"@,
        ValueType::Dict(_, _) => "dict"@,
        ValueType::Scope => "scope"@,
        ValueType::Bool => "bool"@,
        ValueType::Float => "float"@,
        ValueType::Empty => "empty"@,
        ValueType::Any => "any"@,
        ValueType::BinaryStream => "binary_stream"@,
        ValueType::Binary => "binary"@,
        ValueType::Type => "type"@,
    }
}

/// Deep equality of two types: same variant, same parameters, and for
/// schemas the same column names and column types in the same order.
pub open spec fn type_eq(a: ValueType, b: ValueType) -> bool
    decreases a,
{
    match (a, b) {
        (ValueType::List(x), ValueType::List(y)) => type_eq(*x, *y),
        (ValueType::Dict(k1, v1), ValueType::Dict(k2, v2)) => type_eq(*k1, *k2) && type_eq(*v1, *v2),
        (ValueType::TableStream(c1), ValueType::TableStream(c2)) => c1@.len() == c2@.len()
            && forall|i: int| 0 <= i < c1@.len()
                ==> c1@[i].name@ == c2@[i].name@ && type_eq(c1@[i].cell_type, c2@[i].cell_type),
        (ValueType::Table(c1), ValueType::Table(c2)) => c1@.len() == c2@.len()
            && forall|i: int| 0 <= i < c1@.len()
                ==> c1@[i].name@ == c2@[i].name@ && type_eq(c1@[i].cell_type, c2@[i].cell_type),
        (ValueType::Struct(c1), ValueType::Struct(c2)) => c1@.len() == c2@.len()
            && forall|i: int| 0 <= i < c1@.len()
                ==> c1@[i].name@ == c2@[i].name@ && type_eq(c1@[i].cell_type, c2@[i].cell_type),
        _ => rank(a) == rank(b) && !is_parametric(a),
    }
}

/// Lexicographic order of two character sequences, by code point.
pub open spec fn text_cmp(a: Seq<char>, b: Seq<char>) -> Ordering
    decreases a.len(),
{
    if a.len() == 0 {
        if b.len() == 0 { Ordering::Equal } else { Ordering::Less }
    } else if b.len() == 0 {
        Ordering::Greater
    } else if (a[0] as u32) < (b[0] as u32) {
        Ordering::Less
    } else if (a[0] as u32) > (b[0] as u32) {
        Ordering::Greater
    } else {
        text_cmp(a.drop_first(), b.drop_first())
    }
}

/// Order of two integers.
pub open spec fn int_cmp(a: int, b: int) -> Ordering {
    if a < b { Ordering::Less } else if a > b { Ordering::Greater } else { Ordering::Equal }
}

/// The canonical order of types: by rank first, then by parameters.
pub open spec fn type_cmp(a: ValueType, b: ValueType) -> Ordering
    decreases a, 0nat,
{
    if rank(a) != rank(b) {
        int_cmp(rank(a) as int, rank(b) as int)
    } else {
        match (a, b) {
            (ValueType::List(x), ValueType::List(y)) => type_cmp(*x, *y),
            (ValueType::Dict(k1, v1), ValueType::Dict(k2, v2)) => {
                let c = type_cmp(*k1, *k2);
                if c == Ordering::Equal { type_cmp(*v1, *v2) } else { c }
            },
            (ValueType::TableStream(c1), ValueType::TableStream(c2)) => columns_cmp(c1@, c2@, 0),
            (ValueType::Table(c1), ValueType::Table(c2)) => columns_cmp(c1@, c2@, 0),
            (ValueType::Struct(c1), ValueType::Struct(c2)) => columns_cmp(c1@, c2@, 0),
            _ => Ordering::Equal,
        }
    }
}

/// Lexicographic order of two schemas from column `i` on: column by column
/// (name, then type), the shorter schema first when one is a prefix.
pub open spec fn columns_cmp(c1: Seq<ColumnType>, c2: Seq<ColumnType>, i: int) -> Ordering
    decreases c1, c1.len() - i,
{
    if i < 0 || i >= c1.len() {
        if i >= 0 && i < c2.len() { Ordering::Less } else { Ordering::Equal }
    } else if i >= c2.len() {
        Ordering::Greater
    } else {
        let n = text_cmp(c1[i].name@, c2[i].name@);
        if n != Ordering::Equal {
            n
        } else {
            let t = type_cmp(c1[i].cell_type, c2[i].cell_type);
            if t != Ordering::Equal { t } else { columns_cmp(c1, c2, i + 1) }
        }
    }
}

impl ValueType {
    /// The position of this type's variant in the canonical order.
    pub fn rank_of(&self) -> (r: u8)
        ensures
            r as nat == rank(*self),
    {
        match self {
            ValueType::Text => 0,
            ValueType::Integer => 1,
            ValueType::Time => 2,
            ValueType::Duration => 3,
            ValueType::Field => 4,
            ValueType::Glob => 5,
            ValueType::Regex => 6,
            ValueType::Command => 7,
            ValueType::Closure => 8,
            ValueType::File => 9,
            ValueType::TableStream(_) => 10,
            ValueType::Table(_) => 11,
            ValueType::Struct(_) => 12,
            ValueType::List(_) => 13,
            ValueType::Dict(_, _) => 14,
            ValueType::Scope => 15,
            ValueType::Bool => 16,
            ValueType::Float => 17,
            ValueType::Empty => 18,
            ValueType::Any => 19,
            ValueType::BinaryStream => 20,
            ValueType::Binary => 21,
            ValueType::Type => 22,
        }
    }

    /// Whether values of this type may be used as hash keys.
    pub fn is_hashable(&self) -> (r: bool)
        ensures
            r == hashable(*self),
    {
        match self {
            ValueType::Text | ValueType::Integer | ValueType::Time | ValueType::Duration
            | ValueType::Field | ValueType::Glob | ValueType::Regex | ValueType::Command
            | ValueType::File | ValueType::Bool | ValueType::Binary => true,
            _ => false,
        }
    }

    /// The canonical name of this type.
    pub fn name(&self) -> (r: String)
        ensures
            r@ == canonical_name(*self),
    {
        let n: &str = match self {
            ValueType::Text => "text",
            ValueType::Integer => "integer",
            ValueType::Time => "time",
            ValueType::Duration => "duration",
            ValueType::Field => "field",
            ValueType::Glob => "glob",
            ValueType::Regex => "regex",
            ValueType::Command => "command",
            ValueType::Closure => "closure",
            ValueType::File => "file",
            ValueType::TableStream(_) => "table_stream",
            ValueType::Table(_) => "table",
            ValueType::Struct(_) => "struct",
            ValueType::List(_) => "list",
            ValueType::Dict(_, _) => "dict",
            ValueType::Scope => "scope",
            ValueType::Bool => "bool",
            ValueType::Float => "float",
            ValueType::Empty => "empty",
            ValueType::Any => "any",
            ValueType::BinaryStream => "binary_stream",
            ValueType::Binary => "binary",
            ValueType::Type => "type",
        };
        proof {
            reveal_strlit("text");
            reveal_strlit("integer");
            reveal_strlit("time");
            reveal_strlit("duration");
            reveal_strlit("field");
            reveal_strlit("glob");
            reveal_strlit("regex");
            reveal_strlit("command");
            reveal_strlit("closure");
            reveal_strlit("file");
            reveal_strlit("table_stream");
            reveal_strlit("table");
            reveal_strlit("struct");
            reveal_strlit("list");
            reveal_strlit("dict");
            reveal_strlit("scope");
            reveal_strlit("bool");
            reveal_strlit("float");
            reveal_strlit("empty");
            reveal_strlit("any");
            reveal_strlit("binary_stream");
            reveal_strlit("binary");
            reveal_strlit("type");
        }
        n.to_string()
    }

    /// A copy of this type, parameters included.
    pub fn deep_copy(&self) -> (r: ValueType)
        ensures
            type_eq(r, *self),
        decreases self,
    {
        match self {
            ValueType::List(x) => ValueType::List(Box::new((**x).deep_copy())),
            ValueType::Dict(k, v) => ValueType::Dict(Box::new((**k).deep_copy()), Box::new((**v).deep_copy())),
            ValueType::TableStream(c) => ValueType::TableStream(copy_columns(self, c)),
            ValueType::Table(c) => ValueType::Table(copy_columns(self, c)),
            ValueType::Struct(c) => ValueType::Struct(copy_columns(self, c)),
            ValueType::Text => ValueType::Text,
            ValueType::Integer => ValueType::Integer,
            ValueType::Time => ValueType::Time,
            ValueType::Duration => ValueType::Duration,
            ValueType::Field => ValueType::Field,
            ValueType::Glob => ValueType::Glob,
            ValueType::Regex => ValueType::Regex,
            ValueType::Command => ValueType::Command,
            ValueType::Closure => ValueType::Closure,
            ValueType::File => ValueType::File,
            ValueType::Scope => ValueType::Scope,
            ValueType::Bool => ValueType::Bool,
            ValueType::Float => ValueType::Float,
            ValueType::Empty => ValueType::Empty,
            ValueType::Any => ValueType::Any,
            ValueType::BinaryStream => ValueType::BinaryStream,
            ValueType::Binary => ValueType::Binary,
            ValueType::Type => ValueType::Type,
        }
    }

    /// Deep equality of two types.
    pub fn equals(&self, other: &ValueType) -> (r: bool)
        ensures
            r == type_eq(*self, *other),
        decreases self,
    {
        match (self, other) {
            (ValueType::List(x), ValueType::List(y)) => (**x).equals(&**y),
            (ValueType::Dict(k1, v1), ValueType::Dict(k2, v2)) =>
                (**k1).equals(&**k2) && (**v1).equals(&**v2),
            (ValueType::TableStream(c1), ValueType::TableStream(c2)) => columns_equal(self, c1, c2),
            (ValueType::Table(c1), ValueType::Table(c2)) => columns_equal(self, c1, c2),
            (ValueType::Struct(c1), ValueType::Struct(c2)) => columns_equal(self, c1, c2),
            _ => {
                let ra = self.rank_of();
                ra == other.rank_of() && !(10 <= ra && ra <= 14)
            },
        }
    }

    /// The canonical order of types: by rank first, then by parameters.
    pub fn compare(&self, other: &ValueType) -> (r: Ordering)
        ensures
            r == type_cmp(*self, *other),
        decreases self, 0nat,
    {
        let ra = self.rank_of();
        let rb = other.rank_of();
        if ra < rb {
            return Ordering::Less;
        } else if ra > rb {
            return Ordering::Greater;
        }
        match (self, other) {
            (ValueType::List(x), ValueType::List(y)) => (**x).compare(&**y),
            (ValueType::Dict(k1, v1), ValueType::Dict(k2, v2)) => {
                let c = (**k1).compare(&**k2);
                match c {
                    Ordering::Equal => (**v1).compare(&**v2),
                    _ => c,
                }
            },
            (ValueType::TableStream(c1), ValueType::TableStream(c2)) => compare_columns(c1, c2, 0),
            (ValueType::Table(c1), ValueType::Table(c2)) => compare_columns(c1, c2, 0),
            (ValueType::Struct(c1), ValueType::Struct(c2)) => compare_columns(c1, c2, 0),
            _ => Ordering::Equal,
        }
    }
}

/// Deep equality of the schemas `c1` and `c2` of the type `owner`.
fn columns_equal(owner: &ValueType, c1: &Vec<ColumnType>, c2: &Vec<ColumnType>) -> (r: bool)
    requires
        *owner == ValueType::TableStream(*c1) || *owner == ValueType::Table(*c1)
            || *owner == ValueType::Struct(*c1),
    ensures
        r == (c1@.len() == c2@.len() && forall|i: int| 0 <= i < c1@.len()
            ==> c1@[i].name@ == c2@[i].name@ && type_eq(c1@[i].cell_type, c2@[i].cell_type)),
    decreases owner, 0nat,
{
    if c1.len() != c2.len() {
        return false;
    }
    let mut i: usize = 0;
    while i < c1.len()
        invariant
            c1@.len() == c2@.len(),
            *owner == ValueType::TableStream(*c1) || *owner == ValueType::Table(*c1)
                || *owner == ValueType::Struct(*c1),
            i <= c1@.len(),
            forall|j: int| 0 <= j < i
                ==> c1@[j].name@ == c2@[j].name@ && type_eq(c1@[j].cell_type, c2@[j].cell_type),
        decreases c1@.len() - i,
    {
        if !crate::text::same_text(c1[i].name.as_str(), c2[i].name.as_str()) {
            return false;
        }
        assert(decreases_to!(*owner => c1@[i as int].cell_type)) by {
            match *owner {
                ValueType::TableStream(c) => assert(decreases_to!(*owner => c)),
                ValueType::Table(c) => assert(decreases_to!(*owner => c)),
                ValueType::Struct(c) => assert(decreases_to!(*owner => c)),
                _ => {},
            }
            assert(decreases_to!(c1 => c1@));
            assert(decreases_to!(c1@ => c1@[i as int]));
        };
        if !c1[i].cell_type.equals(&c2[i].cell_type) {
            return false;
        }
        i = i + 1;
    }
    true
}

/// A copy of the schema `c` of the type `owner`.
fn copy_columns(owner: &ValueType, c: &Vec<ColumnType>) -> (r: Vec<ColumnType>)
    requires
        *owner == ValueType::TableStream(*c) || *owner == ValueType::Table(*c)
            || *owner == ValueType::Struct(*c),
    ensures
        r@.len() == c@.len(),
        forall|i: int| 0 <= i < c@.len()
            ==> r@[i].name@ == c@[i].name@ && type_eq(r@[i].cell_type, c@[i].cell_type),
    decreases owner, 0nat,
{
    let mut r: Vec<ColumnType> = Vec::new();
    let mut i: usize = 0;
    while i < c.len()
        invariant
            *owner == ValueType::TableStream(*c) || *owner == ValueType::Table(*c)
                || *owner == ValueType::Struct(*c),
            i <= c@.len(),
            r@.len() == i,
            forall|j: int| 0 <= j < i
                ==> r@[j].name@ == c@[j].name@ && type_eq(r@[j].cell_type, c@[j].cell_type),
        decreases c@.len() - i,
    {
        assert(decreases_to!(*owner => c@[i as int].cell_type)) by {
            match *owner {
                ValueType::TableStream(v) => assert(decreases_to!(*owner => v)),
                ValueType::Table(v) => assert(decreases_to!(*owner => v)),
                ValueType::Struct(v) => assert(decreases_to!(*owner => v)),
                _ => {},
            }
            assert(decreases_to!(c => c@));
            assert(decreases_to!(c@ => c@[i as int]));
        };
        let t = c[i].cell_type.deep_copy();
        r.push(ColumnType { name: c[i].name.clone(), cell_type: t });
        i = i + 1;
    }
    r
}

/// A copy of a schema.
pub fn schema_copy(c: &Vec<ColumnType>) -> (r: Vec<ColumnType>)
    ensures
        r@.len() == c@.len(),
        forall|i: int| 0 <= i < c@.len()
            ==> r@[i].name@ == c@[i].name@ && type_eq(r@[i].cell_type, c@[i].cell_type),
{
    let mut r: Vec<ColumnType> = Vec::new();
    let mut i: usize = 0;
    while i < c.len()
        invariant
            i <= c@.len(),
            r@.len() == i,
            forall|j: int| 0 <= j < i
                ==> r@[j].name@ == c@[j].name@ && type_eq(r@[j].cell_type, c@[j].cell_type),
        decreases c@.len() - i,
    {
        let t = c[i].cell_type.deep_copy();
        r.push(ColumnType { name: c[i].name.clone(), cell_type: t });
        i = i + 1;
    }
    r
}

/// Deep equality of two schemas.
pub fn schema_equals(c1: &Vec<ColumnType>, c2: &Vec<ColumnType>) -> (r: bool)
    ensures
        r == (c1@.len() == c2@.len() && forall|i: int| 0 <= i < c1@.len()
            ==> c1@[i].name@ == c2@[i].name@ && type_eq(c1@[i].cell_type, c2@[i].cell_type)),
{
    if c1.len() != c2.len() {
        return false;
    }
    let mut i: usize = 0;
    while i < c1.len()
        invariant
            c1@.len() == c2@.len(),
            i <= c1@.len(),
            forall|j: int| 0 <= j < i
                ==> c1@[j].name@ == c2@[j].name@ && type_eq(c1@[j].cell_type, c2@[j].cell_type),
        decreases c1@.len() - i,
    {
        if !crate::text::same_text(c1[i].name.as_str(), c2[i].name.as_str()) {
            return false;
        }
        if !c1[i].cell_type.equals(&c2[i].cell_type) {
            return false;
        }
        i = i + 1;
    }
    true
}

/// Lexicographic order of the schemas `c1` and `c2` from column `i` on.
pub fn compare_columns(c1: &Vec<ColumnType>, c2: &Vec<ColumnType>, i: usize) -> (r: Ordering)
    requires
        i <= c1@.len(),
    ensures
        r == columns_cmp(c1@, c2@, i as int),
    decreases c1@, c1@.len() - i,
{
    if i >= c1.len() {
        if i < c2.len() { Ordering::Less } else { Ordering::Equal }
    } else if i >= c2.len() {
        Ordering::Greater
    } else {
        let n = crate::text::compare_text(c1[i].name.as_str(), c2[i].name.as_str());
        match n {
            Ordering::Equal => {
                let t = c1[i].cell_type.compare(&c2[i].cell_type);
                match t {
                    Ordering::Equal => compare_columns(c1, c2, i + 1),
                    _ => t,
                }
            },
            _ => n,
        }
    }
}

proof fn lemma_text_cmp_equal(a: Seq<char>, b: Seq<char>)
    requires
        text_cmp(a, b) == Ordering::Equal,
    ensures
        a == b,
    decreases a.len(),
{
    if a.len() == 0 {
        assert(a =~= b);
    } else {
        vstd::utf8::char_u32_cast(a[0], a[0] as u32);
        vstd::utf8::char_u32_cast(b[0], b[0] as u32);
        lemma_text_cmp_equal(a.drop_first(), b.drop_first());
        assert(a =~= b) by {
            assert forall|i: int| 0 <= i < a.len() implies a[i] == b[i] by {
                if i > 0 {
                    assert(a[i] == a.drop_first()[i - 1]);
                    assert(b[i] == b.drop_first()[i - 1]);
                }
            };
        };
    }
}

/// Two types that the canonical order does not tell apart are the same
/// type: values of different types never compare as equal.
pub proof fn lemma_type_cmp_equal(a: ValueType, b: ValueType)
    requires
        type_cmp(a, b) == Ordering::Equal,
    ensures
        type_eq(a, b),
    decreases a, 0nat,
{
    match (a, b) {
        (ValueType::List(x), ValueType::List(y)) => lemma_type_cmp_equal(*x, *y),
        (ValueType::Dict(k1, v1), ValueType::Dict(k2, v2)) => {
            lemma_type_cmp_equal(*k1, *k2);
            lemma_type_cmp_equal(*v1, *v2);
        },
        (ValueType::TableStream(c1), ValueType::TableStream(c2)) => lemma_columns_cmp_equal(c1@, c2@, 0),
        (ValueType::Table(c1), ValueType::Table(c2)) => lemma_columns_cmp_equal(c1@, c2@, 0),
        (ValueType::Struct(c1), ValueType::Struct(c2)) => lemma_columns_cmp_equal(c1@, c2@, 0),
        _ => {},
    }
}

proof fn lemma_columns_cmp_equal(c1: Seq<ColumnType>, c2: Seq<ColumnType>, i: int)
    requires
        columns_cmp(c1, c2, i) == Ordering::Equal,
        0 <= i <= c1.len(),
        i <= c2.len(),
    ensures
        c1.len() == c2.len(),
        forall|j: int| i <= j < c1.len()
            ==> c1[j].name@ == c2[j].name@ && type_eq(c1[j].cell_type, c2[j].cell_type),
    decreases c1, c1.len() - i,
{
    if i < c1.len() {
        lemma_text_cmp_equal(c1[i].name@, c2[i].name@);
        lemma_type_cmp_equal(c1[i].cell_type, c2[i].cell_type);
        lemma_columns_cmp_equal(c1, c2, i + 1);
    }
}

}
