use vstd::prelude::*;
use crate::duration::{duration_format, duration_text};
use crate::format::{chars_to_string, hex_char, hex_digit, int_text, push_int, push_str};
use crate::value::{Time, Value};
use crate::value_type::{ColumnType, canonical_name};

verus! {

/// What an instant reads as, `%Y-%m-%d %H:%M:%S %z` in its own zone, or
/// nothing for an instant or offset out of range.
pub uninterp spec fn time_text(seconds: int, nanos: int, offset_seconds: int) -> Option<Seq<char>>;

/// Relies on chrono's `FixedOffset::east_opt`, `TimeZone::timestamp_opt` and
/// `DateTime::format`: the text depends on the instant and the offset alone.
#[verifier::external_body]
fn format_time(t: &Time) -> (r: Option<String>)
    ensures
        r matches Some(s) ==> time_text(t.seconds as int, t.nanos as int, t.offset_seconds as int) == Some(s@),
        r is None ==> time_text(t.seconds as int, t.nanos as int, t.offset_seconds as int) is None,
{
    let tz = chrono::FixedOffset::east_opt(t.offset_seconds)?;
    let d = chrono::TimeZone::timestamp_opt(&tz, t.seconds, t.nanos).single()?;
    Some(d.format("%Y-%m-%d %H:%M:%S %z").to_string())
}

/// Two lowercase hexadecimal digits for each byte, in order.
pub open spec fn hex_text(b: Seq<u8>) -> Seq<char>
    decreases b.len(),
{
    if b.len() == 0 {
        Seq::empty()
    } else {
        hex_text(b.drop_last()) + seq![hex_digit((b.last() / 16) as nat), hex_digit((b.last() % 16) as nat)]
    }
}

/// The segments of a field, joined by dots.
pub open spec fn dotted(s: Seq<String>) -> Seq<char>
    decreases s.len(),
{
    if s.len() == 0 {
        Seq::empty()
    } else if s.len() == 1 {
        s[0]@
    } else {
        dotted(s.drop_last()) + seq!['.'] + s.last()@
    }
}

/// The texts of `items` from position `i` on, separated by commas.
pub open spec fn joined(items: Seq<Value>, i: int) -> Seq<char>
    decreases items, items.len() - i,
{
    if i < 0 || i >= items.len() {
        Seq::empty()
    } else {
        (if i > 0 { ", "@ } else { Seq::empty() }) + display_text(items[i]) + joined(items, i + 1)
    }
}

/// The entries of a dictionary from position `i` on, as `key: value`,
/// separated by commas.
pub open spec fn joined_entries(entries: Seq<(Value, Value)>, i: int) -> Seq<char>
    decreases entries, entries.len() - i,
{
    if i < 0 || i >= entries.len() {
        Seq::empty()
    } else {
        (if i > 0 { ", "@ } else { Seq::empty() }) + display_text(entries[i].0) + ": "@
            + display_text(entries[i].1) + joined_entries(entries, i + 1)
    }
}

/// The fields of a struct from position `i` on, as `name=value`, separated
/// by commas; a field without a column name shows its value alone.
pub open spec fn joined_fields(names: Seq<ColumnType>, cells: Seq<Value>, i: int) -> Seq<char>
    decreases cells, cells.len() - i,
{
    if i < 0 || i >= cells.len() {
        Seq::empty()
    } else {
        (if i > 0 { ", "@ } else { Seq::empty() })
            + (if i < names.len() { names[i].name@ + "="@ } else { Seq::empty() })
            + display_text(cells[i]) + joined_fields(names, cells, i + 1)
    }
}

/// The canonical text of a value.
pub open spec fn display_text(v: Value) -> Seq<char>
    decreases v, 0nat,
{
    match v {
        Value::Text(s) => s@,
        Value::Integer(i) => int_text(i as int),
        Value::Time(t) => match time_text(t.seconds as int, t.nanos as int, t.offset_seconds as int) {
            Some(s) => s,
            None => "<invalid time>"@,
        },
        Value::Duration(d) => duration_text(d.micros as int),
        Value::Field(f) => seq!['%'] + dotted(f@),
        Value::Glob(g) => "*{"@ + g.pattern@ + "}"@,
        Value::Regex(r) => "regex{"@ + r@ + "}"@,
        Value::Command(_) | Value::ConditionCommand(_) => "Command"@,
        Value::Closure(c) => c.source@,
        Value::File(p) => p@,
        Value::Table(_) => "<Rows>"@,
        Value::Struct(x) => "{"@ + joined_fields(x.types@, x.cells@, 0) + "}"@,
        Value::TableStream(_) => "<Output>"@,
        Value::List(l) => "["@ + joined(l.items@, 0) + "]"@,
        Value::Dict(d) => "{"@ + joined_entries(d.entries@, 0) + "}"@,
        Value::Scope(s) => s.name@,
        Value::Bool(b) => if b { "true"@ } else { "false"@ },
        Value::Empty() => "<empty>"@,
        Value::BinaryStream(_) => "<binary stream>"@,
        Value::Binary(b) => hex_text(b@),
        Value::Type(t) => canonical_name(t),
    }
}

/// The two lowercase hexadecimal digits of a byte.
pub fn hex(v: u8) -> (r: String)
    ensures
        r@ == seq![hex_digit((v / 16) as nat), hex_digit((v % 16) as nat)],
{
    let mut out: Vec<char> = Vec::new();
    out.push(hex_char(v / 16));
    out.push(hex_char(v % 16));
    assert(out@ =~= seq![hex_digit((v / 16) as nat), hex_digit((v % 16) as nat)]);
    chars_to_string(&out)
}

fn push_hex(b: &Vec<u8>, out: &mut Vec<char>)
    ensures
        final(out)@ == old(out)@ + hex_text(b@),
{
    let mut i: usize = 0;
    while i < b.len()
        invariant
            i <= b@.len(),
            out@ == old(out)@ + hex_text(b@.subrange(0, i as int)),
        decreases b@.len() - i,
    {
        assert(b@.subrange(0, i + 1).drop_last() =~= b@.subrange(0, i as int));
        let h = hex(b[i]);
        push_str(h.as_str(), out);
        assert(out@ =~= old(out)@ + hex_text(b@.subrange(0, i + 1)));
        i = i + 1;
    }
    assert(b@.subrange(0, i as int) =~= b@);
}

fn push_dotted(f: &Vec<String>, out: &mut Vec<char>)
    ensures
        final(out)@ == old(out)@ + dotted(f@),
{
    let mut i: usize = 0;
    while i < f.len()
        invariant
            i <= f@.len(),
            out@ == old(out)@ + dotted(f@.subrange(0, i as int)),
        decreases f@.len() - i,
    {
        assert(f@.subrange(0, i + 1).drop_last() =~= f@.subrange(0, i as int));
        if i > 0 {
            out.push('.');
        }
        push_str(f[i].as_str(), out);
        assert(out@ =~= old(out)@ + dotted(f@.subrange(0, i + 1)));
        i = i + 1;
    }
    assert(f@.subrange(0, i as int) =~= f@);
}

fn push_joined(items: &Vec<Value>, out: &mut Vec<char>)
    ensures
        final(out)@ == old(out)@ + joined(items@, 0),
    decreases items@, 0nat,
{
    let mut i: usize = 0;
    while i < items.len()
        invariant
            i <= items@.len(),
            old(out)@ + joined(items@, 0) == out@ + joined(items@, i as int),
        decreases items@.len() - i,
    {
        proof { reveal_strlit(", "); }
        let ghost before = out@;
        if i > 0 {
            push_str(", ", out);
        }
        let t = items[i].to_string();
        push_str(t.as_str(), out);
        assert(before + joined(items@, i as int) =~= out@ + joined(items@, i + 1));
        i = i + 1;
    }
}

fn push_joined_entries(entries: &Vec<(Value, Value)>, out: &mut Vec<char>)
    ensures
        final(out)@ == old(out)@ + joined_entries(entries@, 0),
    decreases entries@, 0nat,
{
    let mut i: usize = 0;
    while i < entries.len()
        invariant
            i <= entries@.len(),
            old(out)@ + joined_entries(entries@, 0) == out@ + joined_entries(entries@, i as int),
        decreases entries@.len() - i,
    {
        proof { reveal_strlit(", "); reveal_strlit(": "); }
        let ghost before = out@;
        if i > 0 {
            push_str(", ", out);
        }
        assert(decreases_to!(entries@ => entries@[i as int].0)) by {
            assert(decreases_to!(entries@ => entries@[i as int]));
        };
        assert(decreases_to!(entries@ => entries@[i as int].1)) by {
            assert(decreases_to!(entries@ => entries@[i as int]));
        };
        let k = entries[i].0.to_string();
        push_str(k.as_str(), out);
        push_str(": ", out);
        let v = entries[i].1.to_string();
        push_str(v.as_str(), out);
        assert(before + joined_entries(entries@, i as int) =~= out@ + joined_entries(entries@, i + 1));
        i = i + 1;
    }
}

fn push_joined_fields(names: &Vec<ColumnType>, cells: &Vec<Value>, out: &mut Vec<char>)
    ensures
        final(out)@ == old(out)@ + joined_fields(names@, cells@, 0),
    decreases cells@, 0nat,
{
    let mut i: usize = 0;
    while i < cells.len()
        invariant
            i <= cells@.len(),
            old(out)@ + joined_fields(names@, cells@, 0) == out@ + joined_fields(names@, cells@, i as int),
        decreases cells@.len() - i,
    {
        proof { reveal_strlit(", "); reveal_strlit("="); }
        let ghost before = out@;
        if i > 0 {
            push_str(", ", out);
        }
        if i < names.len() {
            push_str(names[i].name.as_str(), out);
            push_str("=", out);
        }
        let t = cells[i].to_string();
        push_str(t.as_str(), out);
        assert(before + joined_fields(names@, cells@, i as int) =~= out@ + joined_fields(names@, cells@, i + 1));
        i = i + 1;
    }
}

fn literal(s: &str) -> (r: String)
    ensures
        r@ == s@,
{
    s.to_string()
}

impl Value {
    /// The canonical text of this value.
    pub fn to_string(&self) -> (r: String)
        ensures
            r@ == display_text(*self),
        decreases *self, 1nat,
    {
        proof {
            reveal_strlit("<invalid time>");
            reveal_strlit("*{");
            reveal_strlit("}");
            reveal_strlit("regex{");
            reveal_strlit("{");
            reveal_strlit("[");
            reveal_strlit("]");
        }
        match self {
            Value::Text(s) => s.clone(),
            Value::Integer(i) => {
                let mut out: Vec<char> = Vec::new();
                push_int(*i, &mut out);
                assert(out@ =~= int_text(*i as int));
                chars_to_string(&out)
            },
            Value::Time(t) => match format_time(t) {
                Some(s) => s,
                None => literal("<invalid time>"),
            },
            Value::Duration(d) => duration_format(d),
            Value::Field(f) => {
                let mut out: Vec<char> = Vec::new();
                out.push('%');
                push_dotted(f, &mut out);
                chars_to_string(&out)
            },
            Value::Glob(g) => {
                let mut out: Vec<char> = Vec::new();
                push_str("*{", &mut out);
                push_str(g.pattern.as_str(), &mut out);
                push_str("}", &mut out);
                chars_to_string(&out)
            },
            Value::Regex(x) => {
                let mut out: Vec<char> = Vec::new();
                push_str("regex{", &mut out);
                push_str(x.as_str(), &mut out);
                push_str("}", &mut out);
                chars_to_string(&out)
            },
            Value::Command(_) | Value::ConditionCommand(_) => literal("Command"),
            Value::Closure(c) => c.source.clone(),
            Value::File(p) => p.clone(),
            Value::Table(_) => literal("<Rows>"),
            Value::Struct(x) => {
                let mut out: Vec<char> = Vec::new();
                push_str("{", &mut out);
                push_joined_fields(&x.types, &x.cells, &mut out);
                push_str("}", &mut out);
                chars_to_string(&out)
            },
            Value::TableStream(_) => literal("<Output>"),
            Value::List(l) => {
                let mut out: Vec<char> = Vec::new();
                push_str("[", &mut out);
                push_joined(&l.items, &mut out);
                push_str("]", &mut out);
                chars_to_string(&out)
            },
            Value::Dict(d) => {
                let mut out: Vec<char> = Vec::new();
                push_str("{", &mut out);
                push_joined_entries(&d.entries, &mut out);
                push_str("}", &mut out);
                chars_to_string(&out)
            },
            Value::Scope(s) => s.name.clone(),
            Value::Bool(b) => if *b { literal("true") } else { literal("false") },
            Value::Empty() => literal("<empty>"),
            Value::BinaryStream(_) => literal("<binary stream>"),
            Value::Binary(b) => {
                let mut out: Vec<char> = Vec::new();
                push_hex(b, &mut out);
                assert(out@ =~= hex_text(b@));
                chars_to_string(&out)
            },
            Value::Type(t) => t.name(),
        }
    }
}

}
