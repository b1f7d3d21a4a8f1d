use std::cmp::Ordering;
use std::collections::hash_map::DefaultHasher;
use std::hash::{Hash, Hasher};

use crush_value::cast::ErrorKind;
use crush_value::commands::{full, getitem, len, perform};
use crush_value::display::hex;
use crush_value::duration::{duration_format, Duration};
use crush_value::glob::Glob;
use crush_value::hash::HashKey;
use crush_value::value::{BinaryStream, Dict, List, Row, Struct, Table, TableStream, Time, Value};
use crush_value::value_type::{ColumnType, ValueType};

fn column(name: &str, t: ValueType) -> ColumnType {
    ColumnType { name: name.to_string(), cell_type: t }
}

fn file_stream(paths: &[&str]) -> Value {
    Value::TableStream(TableStream {
        types: vec![column("path", ValueType::File)],
        pending: paths.iter().map(|p| Row { cells: vec![Value::File(p.to_string())] }).collect(),
    })
}

fn text_of(v: Value) -> String {
    match v {
        Value::Text(s) => s,
        other => panic!("expected text, got {:?}", other),
    }
}

fn hash_of(k: &HashKey) -> u64 {
    let mut h = DefaultHasher::new();
    k.hash(&mut h);
    h.finish()
}

#[test]
fn text_casts() {
    assert_eq!(Value::Text(String::from("112432")).cast(ValueType::Integer).is_err(), false);
    assert_eq!(Value::text("1d").cast(ValueType::Integer).is_err(), true);
    assert_eq!(Value::text("1d").cast(ValueType::Glob).is_err(), false);
    assert_eq!(Value::text("1d").cast(ValueType::File).is_err(), false);
    assert_eq!(Value::text("1d").cast(ValueType::Time).is_err(), true);
    assert_eq!(Value::text("fad").cast(ValueType::Field).is_err(), false);
}

#[test]
fn test_duration_format() {
    assert_eq!(duration_format(&Duration::microseconds(0)), "0".to_string());
    assert_eq!(duration_format(&Duration::microseconds(1)), "0.000001".to_string());
    assert_eq!(duration_format(&Duration::microseconds(100)), "0.0001".to_string());
    assert_eq!(duration_format(&Duration::milliseconds(1)), "0.001".to_string());
    assert_eq!(duration_format(&Duration::milliseconds(1000)), "1".to_string());
    assert_eq!(duration_format(&Duration::milliseconds(1000 * 61)), "1:01".to_string());
    assert_eq!(duration_format(&Duration::milliseconds(1000 * 3601)), "1:00:01".to_string());
    assert_eq!(duration_format(&Duration::milliseconds(1000 * (3600 * 24 * 3 + 1))), "3d0:00:01".to_string());
    assert_eq!(duration_format(&Duration::milliseconds(1000 * (3600 * 24 * 365 * 10 + 1))), "10y0d0:00:01".to_string());
    assert_eq!(duration_format(&Duration::milliseconds(1000 * (3600 * 24 * 365 * 10 + 1) + 1)), "10y0d0:00:01".to_string());
}

#[test]
fn negative_duration_has_sign() {
    assert_eq!(duration_format(&Duration::seconds(-61)), "-1:01".to_string());
    assert_eq!(duration_format(&Duration::milliseconds(-1500)), "-1.5".to_string());
}

#[test]
fn integer_text_round_trip() {
    for s in ["112432", "-42", "0", "170141183460469231731687303715884105727", "-170141183460469231731687303715884105728"] {
        let i = Value::text(s).cast(ValueType::Integer).unwrap();
        assert_eq!(text_of(i.cast(ValueType::Text).unwrap()), s.to_string());
    }
}

#[test]
fn integer_parse_errors() {
    for s in ["", "-", "+", "1d", "170141183460469231731687303715884105728", " 1"] {
        let e = Value::text(s).cast(ValueType::Integer).unwrap_err();
        assert_eq!(e.kind, ErrorKind::Parse);
    }
    assert!(matches!(Value::text("+7").cast(ValueType::Integer), Ok(Value::Integer(7))));
}

#[test]
fn text_cast_payloads() {
    assert!(matches!(Value::text("1d").cast(ValueType::Glob), Ok(Value::Glob(g)) if g.pattern == "1d"));
    assert!(matches!(Value::text("1d").cast(ValueType::File), Ok(Value::File(p)) if p == "1d"));
    assert!(matches!(Value::text("fad").cast(ValueType::Field), Ok(Value::Field(f)) if f == vec!["fad".to_string()]));
    assert!(matches!(Value::text("hé").cast(ValueType::Binary), Ok(Value::Binary(b)) if b == vec![104, 195, 169]));
    assert_eq!(Value::text("1d").cast(ValueType::Time).unwrap_err().kind, ErrorKind::UnsupportedConversion);
}

#[test]
fn regex_casts() {
    assert!(matches!(Value::text("a+b").cast(ValueType::Regex), Ok(Value::Regex(r)) if r == "a+b"));
    assert_eq!(Value::text("a(").cast(ValueType::Regex).unwrap_err().kind, ErrorKind::Parse);
    assert_eq!(text_of(Value::Regex("x.*".to_string()).cast(ValueType::Text).unwrap()), "x.*");
}

#[test]
fn binary_decoding() {
    assert_eq!(text_of(Value::Binary(vec![104, 105]).cast(ValueType::Text).unwrap()), "hi");
    assert_eq!(Value::Binary(vec![0xff, 0xfe]).cast(ValueType::Text).unwrap_err().kind, ErrorKind::Encoding);
    let s = Value::BinaryStream(BinaryStream { pending: vec![111, 107] });
    assert_eq!(text_of(s.cast(ValueType::Text).unwrap()), "ok");
}

#[test]
fn integer_and_type_casts() {
    assert_eq!(text_of(Value::Integer(-15).cast(ValueType::Text).unwrap()), "-15");
    assert!(matches!(Value::Integer(7).cast(ValueType::Field), Ok(Value::Field(f)) if f == vec!["7".to_string()]));
    assert_eq!(text_of(Value::Type(ValueType::Duration).cast(ValueType::Text).unwrap()), "duration");
    assert!(matches!(Value::Integer(3).cast(ValueType::Integer), Ok(Value::Integer(3))));
}

#[test]
fn stream_to_list() {
    let s = Value::TableStream(TableStream {
        types: vec![column("n", ValueType::Integer)],
        pending: vec![Row { cells: vec![Value::Integer(4)] }, Row { cells: vec![Value::Integer(9)] }],
    });
    match s.cast(ValueType::List(Box::new(ValueType::Integer))) {
        Ok(Value::List(l)) => {
            assert_eq!(l.items.len(), 2);
            assert!(matches!(l.items[0], Value::Integer(4)));
            assert!(matches!(l.items[1], Value::Integer(9)));
        },
        other => panic!("unexpected {:?}", other),
    }
    let wrong = Value::TableStream(TableStream {
        types: vec![column("n", ValueType::Integer)],
        pending: vec![],
    });
    assert_eq!(wrong.cast(ValueType::List(Box::new(ValueType::Text))).unwrap_err().kind, ErrorKind::Type);
}

#[test]
fn materialize_drains_nested_streams() {
    let inner = Value::BinaryStream(BinaryStream { pending: vec![1, 2] });
    let list = Value::List(List { element_type: ValueType::Any, items: vec![inner, Value::Integer(5)] });
    let once = list.materialize();
    match &once {
        Value::List(l) => {
            assert!(matches!(&l.items[0], Value::Binary(b) if *b == vec![1, 2]));
            assert!(matches!(l.items[1], Value::Integer(5)));
        },
        other => panic!("unexpected {:?}", other),
    }
    let twice = once.materialize();
    match &twice {
        Value::List(l) => {
            assert!(matches!(&l.items[0], Value::Binary(b) if *b == vec![1, 2]));
            assert!(matches!(l.items[1], Value::Integer(5)));
        },
        other => panic!("unexpected {:?}", other),
    }
}

#[test]
fn materialize_stream_into_table() {
    let t = file_stream(&["a", "b"]).materialize();
    match t {
        Value::Table(Table { types, rows }) => {
            assert_eq!(types.len(), 1);
            assert_eq!(rows.len(), 2);
            assert!(matches!(&rows[1].cells[0], Value::File(p) if p == "b"));
        },
        other => panic!("unexpected {:?}", other),
    }
}

#[test]
fn glob_equals_matching_text() {
    let g = Value::Glob(Glob::new("*.txt"));
    assert!(g.eq(&Value::text("notes.txt")));
    assert!(Value::text("notes.txt").eq(&g));
    assert!(!g.eq(&Value::text("notes.md")));
    assert!(!Value::text("notes.md").eq(&g));
    assert!(Value::Glob(Glob::new("a?c")).eq(&Value::text("abc")));
}

#[test]
fn cross_type_order() {
    assert_eq!(Value::text("z").partial_cmp(&Value::Integer(1)), Some(Ordering::Less));
    assert_eq!(Value::Integer(1).partial_cmp(&Value::text("z")), Some(Ordering::Greater));
    assert_eq!(Value::Bool(true).partial_cmp(&Value::Empty()), Some(Ordering::Less));
    assert_eq!(Value::Integer(2).partial_cmp(&Value::Integer(10)), Some(Ordering::Less));
    assert_eq!(Value::text("b").partial_cmp(&Value::text("a")), Some(Ordering::Greater));
}

#[test]
fn list_order_and_equality() {
    let a = Value::List(List { element_type: ValueType::Integer, items: vec![Value::Integer(1), Value::Integer(2)] });
    let b = Value::List(List { element_type: ValueType::Integer, items: vec![Value::Integer(1)] });
    let c = Value::List(List { element_type: ValueType::Integer, items: vec![Value::Integer(1), Value::Integer(2)] });
    assert_eq!(a.partial_cmp(&b), Some(Ordering::Greater));
    assert!(a.eq(&c));
    assert!(!a.eq(&b));
}

#[test]
fn file_expand_stream() {
    let mut out: Vec<String> = Vec::new();
    file_stream(&["x", "y", "z"]).file_expand(&vec![], &mut out).unwrap();
    assert_eq!(out, vec!["x".to_string(), "y".to_string(), "z".to_string()]);
}

#[test]
fn file_expand_two_columns_fails() {
    let s = Value::TableStream(TableStream {
        types: vec![column("a", ValueType::File), column("b", ValueType::File)],
        pending: vec![],
    });
    let mut out: Vec<String> = Vec::new();
    assert_eq!(s.file_expand(&vec![], &mut out).unwrap_err().kind, ErrorKind::Type);
    assert!(out.is_empty());
}

#[test]
fn file_expand_other_values() {
    let entries = vec!["a.rs".to_string(), "b.txt".to_string(), "c.rs".to_string()];
    let mut out: Vec<String> = Vec::new();
    Value::Glob(Glob::new("*.rs")).file_expand(&entries, &mut out).unwrap();
    Value::text("d").file_expand(&entries, &mut out).unwrap();
    assert_eq!(out, vec!["a.rs".to_string(), "c.rs".to_string(), "d".to_string()]);
    assert_eq!(Value::Integer(1).file_expand(&entries, &mut out).unwrap_err().kind, ErrorKind::Argument);
}

#[test]
fn hashing_scalars() {
    let a = Value::Integer(42).hash_key();
    let b = Value::Integer(42).hash_key();
    assert_eq!(hash_of(&a), hash_of(&b));
    assert_eq!(hash_of(&Value::text("k").hash_key()), hash_of(&Value::text("k").hash_key()));
    assert_eq!(hash_of(&Value::Bool(true).hash_key()), hash_of(&Value::Bool(true).hash_key()));
    assert!(!ValueType::List(Box::new(ValueType::Integer)).is_hashable());
    assert!(!ValueType::Float.is_hashable());
    assert!(!ValueType::BinaryStream.is_hashable());
    assert!(!ValueType::Closure.is_hashable());
    assert!(ValueType::Text.is_hashable());
}

#[test]
fn to_string_forms() {
    assert_eq!(Value::Binary(vec![0x0f, 0xa0, 0x01]).to_string(), "0fa001");
    assert_eq!(Value::Field(vec!["a".to_string(), "b".to_string(), "c".to_string()]).to_string(), "%a.b.c");
    assert_eq!(Value::Glob(Glob::new("*.rs")).to_string(), "*{*.rs}");
    assert_eq!(Value::Regex("a+".to_string()).to_string(), "regex{a+}");
    assert_eq!(Value::Integer(-7).to_string(), "-7");
    assert_eq!(Value::Bool(false).to_string(), "false");
    assert_eq!(Value::empty_stream().to_string(), "<Output>");
    assert_eq!(Value::Duration(Duration::seconds(61)).to_string(), "1:01");
    assert_eq!(Value::Type(ValueType::Integer).to_string(), "integer");
    assert_eq!(hex(171), "ab");
}

#[test]
fn time_to_string() {
    let t = Value::Time(Time { seconds: 86400 + 3661, nanos: 0, offset_seconds: 0 });
    assert_eq!(t.to_string(), "1970-01-02 01:01:01 +0000");
    let t2 = Value::Time(Time { seconds: 0, nanos: 0, offset_seconds: 3600 });
    assert_eq!(t2.to_string(), "1970-01-01 01:00:00 +0100");
}

#[test]
fn file_equality_uses_canonical_paths() {
    assert!(Value::File("/".to_string()).eq(&Value::File("/".to_string())));
    assert!(Value::text("/").eq(&Value::File("/".to_string())));
    assert!(!Value::File("/no/such/path/here".to_string()).eq(&Value::File("/no/such/path/here".to_string())));
}

#[test]
fn binary_methods() {
    let b = vec![5u8, 6, 7];
    assert_eq!(len(&b), 3);
    assert_eq!(getitem(&b, 1).unwrap(), 6);
    assert_eq!(getitem(&b, 3).unwrap_err().kind, ErrorKind::Argument);
    assert_eq!(getitem(&b, -1).unwrap_err().kind, ErrorKind::Argument);
    assert_eq!(full("len"), vec!["global".to_string(), "types".to_string(), "binary".to_string(), "len".to_string()]);
}

#[test]
fn seq_stream() {
    let mut s = perform(3);
    assert_eq!(s.types[0].name, "value");
    for i in 0..3 {
        let row = s.recv().unwrap();
        assert!(matches!(row.cells[0], Value::Integer(n) if n == i));
    }
    assert!(s.recv().is_none());
    assert!(s.recv().is_none());
    assert_eq!(perform(-2).pending.len(), 0);
}

#[test]
fn container_to_string() {
    let l = Value::List(List { element_type: ValueType::Integer, items: vec![Value::Integer(1), Value::text("a")] });
    assert_eq!(l.to_string(), "[1, a]");
    let d = Value::Dict(Dict {
        key_type: ValueType::Text,
        value_type: ValueType::Bool,
        entries: vec![(Value::text("x"), Value::Bool(true)), (Value::text("y"), Value::Bool(false))],
    });
    assert_eq!(d.to_string(), "{x: true, y: false}");
    let s = Value::Struct(Struct { types: vec![column("n", ValueType::Integer)], cells: vec![Value::Integer(3)] });
    assert_eq!(s.to_string(), "{n=3}");
    assert_eq!(Value::List(List { element_type: ValueType::Any, items: vec![] }).to_string(), "[]");
}

#[test]
fn readable_adapters() {
    let l = Value::List(List { element_type: ValueType::Integer, items: vec![Value::Integer(1), Value::Integer(2)] });
    let mut s = l.readable().unwrap();
    assert_eq!(s.types.len(), 1);
    assert_eq!(s.types[0].name, "value");
    assert!(matches!(s.recv().unwrap().cells[0], Value::Integer(1)));
    let d = Value::Dict(Dict {
        key_type: ValueType::Text,
        value_type: ValueType::Integer,
        entries: vec![(Value::text("k"), Value::Integer(9))],
    });
    let mut ds = d.readable().unwrap();
    assert_eq!(ds.types[1].name, "value");
    let row = ds.recv().unwrap();
    assert_eq!(row.cells.len(), 2);
    assert!(Value::Integer(1).readable().is_none());
}

#[test]
fn paths_order_by_components() {
    let f = |s: &str| Value::File(s.to_string());
    assert_eq!(f("a/b").partial_cmp(&f("a-b")), Some(Ordering::Less));
    assert_eq!(f("a//b").partial_cmp(&f("a/b")), Some(Ordering::Equal));
    assert_eq!(f("a/b/").partial_cmp(&f("a/b")), Some(Ordering::Equal));
    assert_eq!(f("a/./b").partial_cmp(&f("a/b")), Some(Ordering::Equal));
    assert_eq!(f("/a").partial_cmp(&f("a")), Some(Ordering::Less));
    assert_eq!(f("../x").partial_cmp(&f("-")), Some(Ordering::Less));
    assert_eq!(f("./a").partial_cmp(&f("a")), Some(Ordering::Less));
    assert_eq!(f("b").partial_cmp(&f("a/c")), Some(Ordering::Greater));
}

#[test]
fn file_hash_by_components() {
    let a = Value::File("a//b/".to_string()).hash_key();
    let b = Value::File("a/b".to_string()).hash_key();
    assert_eq!(a, b);
    assert_eq!(hash_of(&a), hash_of(&b));
    assert_ne!(Value::File("a/b".to_string()).hash_key(), Value::File("a-b".to_string()).hash_key());
    assert!(!ValueType::Empty.is_hashable());
    assert!(!ValueType::Type.is_hashable());
}
