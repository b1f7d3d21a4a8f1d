use vstd::prelude::*;
use crate::cast::{Error, ErrorKind, error, fails_with};
use crate::glob::glob_match;
use crate::value::{BinaryStream, Dict, List, Row, Struct, Table, TableStream, Value};
use crate::value_type::{ColumnType, ValueType, type_eq};

verus! {

/// `r` is `v` with every stream drained into the matching in-memory value,
/// at any depth: a table stream becomes a table of its pending rows, a
/// binary stream the bytes it still holds; tables, structs, lists and
/// dictionaries keep their shape; every other value stays as it is.
pub open spec fn materializes_to(v: Value, r: Value) -> bool
    decreases v, 0nat,
{
    match v {
        Value::TableStream(s) => r matches Value::Table(t) && t.types == s.types
            && t.rows@.len() == s.pending@.len()
            && forall|i: int| 0 <= i < s.pending@.len() ==> {
                &&& t.rows@[i].cells@.len() == s.pending@[i].cells@.len()
                &&& forall|j: int| 0 <= j < s.pending@[i].cells@.len()
                    ==> materializes_to(s.pending@[i].cells@[j], t.rows@[i].cells@[j])
            },
        Value::BinaryStream(s) => r matches Value::Binary(b) && b@ == s.pending@,
        Value::Table(t) => r matches Value::Table(u) && u.types == t.types
            && u.rows@.len() == t.rows@.len()
            && forall|i: int| 0 <= i < t.rows@.len() ==> {
                &&& u.rows@[i].cells@.len() == t.rows@[i].cells@.len()
                &&& forall|j: int| 0 <= j < t.rows@[i].cells@.len()
                    ==> materializes_to(t.rows@[i].cells@[j], u.rows@[i].cells@[j])
            },
        Value::Struct(s) => r matches Value::Struct(u) && u.types == s.types
            && u.cells@.len() == s.cells@.len()
            && forall|i: int| 0 <= i < s.cells@.len() ==> materializes_to(s.cells@[i], u.cells@[i]),
        Value::List(l) => r matches Value::List(u) && u.element_type == l.element_type
            && u.items@.len() == l.items@.len()
            && forall|i: int| 0 <= i < l.items@.len() ==> materializes_to(l.items@[i], u.items@[i]),
        Value::Dict(d) => r matches Value::Dict(u) && u.key_type == d.key_type
            && u.value_type == d.value_type && u.entries@.len() == d.entries@.len()
            && forall|i: int| 0 <= i < d.entries@.len() ==> {
                &&& materializes_to(d.entries@[i].0, u.entries@[i].0)
                &&& materializes_to(d.entries@[i].1, u.entries@[i].1)
            },
        _ => r == v,
    }
}

/// `v` holds no stream at any depth.
pub open spec fn is_plain(v: Value) -> bool
    decreases v, 0nat,
{
    match v {
        Value::TableStream(_) | Value::BinaryStream(_) => false,
        Value::Table(t) => forall|i: int, j: int| 0 <= i < t.rows@.len() && 0 <= j < t.rows@[i].cells@.len()
            ==> is_plain(#[trigger] t.rows@[i].cells@[j]),
        Value::Struct(s) => forall|i: int| 0 <= i < s.cells@.len() ==> is_plain(s.cells@[i]),
        Value::List(l) => forall|i: int| 0 <= i < l.items@.len() ==> is_plain(l.items@[i]),
        Value::Dict(d) => forall|i: int| 0 <= i < d.entries@.len()
            ==> is_plain(d.entries@[i].0) && is_plain(d.entries@[i].1),
        _ => true,
    }
}

fn materialize_cells(cells_in: Vec<Value>) -> (r: Vec<Value>)
    ensures
        r@.len() == cells_in@.len(),
        forall|i: int| 0 <= i < cells_in@.len() ==> materializes_to(cells_in@[i], r@[i]),
    decreases cells_in@, 0nat,
{
    let ghost orig = cells_in@;
    let mut cells = cells_in;
    let n = cells.len();
    let mut out: Vec<Value> = Vec::new();
    let mut k: usize = 0;
    while cells.len() > 0
        invariant
            orig == cells_in@,
            orig.len() == n,
            k <= n,
            cells@ == orig.subrange(k as int, n as int),
            cells@.len() == n - k,
            out@.len() == k,
            forall|i: int| 0 <= i < k ==> materializes_to(orig[i], out@[i]),
        decreases cells.len(),
    {
        assert(k < n);
        let c = cells.remove(0);
        assert(c == orig[k as int]);
        assert(decreases_to!(orig => orig[k as int]));
        out.push(c.materialize());
        assert(cells@ =~= orig.subrange(k + 1, n as int));
        k = k + 1;
    }
    out
}

fn materialize_rows(rows_in: Vec<Row>) -> (r: Vec<Row>)
    ensures
        r@.len() == rows_in@.len(),
        forall|i: int| 0 <= i < rows_in@.len() ==> {
            &&& r@[i].cells@.len() == rows_in@[i].cells@.len()
            &&& forall|j: int| 0 <= j < rows_in@[i].cells@.len()
                ==> materializes_to(rows_in@[i].cells@[j], r@[i].cells@[j])
        },
    decreases rows_in@, 0nat,
{
    let ghost orig = rows_in@;
    let mut rows = rows_in;
    let n = rows.len();
    let mut out: Vec<Row> = Vec::new();
    let mut k: usize = 0;
    while rows.len() > 0
        invariant
            orig == rows_in@,
            orig.len() == n,
            k <= n,
            rows@ == orig.subrange(k as int, n as int),
            rows@.len() == n - k,
            out@.len() == k,
            forall|i: int| 0 <= i < k ==> {
                &&& out@[i].cells@.len() == orig[i].cells@.len()
                &&& forall|j: int| 0 <= j < orig[i].cells@.len()
                    ==> materializes_to(orig[i].cells@[j], out@[i].cells@[j])
            },
        decreases rows.len(),
    {
        assert(k < n);
        let row = rows.remove(0);
        assert(row == orig[k as int]);
        assert(decreases_to!(orig => orig[k as int].cells@)) by {
            assert(decreases_to!(orig => orig[k as int]));
            assert(decreases_to!(orig[k as int] => orig[k as int].cells));
            assert(decreases_to!(orig[k as int].cells => orig[k as int].cells@));
        };
        out.push(Row { cells: materialize_cells(row.cells) });
        assert(rows@ =~= orig.subrange(k + 1, n as int));
        k = k + 1;
    }
    out
}

fn materialize_entries(entries_in: Vec<(Value, Value)>) -> (r: Vec<(Value, Value)>)
    ensures
        r@.len() == entries_in@.len(),
        forall|i: int| 0 <= i < entries_in@.len() ==> {
            &&& materializes_to(entries_in@[i].0, r@[i].0)
            &&& materializes_to(entries_in@[i].1, r@[i].1)
        },
    decreases entries_in@, 0nat,
{
    let ghost orig = entries_in@;
    let mut entries = entries_in;
    let n = entries.len();
    let mut out: Vec<(Value, Value)> = Vec::new();
    let mut k: usize = 0;
    while entries.len() > 0
        invariant
            orig == entries_in@,
            orig.len() == n,
            k <= n,
            entries@ == orig.subrange(k as int, n as int),
            entries@.len() == n - k,
            out@.len() == k,
            forall|i: int| 0 <= i < k ==> {
                &&& materializes_to(orig[i].0, out@[i].0)
                &&& materializes_to(orig[i].1, out@[i].1)
            },
        decreases entries.len(),
    {
        assert(k < n);
        let (key, value) = entries.remove(0);
        assert(decreases_to!(orig => orig[k as int].0)) by {
            assert(decreases_to!(orig => orig[k as int]));
        };
        assert(decreases_to!(orig => orig[k as int].1)) by {
            assert(decreases_to!(orig => orig[k as int]));
        };
        let mk = key.materialize();
        let mv = value.materialize();
        out.push((mk, mv));
        assert(entries@ =~= orig.subrange(k + 1, n as int));
        k = k + 1;
    }
    out
}

impl TableStream {
    /// Takes the next pending row; once none is left there never is again.
    pub fn recv(&mut self) -> (r: Option<Row>)
        ensures
            old(self).pending@.len() == 0 ==> r is None && final(self).pending@.len() == 0,
            old(self).pending@.len() > 0 ==> r == Some(old(self).pending@[0])
                && final(self).pending@ == old(self).pending@.drop_first(),
            final(self).types == old(self).types,
    {
        if self.pending.len() == 0 {
            None
        } else {
            let r = self.pending.remove(0);
            assert(self.pending@ =~= old(self).pending@.drop_first());
            Some(r)
        }
    }
}

impl Value {
    /// Drains every stream in this value, at any depth, into an in-memory
    /// value.
    pub fn materialize(self) -> (r: Value)
        ensures
            materializes_to(self, r),
        decreases self, 1nat,
    {
        match self {
            Value::TableStream(s) => {
                let rows = materialize_rows(s.pending);
                Value::Table(Table { types: s.types, rows })
            },
            Value::BinaryStream(s) => Value::Binary(s.pending),
            Value::Table(t) => {
                let rows = materialize_rows(t.rows);
                Value::Table(Table { types: t.types, rows })
            },
            Value::Struct(s) => {
                let cells = materialize_cells(s.cells);
                Value::Struct(Struct { types: s.types, cells })
            },
            Value::List(l) => {
                let items = materialize_cells(l.items);
                Value::List(List { element_type: l.element_type, items })
            },
            Value::Dict(d) => {
                let entries = materialize_entries(d.entries);
                Value::Dict(Dict { key_type: d.key_type, value_type: d.value_type, entries })
            },
            other => other,
        }
    }
}

/// The entries of `names` that the glob pattern `p` matches, in order.
pub open spec fn glob_matches_in(p: Seq<char>, names: Seq<String>) -> Seq<String>
    decreases names.len(),
{
    if names.len() == 0 {
        Seq::empty()
    } else {
        let rest = glob_matches_in(p, names.drop_last());
        if glob_match(p, names.last()@) { rest.push(names.last()) } else { rest }
    }
}

/// The paths held by the first cell of each row, where that cell is a file.
pub open spec fn file_cells(rows: Seq<Row>) -> Seq<String>
    decreases rows.len(),
{
    if rows.len() == 0 {
        Seq::empty()
    } else {
        let rest = file_cells(rows.drop_last());
        let row = rows.last();
        if row.cells@.len() > 0 && row.cells@[0] is File { rest.push(row.cells@[0]->File_0) } else { rest }
    }
}

/// Whether a schema is exactly one column of files.
pub open spec fn single_file_column(s: TableStream) -> bool {
    s.types@.len() == 1 && s.types@[0].cell_type is File
}

/// What `file_expand` appends for `v`, given the entries of the working
/// directory; `None` where it fails.
pub open spec fn expanded_paths(v: Value, cwd_entries: Seq<String>) -> Option<Seq<String>> {
    match v {
        Value::Text(s) => Some(seq![s]),
        Value::File(p) => Some(seq![p]),
        Value::Glob(g) => Some(glob_matches_in(g.pattern@, cwd_entries)),
        Value::TableStream(s) => if single_file_column(s) { Some(file_cells(s.pending@)) } else { None },
        _ => None,
    }
}

impl Value {
    /// Appends the file paths that this value stands for to `out`: text as a
    /// literal path, a file as it is, a glob as the entries of the working
    /// directory that it matches, and a stream of one column of files as
    /// those files, in stream order. Any other value fails.
    pub fn file_expand(self, cwd_entries: &Vec<String>, out: &mut Vec<String>) -> (r: Result<(), Error>)
        ensures
            expanded_paths(self, cwd_entries@) matches Some(p) ==> r is Ok && final(out)@ == old(out)@ + p,
            expanded_paths(self, cwd_entries@) is None ==> final(out)@ == old(out)@ && fails_with(r,
                if self is TableStream { ErrorKind::Type } else { ErrorKind::Argument }),
    {
        let ghost v = self;
        match self {
            Value::Text(s) => {
                out.push(s);
                assert(out@ =~= old(out)@ + seq![s]);
                Ok(())
            },
            Value::File(p) => {
                out.push(p);
                assert(out@ =~= old(out)@ + seq![p]);
                Ok(())
            },
            Value::Glob(g) => {
                let mut i: usize = 0;
                while i < cwd_entries.len()
                    invariant
                        i <= cwd_entries@.len(),
                        out@ == old(out)@ + glob_matches_in(g.pattern@, cwd_entries@.subrange(0, i as int)),
                    decreases cwd_entries@.len() - i,
                {
                    let ghost pre = cwd_entries@.subrange(0, i as int);
                    assert(cwd_entries@.subrange(0, i + 1).drop_last() =~= pre);
                    if g.matches(cwd_entries[i].as_str()) {
                        out.push(cwd_entries[i].clone());
                        assert(out@ =~= old(out)@ + glob_matches_in(g.pattern@, cwd_entries@.subrange(0, i + 1)));
                    }
                    i = i + 1;
                }
                assert(cwd_entries@.subrange(0, i as int) =~= cwd_entries@);
                Ok(())
            },
            Value::TableStream(s) => {
                let is_file = s.types.len() == 1 && match s.types[0].cell_type {
                    ValueType::File => true,
                    _ => false,
                };
                if !is_file {
                    return error(ErrorKind::Type, "Table stream must contain one column of type file");
                }
                let mut s = s;
                let ghost orig = s.pending@;
                let n = s.pending.len();
                let mut k: usize = 0;
                while s.pending.len() > 0
                    invariant
                        orig.len() == n,
                        k <= n,
                        s.pending@ == orig.subrange(k as int, n as int),
                        s.pending@.len() == n - k,
                        out@ == old(out)@ + file_cells(orig.subrange(0, k as int)),
                    decreases s.pending.len(),
                {
                    assert(k < n);
                    let row = s.recv();
                    assert(orig.subrange(0, k + 1).drop_last() =~= orig.subrange(0, k as int));
                    assert(s.pending@ =~= orig.subrange(k + 1, n as int));
                    match row {
                        Some(mut row) => {
                            assert(row == orig[k as int]);
                            if row.cells.len() > 0 {
                                let first = row.cells.remove(0);
                                match first {
                                    Value::File(f) => {
                                        out.push(f);
                                        assert(out@ =~= old(out)@ + file_cells(orig.subrange(0, k + 1)));
                                    },
                                    _ => {},
                                }
                            }
                        },
                        None => {},
                    }
                    k = k + 1;
                }
                assert(orig.subrange(0, k as int) =~= orig);
                Ok(())
            },
            _ => error(ErrorKind::Argument, "Expected a file name"),
        }
    }
}

/// Materializing yields a value with no stream in it.
pub proof fn lemma_materialized_is_plain(v: Value, r: Value)
    requires
        materializes_to(v, r),
    ensures
        is_plain(r),
    decreases v,
{
    match v {
        Value::TableStream(s) => {
            let t = r->Table_0;
            assert forall|i: int, j: int| 0 <= i < t.rows@.len() && 0 <= j < t.rows@[i].cells@.len()
                implies is_plain(#[trigger] t.rows@[i].cells@[j]) by {
                assert(decreases_to!(v => s.pending@[i].cells@[j])) by {
                    assert(decreases_to!(v => s.pending));
                    assert(decreases_to!(s.pending => s.pending@));
                    assert(decreases_to!(s.pending@ => s.pending@[i]));
                    assert(decreases_to!(s.pending@[i] => s.pending@[i].cells));
                    assert(decreases_to!(s.pending@[i].cells => s.pending@[i].cells@));
                };
                lemma_materialized_is_plain(s.pending@[i].cells@[j], t.rows@[i].cells@[j]);
            };
        },
        Value::Table(tb) => {
            let t = r->Table_0;
            assert forall|i: int, j: int| 0 <= i < t.rows@.len() && 0 <= j < t.rows@[i].cells@.len()
                implies is_plain(#[trigger] t.rows@[i].cells@[j]) by {
                assert(decreases_to!(v => tb.rows@[i].cells@[j])) by {
                    assert(decreases_to!(v => tb.rows));
                    assert(decreases_to!(tb.rows => tb.rows@));
                    assert(decreases_to!(tb.rows@ => tb.rows@[i]));
                    assert(decreases_to!(tb.rows@[i] => tb.rows@[i].cells));
                    assert(decreases_to!(tb.rows@[i].cells => tb.rows@[i].cells@));
                };
                lemma_materialized_is_plain(tb.rows@[i].cells@[j], t.rows@[i].cells@[j]);
            };
        },
        Value::Struct(s) => {
            let u = r->Struct_0;
            assert forall|i: int| 0 <= i < u.cells@.len() implies is_plain(u.cells@[i]) by {
                lemma_materialized_is_plain(s.cells@[i], u.cells@[i]);
            };
        },
        Value::List(l) => {
            let u = r->List_0;
            assert forall|i: int| 0 <= i < u.items@.len() implies is_plain(u.items@[i]) by {
                lemma_materialized_is_plain(l.items@[i], u.items@[i]);
            };
        },
        Value::Dict(d) => {
            let u = r->Dict_0;
            assert forall|i: int| 0 <= i < u.entries@.len()
                implies is_plain(u.entries@[i].0) && is_plain(u.entries@[i].1) by {
                lemma_materialized_is_plain(d.entries@[i].0, u.entries@[i].0);
                lemma_materialized_is_plain(d.entries@[i].1, u.entries@[i].1);
            };
        },
        _ => {},
    }
}

/// `r` is a stream over the rows of the container `v`: a table stream as it
/// is, a table by its rows, a list as one column named `value` with a row
/// per item, a dictionary as columns `key` and `value` with a row per entry.
pub open spec fn reads_as(v: Value, r: TableStream) -> bool {
    match v {
        Value::TableStream(s) => r == s,
        Value::Table(t) => r.types == t.types && r.pending == t.rows,
        Value::List(l) => r.types@.len() == 1 && r.types@[0].name@ == "value"@
            && type_eq(r.types@[0].cell_type, l.element_type)
            && r.pending@.len() == l.items@.len()
            && forall|i: int| 0 <= i < l.items@.len() ==> r.pending@[i].cells@ == seq![l.items@[i]],
        Value::Dict(d) => r.types@.len() == 2 && r.types@[0].name@ == "key"@ && r.types@[1].name@ == "value"@
            && type_eq(r.types@[0].cell_type, d.key_type) && type_eq(r.types@[1].cell_type, d.value_type)
            && r.pending@.len() == d.entries@.len()
            && forall|i: int| 0 <= i < d.entries@.len()
                ==> r.pending@[i].cells@ == seq![d.entries@[i].0, d.entries@[i].1],
        _ => false,
    }
}

impl Value {
    /// This value as a stream of rows, for table streams, tables, lists and
    /// dictionaries; nothing for any other value.
    pub fn readable(self) -> (r: Option<TableStream>)
        ensures
            (self is TableStream || self is Table || self is List || self is Dict)
                ==> r is Some && reads_as(self, r->0),
            !(self is TableStream || self is Table || self is List || self is Dict) ==> r is None,
    {
        proof {
            reveal_strlit("value");
            reveal_strlit("key");
        }
        match self {
            Value::TableStream(s) => Some(s),
            Value::Table(t) => Some(TableStream { types: t.types, pending: t.rows }),
            Value::List(l) => {
                let ghost items = l.items@;
                let t = l.element_type.deep_copy();
                let mut types: Vec<ColumnType> = Vec::new();
                types.push(ColumnType { name: "value".to_string(), cell_type: t });
                let mut rest = l.items;
                let n = rest.len();
                let mut rows: Vec<Row> = Vec::new();
                let mut k: usize = 0;
                while rest.len() > 0
                    invariant
                        items.len() == n,
                        k <= n,
                        rest@ == items.subrange(k as int, n as int),
                        rest@.len() == n - k,
                        rows@.len() == k,
                        forall|i: int| 0 <= i < k ==> rows@[i].cells@ == seq![items[i]],
                    decreases rest.len(),
                {
                    assert(k < n);
                    let item = rest.remove(0);
                    rows.push(Row { cells: vec![item] });
                    assert(rest@ =~= items.subrange(k + 1, n as int));
                    assert(rows@[k as int].cells@ =~= seq![items[k as int]]);
                    k = k + 1;
                }
                Some(TableStream { types, pending: rows })
            },
            Value::Dict(d) => {
                let ghost entries = d.entries@;
                let kt = d.key_type.deep_copy();
                let vt = d.value_type.deep_copy();
                let mut types: Vec<ColumnType> = Vec::new();
                types.push(ColumnType { name: "key".to_string(), cell_type: kt });
                types.push(ColumnType { name: "value".to_string(), cell_type: vt });
                let mut rest = d.entries;
                let n = rest.len();
                let mut rows: Vec<Row> = Vec::new();
                let mut k: usize = 0;
                while rest.len() > 0
                    invariant
                        entries.len() == n,
                        k <= n,
                        rest@ == entries.subrange(k as int, n as int),
                        rest@.len() == n - k,
                        rows@.len() == k,
                        forall|i: int| 0 <= i < k ==> rows@[i].cells@ == seq![entries[i].0, entries[i].1],
                    decreases rest.len(),
                {
                    assert(k < n);
                    let (key, value) = rest.remove(0);
                    rows.push(Row { cells: vec![key, value] });
                    assert(rest@ =~= entries.subrange(k + 1, n as int));
                    assert(rows@[k as int].cells@ =~= seq![entries[k as int].0, entries[k as int].1]);
                    k = k + 1;
                }
                Some(TableStream { types, pending: rows })
            },
            _ => None,
        }
    }
}

/// Materializing twice gives what materializing once may give: the second
/// pass finds nothing left to drain.
pub proof fn lemma_materialize_twice(v: Value, r: Value, r2: Value)
    requires
        materializes_to(v, r),
        materializes_to(r, r2),
    ensures
        materializes_to(v, r2),
        is_plain(r2),
    decreases v,
{
    lemma_materialized_is_plain(r, r2);
    match v {
        Value::TableStream(s) => {
            let t = r->Table_0;
            let t2 = r2->Table_0;
            assert forall|i: int, j: int| 0 <= i < s.pending@.len() && 0 <= j < s.pending@[i].cells@.len()
                implies materializes_to(s.pending@[i].cells@[j], #[trigger] t2.rows@[i].cells@[j]) by {
                assert(decreases_to!(v => s.pending@[i].cells@[j])) by {
                    assert(decreases_to!(v => s.pending));
                    assert(decreases_to!(s.pending => s.pending@));
                    assert(decreases_to!(s.pending@ => s.pending@[i]));
                    assert(decreases_to!(s.pending@[i] => s.pending@[i].cells));
                    assert(decreases_to!(s.pending@[i].cells => s.pending@[i].cells@));
                };
                lemma_materialize_twice(s.pending@[i].cells@[j], t.rows@[i].cells@[j], t2.rows@[i].cells@[j]);
            };
        },
        Value::Table(tb) => {
            let t = r->Table_0;
            let t2 = r2->Table_0;
            assert forall|i: int, j: int| 0 <= i < tb.rows@.len() && 0 <= j < tb.rows@[i].cells@.len()
                implies materializes_to(tb.rows@[i].cells@[j], #[trigger] t2.rows@[i].cells@[j]) by {
                assert(decreases_to!(v => tb.rows@[i].cells@[j])) by {
                    assert(decreases_to!(v => tb.rows));
                    assert(decreases_to!(tb.rows => tb.rows@));
                    assert(decreases_to!(tb.rows@ => tb.rows@[i]));
                    assert(decreases_to!(tb.rows@[i] => tb.rows@[i].cells));
                    assert(decreases_to!(tb.rows@[i].cells => tb.rows@[i].cells@));
                };
                lemma_materialize_twice(tb.rows@[i].cells@[j], t.rows@[i].cells@[j], t2.rows@[i].cells@[j]);
            };
        },
        Value::Struct(s) => {
            let u = r->Struct_0;
            let u2 = r2->Struct_0;
            assert forall|i: int| 0 <= i < s.cells@.len() implies materializes_to(s.cells@[i], u2.cells@[i]) by {
                lemma_materialize_twice(s.cells@[i], u.cells@[i], u2.cells@[i]);
            };
        },
        Value::List(l) => {
            let u = r->List_0;
            let u2 = r2->List_0;
            assert forall|i: int| 0 <= i < l.items@.len() implies materializes_to(l.items@[i], u2.items@[i]) by {
                lemma_materialize_twice(l.items@[i], u.items@[i], u2.items@[i]);
            };
        },
        Value::Dict(d) => {
            let u = r->Dict_0;
            let u2 = r2->Dict_0;
            assert forall|i: int| 0 <= i < d.entries@.len()
                implies materializes_to(d.entries@[i].0, u2.entries@[i].0)
                    && materializes_to(d.entries@[i].1, u2.entries@[i].1) by {
                lemma_materialize_twice(d.entries@[i].0, u.entries@[i].0, u2.entries@[i].0);
                lemma_materialize_twice(d.entries@[i].1, u.entries@[i].1, u2.entries@[i].1);
            };
        },
        _ => {},
    }
}

}
