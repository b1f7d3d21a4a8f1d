use vstd::prelude::*;
use crate::cast::{Error, ErrorKind, error, fails_with};
use crate::value::{Row, TableStream, Value};
use crate::value_type::{ColumnType, ValueType};

verus! {

/// The stream of the integers from zero up to, not including, `count`, in
/// one column named `value`.
pub fn perform(count: i128) -> (r: TableStream)
    ensures
        r.types@.len() == 1,
        r.types@[0].name@ == "value"@,
        r.types@[0].cell_type is Integer,
        r.pending@.len() == (if count > 0 { count as int } else { 0 }),
        forall|i: int| 0 <= i < r.pending@.len()
            ==> (#[trigger] r.pending@[i]).cells@.len() == 1 && r.pending@[i].cells@[0] == Value::Integer(i as i128),
{
    let mut types: Vec<ColumnType> = Vec::new();
    types.push(ColumnType { name: "value".to_string(), cell_type: ValueType::Integer });
    let mut rows: Vec<Row> = Vec::new();
    let mut i: i128 = 0;
    while i < count
        invariant
            0 <= i,
            count > 0 ==> i <= count,
            count <= 0 ==> i == 0,
            rows@.len() == i,
            forall|j: int| 0 <= j < i
                ==> (#[trigger] rows@[j]).cells@.len() == 1 && rows@[j].cells@[0] == Value::Integer(j as i128),
        decreases count - i,
    {
        rows.push(Row { cells: vec![Value::Integer(i)] });
        i = i + 1;
    }
    TableStream { types, pending: rows }
}

/// The path under which a method of binary values is declared.
pub fn full(name: &str) -> (r: Vec<String>)
    ensures
        r@.len() == 4,
        r@[0]@ == "global"@,
        r@[1]@ == "types"@,
        r@[2]@ == "binary"@,
        r@[3]@ == name@,
{
    vec!["global".to_string(), "types".to_string(), "binary".to_string(), name.to_string()]
}

/// The number of bytes of a binary value.
pub fn len(val: &Vec<u8>) -> (r: i128)
    ensures
        r == val@.len(),
{
    val.len() as i128
}

/// The byte at offset `idx` of a binary value.
pub fn getitem(val: &Vec<u8>, idx: i128) -> (r: Result<i128, Error>)
    ensures
        0 <= idx < val@.len() ==> r == Ok::<i128, Error>(val@[idx as int] as i128),
        !(0 <= idx < val@.len()) ==> fails_with(r, ErrorKind::Argument),
{
    if idx < 0 || idx >= val.len() as i128 {
        return error(ErrorKind::Argument, "Index out of bounds");
    }
    Ok(val[idx as usize] as i128)
}

}
