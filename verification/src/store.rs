//! Decoding store rows into domain records.
//!
//! The relational driver answers the exact-match query
//! `SELECT id, ident, name, created_at, description FROM items WHERE
//! ident = :ident` with zero or more rows of column values. The driver
//! itself lives outside this crate; it hands each row in as plain
//! [`ColumnValue`]s, and the functions here carry the adapter's whole
//! decision: how one row becomes a [`Record`], which shapes count as
//! malformed, and how a row count other than zero or one is treated.

use vstd::prelude::*;

use crate::record::Record;
use crate::record::RecordV;
use crate::record::Timestamp;

verus! {

/// One column of a result row, as plain data: the SQL null, a signed or
/// unsigned integer, a text value, a point in time split into whole
/// seconds and sub-second nanoseconds, or a value of some shape the
/// adapter does not map (a float, say), which never decodes.
#[derive(Debug)]
pub enum ColumnValue {
    Null,
    Int(i64),
    UInt(u64),
    Text(String),
    DateTime { seconds: i64, nanos: i32 },
    Other,
}

/// Why a store fetch failed: the connection could not be obtained, the
/// query could not be executed, a row had a malformed shape or value, or
/// more than one row matched an identifier that is expected to be
/// unique.
#[derive(Clone, Copy, Debug, PartialEq, Eq, Structural)]
pub enum StoreError {
    Connection,
    Query,
    BadRow,
    MultipleRows,
}

/// Whether a column carries the row id: an unsigned integer, or a signed
/// one that is not negative.
pub open spec fn id_column_ok(c: ColumnValue) -> bool {
    match c {
        ColumnValue::UInt(_) => true,
        ColumnValue::Int(i) => i >= 0,
        _ => false,
    }
}

/// The row id a well-shaped id column carries.
pub open spec fn id_column_value(c: ColumnValue) -> u64 {
    match c {
        ColumnValue::UInt(u) => u,
        ColumnValue::Int(i) => i as u64,
        _ => 0,
    }
}

/// Whether a column carries text.
pub open spec fn text_column_ok(c: ColumnValue) -> bool {
    c is Text
}

/// The characters a text column carries.
pub open spec fn text_column_value(c: ColumnValue) -> Seq<char> {
    match c {
        ColumnValue::Text(s) => s@,
        _ => Seq::empty(),
    }
}

/// Whether a column can stand for the creation timestamp: the SQL null
/// (the timestamp is absent), or a point in time whose parts are not
/// negative. A negative part cannot be carried by the unsigned timestamp
/// served to callers, so it counts as a malformed value.
pub open spec fn time_column_ok(c: ColumnValue) -> bool {
    match c {
        ColumnValue::Null => true,
        ColumnValue::DateTime { seconds, nanos } => seconds >= 0 && nanos >= 0,
        _ => false,
    }
}

/// The optional timestamp a well-shaped timestamp column carries.
pub open spec fn time_column_value(c: ColumnValue) -> Option<Timestamp> {
    match c {
        ColumnValue::DateTime { seconds, nanos } => Some(
            Timestamp { seconds: seconds as u64, nanos: nanos as u32 },
        ),
        _ => None,
    }
}

/// Whether a whole row has the shape the query promises: five columns,
/// in order the row id, the identifier, the name, the nullable creation
/// timestamp, and the description.
pub open spec fn row_shape_ok(cols: Seq<ColumnValue>) -> bool {
    &&& cols.len() == 5
    &&& id_column_ok(cols[0])
    &&& text_column_ok(cols[1])
    &&& text_column_ok(cols[2])
    &&& time_column_ok(cols[3])
    &&& text_column_ok(cols[4])
}

/// The record a well-shaped row decodes to.
pub open spec fn row_record(cols: Seq<ColumnValue>) -> RecordV {
    RecordV {
        id: id_column_value(cols[0]),
        ident: text_column_value(cols[1]),
        name: text_column_value(cols[2]),
        created_at: time_column_value(cols[3]),
        description: text_column_value(cols[4]),
    }
}

/// Decode one result row into a record. Succeeds exactly on rows of the
/// shape the query promises; every other shape is reported as a
/// malformed row, never decoded partially.
pub fn decode_row(row: Vec<ColumnValue>) -> (r: Result<Record, StoreError>)
    ensures
        row_shape_ok(row@) ==> (r matches Ok(rec) && rec@ == row_record(row@)),
        !row_shape_ok(row@) ==> r == Err::<Record, StoreError>(StoreError::BadRow),
{
    let mut cols = row;
    if cols.len() != 5 {
        return Err(StoreError::BadRow);
    }
    let c4 = cols.pop().unwrap();
    let c3 = cols.pop().unwrap();
    let c2 = cols.pop().unwrap();
    let c1 = cols.pop().unwrap();
    let c0 = cols.pop().unwrap();
    let id = match c0 {
        ColumnValue::UInt(u) => u,
        ColumnValue::Int(i) => {
            if i >= 0 {
                i as u64
            } else {
                return Err(StoreError::BadRow);
            }
        },
        _ => {
            return Err(StoreError::BadRow);
        },
    };
    let ident = match c1 {
        ColumnValue::Text(s) => s,
        _ => {
            return Err(StoreError::BadRow);
        },
    };
    let name = match c2 {
        ColumnValue::Text(s) => s,
        _ => {
            return Err(StoreError::BadRow);
        },
    };
    let created_at = match c3 {
        ColumnValue::Null => None,
        ColumnValue::DateTime { seconds, nanos } => {
            if seconds >= 0 && nanos >= 0 {
                Some(Timestamp { seconds: seconds as u64, nanos: nanos as u32 })
            } else {
                return Err(StoreError::BadRow);
            }
        },
        _ => {
            return Err(StoreError::BadRow);
        },
    };
    let description = match c4 {
        ColumnValue::Text(s) => s,
        _ => {
            return Err(StoreError::BadRow);
        },
    };
    Ok(Record { id, ident, name, created_at, description })
}

/// Turn the rows the exact-match query returned into the adapter's
/// result. No row means the identifier has no record; one row decodes
/// as [`decode_row`] does; more than one row for a key expected to be
/// unique is reported as an error rather than resolved silently.
pub fn fetch_result_from_rows(rows: Vec<Vec<ColumnValue>>) -> (r: Result<
    Option<Record>,
    StoreError,
>)
    ensures
        rows@.len() == 0 ==> r == Ok::<Option<Record>, StoreError>(None),
        rows@.len() == 1 && row_shape_ok(rows@[0]@) ==> (r matches Ok(Some(rec)) && rec@
            == row_record(rows@[0]@)),
        rows@.len() == 1 && !row_shape_ok(rows@[0]@) ==> r == Err::<Option<Record>, StoreError>(
            StoreError::BadRow,
        ),
        rows@.len() > 1 ==> r == Err::<Option<Record>, StoreError>(StoreError::MultipleRows),
{
    let mut rows = rows;
    if rows.len() == 0 {
        Ok(None)
    } else if rows.len() == 1 {
        let row = rows.pop().unwrap();
        match decode_row(row) {
            Ok(rec) => Ok(Some(rec)),
            Err(e) => Err(e),
        }
    } else {
        Err(StoreError::MultipleRows)
    }
}

} // verus!
