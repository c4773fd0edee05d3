//! The storage-engine boundary.
//!
//! The engine executes statements through a small set of trusted wrappers
//! around the embedded SQL store.  Everything that crosses the boundary is
//! a plain value: statements are text, bound parameters and result cells
//! are [`SqlVal`].  Nothing is promised of what a query returns — the
//! result depends on the state of the store — so all logic that consumes
//! results takes them as arguments and is verified for every value.

use vstd::prelude::*;

verus! {

/// A plain value bound into a statement or read back from a result row.
#[derive(Debug, PartialEq)]
pub enum SqlVal {
    Null,
    Int(i64),
    Text(String),
}

/// Spec-level mirror of [`SqlVal`].
pub ghost enum SqlValV {
    Null,
    Int(int),
    Text(Seq<char>),
}

impl View for SqlVal {
    type V = SqlValV;

    open spec fn view(&self) -> SqlValV {
        match self {
            SqlVal::Null => SqlValV::Null,
            SqlVal::Int(i) => SqlValV::Int(*i as int),
            SqlVal::Text(s) => SqlValV::Text(s@),
        }
    }
}

/// Decodes one result cell into a typed value: the row-materializer
/// boundary of the engine.  The scalar field types implement it here;
/// generated result structs decode a returned row cell by cell through
/// it, in projection order.
pub trait FromCell: Sized {
    /// The typed value of one cell, when the cell carries this type.
    fn from_cell(v: &SqlVal) -> Option<Self>;
}

impl FromCell for i64 {
    fn from_cell(v: &SqlVal) -> Option<i64> {
        match v {
            SqlVal::Int(x) => Some(*x),
            _ => None,
        }
    }
}

impl FromCell for String {
    fn from_cell(v: &SqlVal) -> Option<String> {
        match v {
            SqlVal::Text(s) => Some(s.clone()),
            _ => None,
        }
    }
}

impl FromCell for bool {
    fn from_cell(v: &SqlVal) -> Option<bool> {
        match v {
            SqlVal::Int(x) => {
                if *x == 0 {
                    Some(false)
                } else if *x == 1 {
                    Some(true)
                } else {
                    None
                }
            },
            _ => None,
        }
    }
}

impl<T: FromCell> FromCell for Option<T> {
    fn from_cell(v: &SqlVal) -> Option<Option<T>> {
        match v {
            SqlVal::Null => Some(None),
            _ => match T::from_cell(v) {
                Some(x) => Some(Some(x)),
                None => None,
            },
        }
    }
}

/// The store's connection handle.
#[verifier::external_type_specification]
#[verifier::external_body]
pub struct ExConnection(rusqlite::Connection);

/// An owned cell value of the store.
#[verifier::external_type_specification]
#[verifier::external_body]
pub struct ExValue(rusqlite::types::Value);

/// A borrowed cell value of the store.
#[verifier::external_type_specification]
#[verifier::external_body]
pub struct ExValueRef<'a>(rusqlite::types::ValueRef<'a>);

/// Relies on the store's value constructors: converts one plain value to
/// the store's owned value type, variant for variant.
#[verifier::external_body]
fn store_val(v: &SqlVal) -> rusqlite::types::Value {
    match v {
        SqlVal::Null => rusqlite::types::Value::Null,
        SqlVal::Int(i) => rusqlite::types::Value::Integer(*i),
        SqlVal::Text(s) => rusqlite::types::Value::Text(s.clone()),
    }
}

/// Relies on the store's value accessors: converts one borrowed store
/// value to a plain value, variant for variant; value kinds the engine
/// does not model are reported as an error.
#[verifier::external_body]
fn read_val(v: rusqlite::types::ValueRef<'_>) -> (r: Result<SqlVal, String>) {
    match v {
        rusqlite::types::ValueRef::Null => Ok(SqlVal::Null),
        rusqlite::types::ValueRef::Integer(x) => Ok(SqlVal::Int(x)),
        rusqlite::types::ValueRef::Text(t) => Ok(
            SqlVal::Text(String::from_utf8_lossy(t).into_owned()),
        ),
        _ => Err("unsupported column type".to_string()),
    }
}

/// Relies on rusqlite::Connection::open_in_memory: a fresh private
/// in-memory store.
#[verifier::external_body]
pub fn open_in_memory() -> (r: Result<rusqlite::Connection, String>) {
    rusqlite::Connection::open_in_memory().map_err(|e| e.to_string())
}

/// Relies on rusqlite::Connection::open: opens (and creates if absent) the
/// store at `path`; URI filenames are accepted.
#[verifier::external_body]
pub fn open_path(path: &str) -> (r: Result<rusqlite::Connection, String>) {
    rusqlite::Connection::open(path).map_err(|e| e.to_string())
}

/// Relies on rusqlite::Connection::execute: runs one statement with the
/// given positional parameters and reports the number of changed rows.
#[verifier::external_body]
pub(crate) fn exec_sql(conn: &rusqlite::Connection, sql: &str, params: &Vec<SqlVal>) -> (r: Result<
    usize,
    String,
>) {
    let it = rusqlite::params_from_iter(params.iter().map(store_val));
    conn.execute(sql, it).map_err(|e| e.to_string())
}

/// Relies on rusqlite::Connection::execute_batch: runs a sequence of
/// statements, ignoring any rows they return.
#[verifier::external_body]
pub(crate) fn exec_batch(conn: &rusqlite::Connection, sql: &str) -> (r: Result<(), String>) {
    conn.execute_batch(sql).map_err(|e| e.to_string())
}

/// Relies on rusqlite statement preparation and row iteration: runs one
/// query with the given positional parameters and collects every result
/// row as plain values.
#[verifier::external_body]
pub(crate) fn raw_query(conn: &rusqlite::Connection, sql: &str, params: &Vec<SqlVal>) -> (r: Result<
    Vec<Vec<SqlVal>>,
    String,
>) {
    let mut stmt = conn.prepare(sql).map_err(|e| e.to_string())?;
    let n = stmt.column_count();
    let it = rusqlite::params_from_iter(params.iter().map(store_val));
    let mut rows = stmt.query(it).map_err(|e| e.to_string())?;
    let mut out: Vec<Vec<SqlVal>> = Vec::new();
    while let Some(row) = rows.next().map_err(|e| e.to_string())? {
        let mut rec: Vec<SqlVal> = Vec::new();
        for i in 0..n {
            rec.push(read_val(row.get_ref(i).map_err(|e| e.to_string())?)?);
        }
        out.push(rec);
    }
    Ok(out)
}

} // verus!
