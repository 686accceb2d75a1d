//! The database engine: the calls into `rusqlite`.
//!
//! Nothing in this file is proved. What a call returns depends on the
//! database behind the connection, so no contract here says anything of it:
//! the functions that make these calls are verified for whatever comes back.

use crate::statement::Param;
use rusqlite::types::Value;
use rusqlite::OptionalExtension;
use vstd::prelude::*;

verus! {

/// `rusqlite::Connection`, a handle on one open database.
#[verifier::external_type_specification]
#[verifier::external_body]
pub struct ExConnection(rusqlite::Connection);

/// `rusqlite::Transaction`, an open transaction on a borrowed connection.
#[verifier::external_type_specification]
#[verifier::external_body]
pub struct ExTransaction<'conn>(rusqlite::Transaction<'conn>);

/// `rusqlite::Error`, whatever the engine reports.
#[verifier::external_type_specification]
#[verifier::external_body]
pub struct ExError(rusqlite::Error);

/// `Connection::execute_batch`: runs the statements of `sql`, which take no
/// parameters, one after the other.
#[verifier::external_body]
pub(crate) fn execute_batch(conn: &rusqlite::Connection, sql: &str) -> Result<(), rusqlite::Error> {
    conn.execute_batch(sql)
}

/// `Connection::transaction`: opens a transaction, which holds the
/// connection until it is committed, rolled back or dropped.
#[verifier::external_body]
pub(crate) fn begin(conn: &mut rusqlite::Connection) -> Result<
    rusqlite::Transaction<'_>,
    rusqlite::Error,
> {
    conn.transaction()
}

/// `Transaction::commit`.
#[verifier::external_body]
pub(crate) fn commit(tx: rusqlite::Transaction<'_>) -> Result<(), rusqlite::Error> {
    tx.commit()
}

/// `Transaction::rollback`.
#[verifier::external_body]
pub(crate) fn rollback(tx: rusqlite::Transaction<'_>) -> Result<(), rusqlite::Error> {
    tx.rollback()
}

/// `Connection::last_insert_rowid`, through the transaction.
#[verifier::external_body]
pub(crate) fn last_insert_rowid(tx: &rusqlite::Transaction<'_>) -> i64 {
    tx.last_insert_rowid()
}

/// `Statement::execute` on the statement that `Connection::prepare_cached`
/// gives for `sql`, with `params` bound in their order. The count is the
/// number of rows that the engine reports as changed.
#[verifier::external_body]
pub(crate) fn execute(tx: &rusqlite::Transaction<'_>, sql: &str, params: &Vec<Param>) -> Result<
    usize,
    rusqlite::Error,
> {
    let values = params.iter().map(|p| match p {
        Param::Integer(n) => Value::Integer(*n),
        Param::Text(s) => Value::Text(s.clone()),
    });
    tx.prepare_cached(sql)?.execute(rusqlite::params_from_iter(values))
}

/// `Statement::query_one` and `OptionalExtension::optional`, for a query
/// by one integer whose rows are two texts.
#[verifier::external_body]
pub(crate) fn query_text_pair(conn: &rusqlite::Connection, sql: &str, key: i64) -> Result<
    Option<(String, String)>,
    rusqlite::Error,
> {
    conn.prepare_cached(sql)?.query_one((key,), |row| Ok((row.get(0)?, row.get(1)?))).optional()
}

/// `Statement::query_map`, for a query by one integer whose rows are one
/// text.
#[verifier::external_body]
pub(crate) fn query_texts(conn: &rusqlite::Connection, sql: &str, key: i64) -> Result<
    Vec<String>,
    rusqlite::Error,
> {
    conn.prepare_cached(sql)?.query_map((key,), |row| row.get(0))?.collect()
}

/// `Statement::query_map`, for a query without parameters whose rows are an
/// integer and a text.
#[verifier::external_body]
pub(crate) fn query_integer_text_pairs(conn: &rusqlite::Connection, sql: &str) -> Result<
    Vec<(i64, String)>,
    rusqlite::Error,
> {
    conn.prepare_cached(sql)?.query_map((), |row| Ok((row.get(0)?, row.get(1)?)))?.collect()
}

/// `Connection::query_one` and `OptionalExtension::optional`, for a query
/// without parameters whose rows are one integer.
#[verifier::external_body]
pub(crate) fn query_integer(conn: &rusqlite::Connection, sql: &str) -> Result<
    Option<i64>,
    rusqlite::Error,
> {
    conn.query_one(sql, (), |row| row.get(0)).optional()
}

} // verus!
