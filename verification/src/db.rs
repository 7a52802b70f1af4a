//! The SQLite boundary: the outside types that pass through the library and
//! the calls into `rusqlite`. Nothing here is proved. What a call returns
//! depends on the database, so no contract promises anything of it.

use vstd::prelude::*;
use crate::item::RawRow;

verus! {

/// `rusqlite::Connection`, carried through as an opaque value.
#[verifier::external_type_specification]
#[verifier::external_body]
pub struct ExConnection(rusqlite::Connection);

/// `rusqlite::Transaction`, carried through as an opaque value.
#[verifier::external_type_specification]
#[verifier::external_body]
pub struct ExTransaction<'conn>(rusqlite::Transaction<'conn>);

/// `rusqlite::Statement`, carried through as an opaque value.
#[verifier::external_type_specification]
#[verifier::external_body]
pub struct ExStatement<'conn>(rusqlite::Statement<'conn>);

/// `rusqlite::Error`, told apart from success and never looked into.
#[verifier::external_type_specification]
#[verifier::external_body]
pub struct ExError(rusqlite::Error);

/// `rusqlite::Connection::transaction`: opens a transaction, which rolls back
/// when it is dropped without a commit.
#[verifier::external_body]
pub(crate) fn begin<'a>(conn: &'a mut rusqlite::Connection) -> (opened: Result<
    rusqlite::Transaction<'a>,
    rusqlite::Error,
>) {
    conn.transaction()
}

/// `Deref::deref` of `rusqlite::Transaction`: the connection that the
/// transaction runs on.
#[verifier::external_body]
pub(crate) fn connection_of<'a>(tx: &'a rusqlite::Transaction<'_>) -> (conn:
    &'a rusqlite::Connection) {
    &*tx
}

/// `rusqlite::Transaction::set_drop_behavior` with `DropBehavior::Rollback`:
/// from here on the transaction rolls back when it is dropped unfinished.
#[verifier::external_body]
pub(crate) fn roll_back_on_drop(tx: &mut rusqlite::Transaction<'_>) {
    tx.set_drop_behavior(rusqlite::DropBehavior::Rollback)
}

/// `rusqlite::Transaction::commit`: consumes the transaction and commits it.
#[verifier::external_body]
pub(crate) fn commit(tx: rusqlite::Transaction<'_>) -> (done: Result<(), rusqlite::Error>) {
    tx.commit()
}

/// `rusqlite::Transaction::rollback`: consumes the transaction and rolls it
/// back.
#[verifier::external_body]
pub(crate) fn rollback(tx: rusqlite::Transaction<'_>) -> (done: Result<(), rusqlite::Error>) {
    tx.rollback()
}

/// `rusqlite::Connection::execute`: runs one statement with positional
/// parameters, the texts first and the integers after them, and reports how
/// many rows it changed.
#[verifier::external_body]
pub(crate) fn execute(
    conn: &rusqlite::Connection,
    sql: &str,
    texts: &Vec<String>,
    integers: &Vec<i32>,
) -> (changed: Result<usize, rusqlite::Error>) {
    let texts = texts.iter().map(|text| text as &dyn rusqlite::ToSql);
    let integers = integers.iter().map(|integer| integer as &dyn rusqlite::ToSql);
    conn.execute(sql, rusqlite::params_from_iter(texts.chain(integers)))
}

/// `rusqlite::Connection::prepare`: compiles one statement for this
/// connection.
#[verifier::external_body]
pub(crate) fn prepare<'a>(conn: &'a rusqlite::Connection, sql: &str) -> (prepared: Result<
    rusqlite::Statement<'a>,
    rusqlite::Error,
>) {
    conn.prepare(sql)
}

/// `rusqlite::Statement::query_map`: runs the prepared query with integers
/// as positional parameters and reads each row of the answer as four columns,
/// in the order in which the database gives the rows. Each column is taken
/// with `Row::get_ref` and converted with `FromSql::column_result`, which
/// report a column that is missing or of another type as an error.
#[verifier::external_body]
pub(crate) fn query_rows(statement: &mut rusqlite::Statement<'_>, integers: &Vec<i32>) -> (rows:
    Result<Vec<RawRow>, rusqlite::Error>) {
    let parameters = rusqlite::params_from_iter(integers.iter());
    let read = |row: &rusqlite::Row<'_>| -> rusqlite::Result<RawRow> {
        let id = rusqlite::types::FromSql::column_result(row.get_ref(0)?)?;
        let name = rusqlite::types::FromSql::column_result(row.get_ref(1)?)?;
        let flag = rusqlite::types::FromSql::column_result(row.get_ref(2)?)?;
        let order_index = rusqlite::types::FromSql::column_result(row.get_ref(3)?)?;
        Ok(RawRow { id, name, flag, order_index })
    };
    statement.query_map(parameters, read)?.collect()
}

/// `rusqlite::Connection::last_insert_rowid`: the identity that the most
/// recent successful insert on this connection was given.
#[verifier::external_body]
pub(crate) fn last_insert_rowid(conn: &rusqlite::Connection) -> (id: i64) {
    conn.last_insert_rowid()
}

} // verus!
