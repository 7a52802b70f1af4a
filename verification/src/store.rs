//! The store: the durable item table behind a SQLite connection, and its
//! primitives for reading and writing rows.
//!
//! Every primitive hands the database a statement whose text and parameters
//! verified code has fixed, and turns any failure of the database into a
//! storage failure. What the database makes of a statement is described by
//! the model in [`crate::command`]; that it does so is not proved, so the
//! contracts here speak of what the store itself decides.

use vstd::prelude::*;
use crate::command::Command;
use crate::db::{
    begin,
    commit,
    execute,
    last_insert_rowid,
    prepare,
    query_rows,
    roll_back_on_drop,
    rollback,
};
use crate::error::ServiceError;
use crate::item::{
    decode_rows,
    decoded_rows,
    in_listing_order,
    is_in_listing_order,
    views_of,
    Item,
    RawRow,
    Strategy,
};

verus! {

/// Creates the table, if it is absent, with a position for each row.
pub const SCHEMA_WITH_INDEX_SQL: &'static str =
    "CREATE TABLE IF NOT EXISTS shopping_items (id INTEGER PRIMARY KEY, name TEXT NOT NULL, \
     is_shopped BOOLEAN NOT NULL, order_index INTEGER NOT NULL)";

/// Creates the table, if it is absent, with the identity as the position.
pub const SCHEMA_SQL: &'static str =
    "CREATE TABLE IF NOT EXISTS shopping_items (id INTEGER PRIMARY KEY, name TEXT NOT NULL, \
     is_shopped BOOLEAN NOT NULL)";

/// Reads every row by ascending position; of two rows at one position the
/// one with the larger identity comes first.
pub const LIST_BY_INDEX_SQL: &'static str =
    "SELECT id, name, CAST(is_shopped AS TEXT), order_index FROM shopping_items \
     ORDER BY order_index ASC, id DESC";

/// Reads every row by ascending identity.
pub const LIST_BY_ID_SQL: &'static str =
    "SELECT id, name, CAST(is_shopped AS TEXT), NULL FROM shopping_items ORDER BY id ASC";

/// Reads the rows at either of two identities, by ascending identity.
pub const LOOKUP_SQL: &'static str =
    "SELECT id, name, CAST(is_shopped AS TEXT), NULL FROM shopping_items \
     WHERE id IN (?1, ?2) ORDER BY id ASC";

/// The statement that creates the table.
pub open spec fn schema_statement(strategy: Strategy) -> Seq<char> {
    match strategy {
        Strategy::ExplicitIndex => SCHEMA_WITH_INDEX_SQL@,
        Strategy::IdentitySwap => SCHEMA_SQL@,
    }
}

/// The query that lists the table.
pub open spec fn list_statement(strategy: Strategy) -> Seq<char> {
    match strategy {
        Strategy::ExplicitIndex => LIST_BY_INDEX_SQL@,
        Strategy::IdentitySwap => LIST_BY_ID_SQL@,
    }
}

/// The SQL text that creates the table.
pub fn schema_sql(strategy: Strategy) -> (sql: &'static str)
    ensures
        sql@ == schema_statement(strategy),
{
    match strategy {
        Strategy::ExplicitIndex => SCHEMA_WITH_INDEX_SQL,
        Strategy::IdentitySwap => SCHEMA_SQL,
    }
}

/// The SQL text that lists the table.
pub fn list_sql(strategy: Strategy) -> (sql: &'static str)
    ensures
        sql@ == list_statement(strategy),
{
    match strategy {
        Strategy::ExplicitIndex => LIST_BY_INDEX_SQL,
        Strategy::IdentitySwap => LIST_BY_ID_SQL,
    }
}

/// Turns the rows that a listing query gave into the listing: each row
/// decoded, in the order read. Rows that are not in listing order are a
/// fault of the store.
pub fn listing_of(strategy: Strategy, rows: &Vec<RawRow>) -> (outcome: Result<
    Vec<Item>,
    ServiceError,
>)
    ensures
        match outcome {
            Ok(items) => {
                &&& views_of(items@) == decoded_rows(rows@)
                &&& in_listing_order(strategy, decoded_rows(rows@))
            },
            Err(e) => {
                &&& e == ServiceError::StorageError
                &&& !in_listing_order(strategy, decoded_rows(rows@))
            },
        },
{
    let items = decode_rows(rows);
    if is_in_listing_order(strategy, &items) {
        Ok(items)
    } else {
        Err(ServiceError::StorageError)
    }
}

/// What the store makes of an answer of the database: the answer itself, or
/// a storage failure in place of any failure of the database.
pub fn settled<T>(answer: Result<T, rusqlite::Error>) -> (outcome: Result<T, ServiceError>)
    ensures
        match answer {
            Ok(value) => outcome == Ok::<T, ServiceError>(value),
            Err(_) => outcome == Err::<T, ServiceError>(ServiceError::StorageError),
        },
{
    match answer {
        Ok(value) => Ok(value),
        Err(_) => Err(ServiceError::StorageError),
    }
}

/// Opens a transaction on the connection. What runs on it takes effect when
/// it is committed, and is undone when it is rolled back or dropped.
pub fn begin_transaction<'a>(conn: &'a mut rusqlite::Connection) -> (outcome: Result<
    rusqlite::Transaction<'a>,
    ServiceError,
>)
    ensures
        outcome is Err ==> outcome->Err_0 == ServiceError::StorageError,
{
    settled(begin(conn))
}

/// Commits a transaction. One whose commit fails is rolled back, whatever
/// its owner had set for the time it is dropped.
pub fn commit_transaction(tx: rusqlite::Transaction<'_>) -> (outcome: Result<(), ServiceError>)
    ensures
        outcome is Err ==> outcome == Err::<(), _>(ServiceError::StorageError),
{
    let mut tx = tx;
    roll_back_on_drop(&mut tx);
    settled(commit(tx))
}

/// Rolls a transaction back.
pub fn rollback_transaction(tx: rusqlite::Transaction<'_>) -> (outcome: Result<(), ServiceError>)
    ensures
        outcome is Err ==> outcome == Err::<(), _>(ServiceError::StorageError),
{
    let mut tx = tx;
    roll_back_on_drop(&mut tx);
    settled(rollback(tx))
}

/// Runs one query on the connection and reads the rows of its answer.
pub fn select(conn: &rusqlite::Connection, sql: &str, integers: &Vec<i32>) -> (outcome: Result<
    Vec<RawRow>,
    ServiceError,
>)
    ensures
        outcome is Err ==> outcome == Err::<Vec<RawRow>, _>(ServiceError::StorageError),
{
    let mut statement = match settled(prepare(conn, sql)) {
        Ok(statement) => statement,
        Err(e) => {
            return Err(e);
        },
    };
    settled(query_rows(&mut statement, integers))
}

/// Runs one statement on the connection.
pub fn apply(conn: &rusqlite::Connection, command: &Command) -> (outcome: Result<
    (),
    ServiceError,
>)
    ensures
        outcome is Err ==> outcome == Err::<(), _>(ServiceError::StorageError),
{
    let texts = command.texts();
    let integers = command.integers();
    match settled(execute(conn, command.sql(), &texts, &integers)) {
        Ok(_) => Ok(()),
        Err(e) => Err(e),
    }
}

/// Creates the item table where it does not exist yet.
pub fn create_schema(conn: &rusqlite::Connection, strategy: Strategy) -> (outcome: Result<
    (),
    ServiceError,
>)
    ensures
        outcome is Err ==> outcome == Err::<(), _>(ServiceError::StorageError),
{
    let texts: Vec<String> = Vec::new();
    let integers: Vec<i32> = Vec::new();
    match settled(execute(conn, schema_sql(strategy), &texts, &integers)) {
        Ok(_) => Ok(()),
        Err(e) => Err(e),
    }
}

/// Reads every row, in listing order.
pub fn list_all(conn: &rusqlite::Connection, strategy: Strategy) -> (outcome: Result<
    Vec<Item>,
    ServiceError,
>)
    ensures
        match outcome {
            Ok(items) => in_listing_order(strategy, views_of(items@)),
            Err(e) => e == ServiceError::StorageError,
        },
{
    let integers: Vec<i32> = Vec::new();
    match select(conn, list_sql(strategy), &integers) {
        Ok(rows) => listing_of(strategy, &rows),
        Err(e) => Err(e),
    }
}

/// Adds a row and reports the identity that the store gave it.
pub fn insert(
    conn: &rusqlite::Connection,
    name: &str,
    is_shopped: bool,
    order_index: Option<i32>,
) -> (outcome: Result<i64, ServiceError>)
    ensures
        outcome is Err ==> outcome == Err::<i64, _>(ServiceError::StorageError),
{
    let command = Command::insert(name, is_shopped, order_index);
    match apply(conn, &command) {
        Ok(()) => Ok(last_insert_rowid(conn)),
        Err(e) => Err(e),
    }
}

/// The statement that flips the completion flag of the row at `id`.
pub fn toggle_command(id: i32) -> (command: Command)
    ensures
        command == (Command::Toggle { id }),
{
    Command::Toggle { id }
}

/// Flips the completion flag of the row at `id` in one statement. That no row
/// has this identity is no failure.
pub fn toggle(conn: &rusqlite::Connection, id: i32) -> (outcome: Result<(), ServiceError>)
    ensures
        outcome is Err ==> outcome == Err::<(), _>(ServiceError::StorageError),
{
    apply(conn, &toggle_command(id))
}

} // verus!
