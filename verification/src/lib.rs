//! A persistent, ordered list of items kept in one SQLite table.
//!
//! The list is read and changed through [`service`], one operation at a time
//! on a connection that the caller holds. Two ways of keeping the order are
//! covered: a position of its own for each row, which a reorder overwrites,
//! and the identity of a row as its position, where two rows change places by
//! exchanging their identities through a reserved one inside a transaction.
//!
//! What the database does is not proved here. The library proves what it
//! decides itself: how rows are decoded, when a listing is accepted, which
//! statements a request runs, and, over a mathematical model of the table in
//! [`table`], [`command`], [`listing`] and [`history`], what those statements
//! make of the table.

pub mod error;
pub mod text;
pub mod item;
pub mod table;
pub mod command;
pub mod db;
pub mod store;
pub mod engine;
pub mod listing;
pub mod service;
pub mod history;
