//! The item service: the operations that a request can ask for. Each takes
//! the connection for the time of one operation; a mutable borrow stands for
//! the exclusive access under which the store is written.
//!
//! Whether an operation succeeds is the database's to decide, so no contract
//! here promises success. What the operations make of the table is stated
//! over the model, in [`crate::history`].

use vstd::prelude::*;
use crate::engine;
use crate::error::{ServiceError, SwapError};
use crate::item::{in_listing_order, views_of, Item, Strategy};
use crate::store;

verus! {

/// Whether a new item may be stored: its name is not empty, and it has a
/// position where the table keeps positions.
pub open spec fn acceptable(strategy: Strategy, name: Seq<char>, order_index: Option<i32>) -> bool {
    &&& name.len() > 0
    &&& strategy == Strategy::ExplicitIndex ==> order_index is Some
}

/// The position that is stored with a new item: the one that came with the
/// request where the table keeps positions, and none where it does not.
pub open spec fn kept_position(strategy: Strategy, order_index: Option<i32>) -> Option<i32> {
    match strategy {
        Strategy::ExplicitIndex => order_index,
        Strategy::IdentitySwap => None,
    }
}

/// Decides what is stored for a new item: its position where the item is
/// acceptable, and a validation failure where it is not.
pub fn validate_new_item(
    strategy: Strategy,
    name: &str,
    order_index: Option<i32>,
) -> (outcome: Result<Option<i32>, ServiceError>)
    ensures
        outcome == if acceptable(strategy, name@, order_index) {
            Ok::<Option<i32>, ServiceError>(kept_position(strategy, order_index))
        } else {
            Err::<Option<i32>, ServiceError>(ServiceError::ValidationError)
        },
{
    if name.is_empty() {
        return Err(ServiceError::ValidationError);
    }
    match strategy {
        Strategy::IdentitySwap => Ok(None),
        Strategy::ExplicitIndex => match order_index {
            Some(at) => Ok(Some(at)),
            None => Err(ServiceError::ValidationError),
        },
    }
}

/// The list in its current order.
pub fn list(conn: &rusqlite::Connection, strategy: Strategy) -> (outcome: Result<
    Vec<Item>,
    ServiceError,
>)
    ensures
        match outcome {
            Ok(items) => in_listing_order(strategy, views_of(items@)),
            Err(e) => e == ServiceError::StorageError,
        },
{
    store::list_all(conn, strategy)
}

/// Adds an item and reports the identity that the store gave it. An item that
/// is not acceptable is rejected before the store is touched. Where the
/// identity is the position, a position that came with the request is
/// ignored.
pub fn create(
    conn: &mut rusqlite::Connection,
    strategy: Strategy,
    name: &str,
    is_shopped: bool,
    order_index: Option<i32>,
) -> (outcome: Result<i64, ServiceError>)
    ensures
        outcome == Err::<i64, _>(ServiceError::ValidationError) <==> !acceptable(
            strategy,
            name@,
            order_index,
        ),
{
    match validate_new_item(strategy, name, order_index) {
        Ok(position) => store::insert(&*conn, name, is_shopped, position),
        Err(e) => Err(e),
    }
}

/// Flips the completion flag of the item at `id`. That no item has this
/// identity is no failure.
pub fn toggle(conn: &mut rusqlite::Connection, id: i32) -> (outcome: Result<(), ServiceError>)
    ensures
        outcome is Err ==> outcome == Err::<(), _>(ServiceError::StorageError),
{
    store::toggle(&*conn, id)
}

/// Gives the item at `id` a new position.
pub fn reorder(conn: &mut rusqlite::Connection, id: i32, new_order_index: i32) -> (outcome: Result<
    (),
    ServiceError,
>)
    ensures
        outcome is Err ==> outcome == Err::<(), _>(ServiceError::StorageError),
{
    engine::reorder(&*conn, id, new_order_index)
}

/// Exchanges the places of the items at `id_a` and `id_b`, all or nothing.
/// Only a swap of two different identities can succeed.
pub fn swap(conn: &mut rusqlite::Connection, id_a: i32, id_b: i32) -> (outcome: Result<
    (),
    SwapError,
>)
    ensures
        outcome is Ok ==> id_a != id_b,
{
    engine::swap(conn, id_a, id_b)
}

} // verus!
