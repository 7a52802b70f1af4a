//! The operations of the service as mathematical steps on the table, and
//! what holds after any run of them.

use vstd::prelude::*;
use crate::engine::{lemma_swap_keeps_well_formed, swap_outcome};
use crate::item::{in_listing_order, Strategy};
use crate::listing::{lemma_listing_is_in_order, listing};
use crate::command::{is_insert_of, Command};
use crate::service::{acceptable, kept_position};
use crate::table::{Row, Table};

verus! {

/// One request that changes the list.
pub enum Operation {
    Create { name: Seq<char>, is_shopped: bool, order_index: Option<i32> },
    Toggle { id: i32 },
    Reorder { id: i32, new_order_index: i32 },
    Swap { id_a: i32, id_b: i32 },
}

/// The row that a create stores.
pub open spec fn new_row(
    strategy: Strategy,
    name: Seq<char>,
    is_shopped: bool,
    order_index: Option<i32>,
) -> Row {
    Row {
        name,
        is_shopped,
        order_index: match kept_position(strategy, order_index) {
            Some(at) => at as int,
            None => 0,
        },
    }
}

/// The table after one operation. A create that is not acceptable, and a
/// swap that fails, leave it as it was.
pub open spec fn performed(strategy: Strategy, table: Table, operation: Operation) -> Table {
    match operation {
        Operation::Create { name, is_shopped, order_index } => {
            if acceptable(strategy, name, order_index) {
                table.inserted(new_row(strategy, name, is_shopped, order_index))
            } else {
                table
            }
        },
        Operation::Toggle { id } => table.toggled(id as int),
        Operation::Reorder { id, new_order_index } => table.reindexed(
            id as int,
            new_order_index as int,
        ),
        Operation::Swap { id_a, id_b } => swap_outcome(table, id_a, id_b).0,
    }
}

/// The table after a run of operations, the first applied first.
pub open spec fn replayed(strategy: Strategy, table: Table, operations: Seq<Operation>) -> Table
    decreases operations.len(),
{
    if operations.len() == 0 {
        table
    } else {
        performed(
            strategy,
            replayed(strategy, table, operations.drop_last()),
            operations.last(),
        )
    }
}

/// A create, a toggle and a reorder each make of the table what the one
/// statement makes of it that the service runs for them.
pub proof fn lemma_performed_is_the_effect(
    strategy: Strategy,
    table: Table,
    operation: Operation,
    command: Command,
)
    requires
        match operation {
            Operation::Create { name, is_shopped, order_index } => {
                &&& acceptable(strategy, name, order_index)
                &&& is_insert_of(command, name, is_shopped, kept_position(strategy, order_index))
            },
            Operation::Toggle { id } => command == (Command::Toggle { id }),
            Operation::Reorder { id, new_order_index } => command == (Command::Reindex {
                id,
                new_order_index,
            }),
            Operation::Swap { .. } => false,
        },
    ensures
        command.effect(table) == Some(performed(strategy, table, operation)),
{
}

/// Every operation keeps a well-formed table well-formed.
pub proof fn lemma_performed_keeps_well_formed(
    strategy: Strategy,
    table: Table,
    operation: Operation,
)
    requires
        table.well_formed(),
    ensures
        performed(strategy, table, operation).well_formed(),
{
    match operation {
        Operation::Create { name, is_shopped, order_index } => {
            table.lemma_insert_adds_one_row(new_row(strategy, name, is_shopped, order_index));
        },
        Operation::Toggle { id } => {
            table.lemma_updates_keep_well_formed(id as int, 0);
        },
        Operation::Reorder { id, new_order_index } => {
            table.lemma_updates_keep_well_formed(id as int, new_order_index as int);
        },
        Operation::Swap { id_a, id_b } => {
            lemma_swap_keeps_well_formed(table, id_a, id_b);
        },
    }
}

/// After any run of creates, toggles, reorders and swaps on a well-formed
/// table, the table is well-formed and its listing shows every row once, in
/// ascending order of the column that carries the position.
pub proof fn lemma_listing_order_invariant(
    strategy: Strategy,
    table: Table,
    operations: Seq<Operation>,
)
    requires
        table.well_formed(),
    ensures
        replayed(strategy, table, operations).well_formed(),
        in_listing_order(strategy, listing(replayed(strategy, table, operations), strategy)),
        listing(replayed(strategy, table, operations), strategy).len() == replayed(
            strategy,
            table,
            operations,
        ).rows.dom().len(),
    decreases operations.len(),
{
    if operations.len() > 0 {
        lemma_listing_order_invariant(strategy, table, operations.drop_last());
        lemma_performed_keeps_well_formed(
            strategy,
            replayed(strategy, table, operations.drop_last()),
            operations.last(),
        );
    }
    lemma_listing_is_in_order(replayed(strategy, table, operations), strategy);
}

/// The table without rows is well-formed, so the invariant holds of every
/// run that starts from a new table.
pub proof fn lemma_empty_table_is_well_formed()
    ensures
        Table::empty().well_formed(),
{
}

} // verus!
