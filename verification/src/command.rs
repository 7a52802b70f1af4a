//! The statements that change the item table, as values: the SQL text and
//! the parameters that each is run with, and what each does to the table.

use vstd::prelude::*;
use vstd::string::*;
use crate::table::{Row, Table};
use crate::text::{encode_flag, flag_text};

verus! {

/// Adds a row whose position is its identity.
pub const INSERT_SQL: &'static str =
    "INSERT INTO shopping_items (name, is_shopped) VALUES (?1, ?2)";

/// Adds a row with a position of its own.
pub const INSERT_AT_SQL: &'static str =
    "INSERT INTO shopping_items (name, is_shopped, order_index) VALUES (?1, ?2, ?3)";

/// Flips the completion flag of one row, read as the listing reads it.
pub const TOGGLE_SQL: &'static str =
    "UPDATE shopping_items SET is_shopped = \
     CASE WHEN lower(CAST(is_shopped AS TEXT)) IN ('true', '1') THEN 'false' ELSE 'true' END \
     WHERE id = ?1";

/// Gives one row a new position.
pub const REINDEX_SQL: &'static str = "UPDATE shopping_items SET order_index = ?1 WHERE id = ?2";

/// Gives one row a new identity.
pub const MOVE_SQL: &'static str = "UPDATE shopping_items SET id = ?1 WHERE id = ?2";

/// One statement that changes the table.
#[derive(Debug, PartialEq, Eq)]
pub enum Command {
    /// Add a row; the store picks its identity.
    Insert { name: String, is_shopped: bool, order_index: Option<i32> },
    /// Flip the completion flag of the row at `id`.
    Toggle { id: i32 },
    /// Set the position of the row at `id`.
    Reindex { id: i32, new_order_index: i32 },
    /// Give the row at `from` the identity `to`.
    MoveId { from: i32, to: i32 },
}

/// Whether a statement is the insert of a row with this name, flag and
/// position.
pub open spec fn is_insert_of(
    command: Command,
    name: Seq<char>,
    is_shopped: bool,
    order_index: Option<i32>,
) -> bool {
    match command {
        Command::Insert { name: n, is_shopped: s, order_index: o } => {
            n@ == name && s == is_shopped && o == order_index
        },
        _ => false,
    }
}

impl Command {
    /// The insert of a row with this name, flag and position.
    pub fn insert(name: &str, is_shopped: bool, order_index: Option<i32>) -> (command: Command)
        ensures
            is_insert_of(command, name@, is_shopped, order_index),
    {
        Command::Insert { name: String::from_str(name), is_shopped, order_index }
    }

    /// The SQL text of the statement.
    pub open spec fn statement(self) -> Seq<char> {
        match self {
            Command::Insert { order_index: None, .. } => INSERT_SQL@,
            Command::Insert { order_index: Some(_), .. } => INSERT_AT_SQL@,
            Command::Toggle { .. } => TOGGLE_SQL@,
            Command::Reindex { .. } => REINDEX_SQL@,
            Command::MoveId { .. } => MOVE_SQL@,
        }
    }

    /// The text parameters, which are bound first.
    pub open spec fn text_parameters(self) -> Seq<Seq<char>> {
        match self {
            Command::Insert { name, is_shopped, .. } => seq![name@, flag_text(is_shopped)],
            _ => seq![],
        }
    }

    /// The integer parameters, which are bound after the texts.
    pub open spec fn integer_parameters(self) -> Seq<i32> {
        match self {
            Command::Insert { order_index: None, .. } => seq![],
            Command::Insert { order_index: Some(k), .. } => seq![k],
            Command::Toggle { id } => seq![id],
            Command::Reindex { id, new_order_index } => seq![new_order_index, id],
            Command::MoveId { from, to } => seq![to, from],
        }
    }

    /// What the statement does to a table of the shape it is written for, or
    /// `None` where the store refuses it because two rows would share an
    /// identity. An insert without a position is an insert into a table that
    /// keeps none; the model gives such a row the position 0, which no
    /// listing by identity shows. That a table which keeps positions refuses
    /// such an insert is not part of the model.
    pub open spec fn effect(self, table: Table) -> Option<Table> {
        match self {
            Command::Insert { name, is_shopped, order_index } => Some(
                table.inserted(
                    Row {
                        name: name@,
                        is_shopped,
                        order_index: match order_index {
                            Some(k) => k as int,
                            None => 0,
                        },
                    },
                ),
            ),
            Command::Toggle { id } => Some(table.toggled(id as int)),
            Command::Reindex { id, new_order_index } => Some(
                table.reindexed(id as int, new_order_index as int),
            ),
            Command::MoveId { from, to } => table.moved(from as int, to as int),
        }
    }

    /// The SQL text to run.
    pub fn sql(&self) -> (sql: &'static str)
        ensures
            sql@ == self.statement(),
    {
        match self {
            Command::Insert { order_index: None, .. } => INSERT_SQL,
            Command::Insert { order_index: Some(_), .. } => INSERT_AT_SQL,
            Command::Toggle { .. } => TOGGLE_SQL,
            Command::Reindex { .. } => REINDEX_SQL,
            Command::MoveId { .. } => MOVE_SQL,
        }
    }

    /// The texts to bind, in order.
    pub fn texts(&self) -> (texts: Vec<String>)
        ensures
            texts@.len() == self.text_parameters().len(),
            forall|i: int| 0 <= i < texts@.len() ==> texts@[i]@ == self.text_parameters()[i],
    {
        let mut texts: Vec<String> = Vec::new();
        match self {
            Command::Insert { name, is_shopped, .. } => {
                texts.push(name.clone());
                texts.push(encode_flag(*is_shopped));
            },
            _ => {},
        }
        texts
    }

    /// The integers to bind, in order.
    pub fn integers(&self) -> (integers: Vec<i32>)
        ensures
            integers@ == self.integer_parameters(),
    {
        let mut integers: Vec<i32> = Vec::new();
        match self {
            Command::Insert { order_index: None, .. } => {},
            Command::Insert { order_index: Some(k), .. } => {
                integers.push(*k);
            },
            Command::Toggle { id } => {
                integers.push(*id);
            },
            Command::Reindex { id, new_order_index } => {
                integers.push(*new_order_index);
                integers.push(*id);
            },
            Command::MoveId { from, to } => {
                integers.push(*to);
                integers.push(*from);
            },
        }
        proof {
            assert(integers@ =~= self.integer_parameters());
        }
        integers
    }
}

/// What a run of statements does to the table when each is applied to the
/// result of the one before, or `None` as soon as the store refuses one.
pub open spec fn run(table: Table, commands: Seq<Command>) -> Option<Table>
    decreases commands.len(),
{
    if commands.len() == 0 {
        Some(table)
    } else {
        match commands[0].effect(table) {
            Some(next) => run(next, commands.drop_first()),
            None => None,
        }
    }
}

/// What a transaction over a run of statements leaves behind: the result of
/// all of them, or the table as it was.
pub open spec fn transact(table: Table, commands: Seq<Command>) -> Table {
    match run(table, commands) {
        Some(done) => done,
        None => table,
    }
}

/// Two toggles of one identity in a row leave the table as it was.
pub proof fn lemma_toggle_twice(table: Table, id: i32)
    ensures
        run(table, seq![(Command::Toggle { id }), (Command::Toggle { id })]) == Some(table),
{
    let twice = seq![(Command::Toggle { id }), (Command::Toggle { id })];
    reveal_with_fuel(run, 3);
    assert(twice.drop_first() =~= seq![(Command::Toggle { id })]);
    assert(twice.drop_first().drop_first() =~= Seq::<Command>::empty());
    table.lemma_toggle_twice(id as int);
}

/// A toggle of an identity that the table lacks is accepted and leaves the
/// table as it was.
pub proof fn lemma_toggle_absent(table: Table, id: i32)
    requires
        !table.contains(id as int),
    ensures
        (Command::Toggle { id }).effect(table) == Some(table),
{
}

} // verus!
