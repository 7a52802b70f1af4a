//! The reordering engine: a direct update of one row's position, and the
//! exchange of two rows' identities through a reserved identity, inside one
//! transaction.
//!
//! The exchange is decided by [`plan_from_lookup`] from the two identities
//! asked for and what the lookup read back, and every failure of a step is
//! reported through [`step_report`]. That the three moves exchange the two
//! rows and touch no other, and that a swap which cannot be carried out
//! leaves the table as it was, is proved over the model of the table.

use vstd::prelude::*;
use crate::command::{run, transact, Command};
use crate::db::connection_of;
use crate::error::{ServiceError, SwapError};
use crate::item::RawRow;
use crate::store::{
    apply,
    begin_transaction,
    commit_transaction,
    rollback_transaction,
    select,
    LOOKUP_SQL,
};
use crate::table::Table;

verus! {

/// The identity at which a row is parked while two rows change places. No
/// row of a well-formed table stands there.
pub const SENTINEL_ID: i32 = -1;

/// The three moves that exchange the rows at `lo` and `hi`: park the row at
/// `lo`, bring the row at `hi` down to `lo`, and set the parked row at `hi`.
pub open spec fn swap_steps(lo: i32, hi: i32) -> Seq<Command> {
    seq![
        Command::MoveId { from: lo, to: SENTINEL_ID },
        Command::MoveId { from: hi, to: lo },
        Command::MoveId { from: SENTINEL_ID, to: hi },
    ]
}

/// The plan for a swap, from the identities that the lookup read back: the
/// three moves where it read exactly two, and `NotFound` otherwise.
pub open spec fn planned(found: Seq<i32>) -> Result<Seq<Command>, SwapError> {
    if found.len() == 2 {
        Ok(swap_steps(found[0], found[1]))
    } else {
        Err(SwapError::NotFound)
    }
}

/// The smaller of two identities.
pub open spec fn lower_of(a: i32, b: i32) -> i32 {
    if a <= b {
        a
    } else {
        b
    }
}

/// The larger of two identities.
pub open spec fn higher_of(a: i32, b: i32) -> i32 {
    if a <= b {
        b
    } else {
        a
    }
}

/// Whether `found` can be what a lookup of `a` and `b` read back: no row, one
/// row at either identity, or, where the two differ, the rows at both, the
/// lower first.
pub open spec fn answers(a: i32, b: i32, found: Seq<i32>) -> bool {
    if found.len() == 0 {
        true
    } else if found.len() == 1 {
        found[0] == a || found[0] == b
    } else if found.len() == 2 {
        a != b && found[0] == lower_of(a, b) && found[1] == higher_of(a, b)
    } else {
        false
    }
}

/// What a swap of `a` and `b` makes of the lookup's answer: a storage failure
/// where the lookup failed or read back what was not asked for, and
/// otherwise the plan for the identities read back.
pub open spec fn planned_for(a: i32, b: i32, answer: Result<Seq<i32>, ServiceError>) -> Result<
    Seq<Command>,
    SwapError,
> {
    match answer {
        Err(_) => Err(SwapError::StorageError),
        Ok(found) => if answers(a, b, found) {
            planned(found)
        } else {
            Err(SwapError::StorageError)
        },
    }
}

/// The identities that a lookup's answer holds, where it has one.
pub open spec fn found_in(answer: Result<Vec<RawRow>, ServiceError>) -> Result<
    Seq<i32>,
    ServiceError,
> {
    match answer {
        Ok(rows) => Ok(ids_of(rows@)),
        Err(e) => Err(e),
    }
}

/// The identities among `a` and `b` at which the table holds a row, in
/// ascending order: what the lookup of a swap reads back.
pub open spec fn matching(table: Table, a: i32, b: i32) -> Seq<i32> {
    let lo = lower_of(a, b);
    let hi = higher_of(a, b);
    let low = if table.contains(lo as int) {
        seq![lo]
    } else {
        seq![]
    };
    let high = if lo != hi && table.contains(hi as int) {
        seq![hi]
    } else {
        seq![]
    };
    low + high
}

/// What a swap of `a` and `b` makes of a table, and what it reports: the
/// lookup, the plan, and the plan run as one transaction.
pub open spec fn swap_outcome(table: Table, a: i32, b: i32) -> (Table, Result<(), SwapError>) {
    match planned_for(a, b, Ok(matching(table, a, b))) {
        Err(e) => (table, Err(e)),
        Ok(steps) => match run(table, steps) {
            Some(done) => (done, Ok(())),
            None => (table, Err(SwapError::StorageError)),
        },
    }
}

/// What a reorder makes of a table: its one statement, run on its own.
pub open spec fn reorder_outcome(table: Table, id: i32, new_order_index: i32) -> Table {
    transact(table, seq![(Command::Reindex { id, new_order_index })])
}

/// The identities of the rows that a lookup read, in the order read.
pub open spec fn ids_of(rows: Seq<RawRow>) -> Seq<i32> {
    rows.map_values(|row: RawRow| row.id)
}

/// Picks the identities out of the rows of a lookup.
pub fn found_ids(rows: &Vec<RawRow>) -> (ids: Vec<i32>)
    ensures
        ids@ == ids_of(rows@),
{
    let mut ids: Vec<i32> = Vec::new();
    let mut k: usize = 0;
    while k < rows.len()
        invariant
            k <= rows@.len(),
            ids@.len() == k,
            forall|i: int| 0 <= i < k ==> ids@[i] == rows@[i].id,
        decreases rows@.len() - k,
    {
        ids.push(rows[k].id);
        k += 1;
    }
    proof {
        assert(ids@ =~= ids_of(rows@));
    }
    ids
}

/// Decides a swap from the identities that the lookup read back, lowest
/// first: with exactly two, the three moves that exchange them; with fewer or
/// more, `NotFound` and no statement at all.
pub fn swap_plan(found: &Vec<i32>) -> (plan: Result<Vec<Command>, SwapError>)
    ensures
        match plan {
            Ok(steps) => planned(found@) == Ok::<Seq<Command>, SwapError>(steps@),
            Err(e) => planned(found@) == Err::<Seq<Command>, SwapError>(e),
        },
{
    if found.len() != 2 {
        return Err(SwapError::NotFound);
    }
    let lo: i32 = found[0];
    let hi: i32 = found[1];
    let mut steps: Vec<Command> = Vec::new();
    steps.push(Command::MoveId { from: lo, to: SENTINEL_ID });
    steps.push(Command::MoveId { from: hi, to: lo });
    steps.push(Command::MoveId { from: SENTINEL_ID, to: hi });
    proof {
        assert(steps@ =~= swap_steps(lo, hi));
    }
    Ok(steps)
}

/// The parameters of the lookup of a swap: the two identities asked for.
pub fn lookup_parameters(id_a: i32, id_b: i32) -> (wanted: Vec<i32>)
    ensures
        wanted@ == seq![id_a, id_b],
{
    let mut wanted: Vec<i32> = Vec::new();
    wanted.push(id_a);
    wanted.push(id_b);
    proof {
        assert(wanted@ =~= seq![id_a, id_b]);
    }
    wanted
}

/// Whether the identities read back answer a lookup of `id_a` and `id_b`.
pub fn is_answer(id_a: i32, id_b: i32, found: &Vec<i32>) -> (fits: bool)
    ensures
        fits == answers(id_a, id_b, found@),
{
    if found.len() == 0 {
        true
    } else if found.len() == 1 {
        found[0] == id_a || found[0] == id_b
    } else if found.len() == 2 {
        let lo: i32 = if id_a <= id_b {
            id_a
        } else {
            id_b
        };
        let hi: i32 = if id_a <= id_b {
            id_b
        } else {
            id_a
        };
        id_a != id_b && found[0] == lo && found[1] == hi
    } else {
        false
    }
}

/// Decides a swap of `id_a` and `id_b` from the answer of the lookup. A
/// failed lookup, and rows that were not asked for, are a storage failure;
/// fewer than two rows are `NotFound`; the rows at both identities give the
/// three moves that exchange them, the lower parked first.
pub fn plan_from_lookup(id_a: i32, id_b: i32, answer: Result<Vec<RawRow>, ServiceError>) -> (plan:
    Result<Vec<Command>, SwapError>)
    ensures
        match plan {
            Ok(steps) => {
                &&& planned_for(id_a, id_b, found_in(answer)) == Ok::<Seq<Command>, SwapError>(
                    steps@,
                )
                &&& steps@ == swap_steps(lower_of(id_a, id_b), higher_of(id_a, id_b))
                &&& id_a != id_b
            },
            Err(e) => planned_for(id_a, id_b, found_in(answer)) == Err::<Seq<Command>, SwapError>(
                e,
            ),
        },
{
    let rows = match answer {
        Ok(rows) => rows,
        Err(_) => {
            return Err(SwapError::StorageError);
        },
    };
    let found = found_ids(&rows);
    if !is_answer(id_a, id_b, &found) {
        return Err(SwapError::StorageError);
    }
    swap_plan(&found)
}

/// What a swap reports of a step that ended this way: what the step gave, or
/// a storage failure in place of any failure of the step.
pub fn step_report<T>(answer: Result<T, ServiceError>) -> (report: Result<T, SwapError>)
    ensures
        match answer {
            Ok(value) => report == Ok::<T, SwapError>(value),
            Err(_) => report == Err::<T, SwapError>(SwapError::StorageError),
        },
{
    match answer {
        Ok(value) => Ok(value),
        Err(_) => Err(SwapError::StorageError),
    }
}

/// The statement that gives the row at `id` the position `new_order_index`.
pub fn reorder_command(id: i32, new_order_index: i32) -> (command: Command)
    ensures
        command == (Command::Reindex { id, new_order_index }),
{
    Command::Reindex { id, new_order_index }
}

/// Runs the statements in order and stops at the first that fails. A run of
/// no statements succeeds unasked; of any other the database decides.
pub fn run_all(conn: &rusqlite::Connection, commands: &Vec<Command>) -> (outcome: Result<
    (),
    ServiceError,
>)
    ensures
        commands@.len() == 0 ==> outcome is Ok,
        outcome is Err ==> outcome == Err::<(), _>(ServiceError::StorageError),
{
    let mut k: usize = 0;
    while k < commands.len()
        invariant
            k <= commands@.len(),
        decreases commands@.len() - k,
    {
        match apply(conn, &commands[k]) {
            Ok(()) => {},
            Err(e) => {
                return Err(e);
            },
        }
        k += 1;
    }
    Ok(())
}

/// Gives the row at `id` a new position, in one statement. That no row has
/// this identity is no failure.
pub fn reorder(conn: &rusqlite::Connection, id: i32, new_order_index: i32) -> (outcome: Result<
    (),
    ServiceError,
>)
    ensures
        outcome is Err ==> outcome == Err::<(), _>(ServiceError::StorageError),
{
    apply(conn, &reorder_command(id, new_order_index))
}

/// The statements of a swap, on a connection on which a transaction is open:
/// looks the two rows up, decides, and runs the moves. It stops at the first
/// failure and leaves the rollback to its caller. Only a swap of two
/// different identities can succeed.
fn exchange(conn: &rusqlite::Connection, id_a: i32, id_b: i32) -> (outcome: Result<(), SwapError>)
    ensures
        outcome is Ok ==> id_a != id_b,
{
    let wanted = lookup_parameters(id_a, id_b);
    let answer = select(conn, LOOKUP_SQL, &wanted);
    match plan_from_lookup(id_a, id_b, answer) {
        Ok(steps) => step_report(run_all(conn, &steps)),
        Err(e) => Err(e),
    }
}

/// Exchanges the places of the rows at `id_a` and `id_b` in one transaction:
/// looks both up, and moves them through the reserved identity. Where fewer
/// than two rows match, or a step fails, the transaction is rolled back and
/// nothing of the swap remains. Only a swap of two different identities can
/// succeed; whether it does is the database's to decide.
pub fn swap(conn: &mut rusqlite::Connection, id_a: i32, id_b: i32) -> (outcome: Result<
    (),
    SwapError,
>)
    ensures
        outcome is Ok ==> id_a != id_b,
{
    let tx = match step_report(begin_transaction(conn)) {
        Ok(tx) => tx,
        Err(e) => {
            return Err(e);
        },
    };
    match exchange(connection_of(&tx), id_a, id_b) {
        Ok(()) => step_report(commit_transaction(tx)),
        Err(e) => {
            let _ = rollback_transaction(tx);
            Err(e)
        },
    }
}

/// After a swap of two different identities that are both in a well-formed
/// table, the row at each holds what the row at the other held, no other row
/// has changed, and the table has the same identities as before.
pub proof fn lemma_swap_exchanges(table: Table, a: i32, b: i32)
    requires
        table.well_formed(),
        table.contains(a as int),
        table.contains(b as int),
        a != b,
    ensures
        swap_outcome(table, a, b) == (table.exchanged(a as int, b as int), Ok::<(), SwapError>(())),
        swap_outcome(table, a, b).0.well_formed(),
        swap_outcome(table, a, b).0.rows.dom() == table.rows.dom(),
        swap_outcome(table, a, b).0.row(a as int) == table.row(b as int),
        swap_outcome(table, a, b).0.row(b as int) == table.row(a as int),
        forall|id: int|
            id != a && id != b && table.contains(id) ==> swap_outcome(table, a, b).0.row(id)
                == table.row(id),
{
    let lo = if a <= b {
        a
    } else {
        b
    };
    let hi = if a <= b {
        b
    } else {
        a
    };
    assert(matching(table, a, b) =~= seq![lo, hi]);
    let steps = swap_steps(lo, hi);
    let parked = table.moved(lo as int, SENTINEL_ID as int)->0;
    let shifted = parked.moved(hi as int, lo as int)->0;
    let landed = shifted.moved(SENTINEL_ID as int, hi as int)->0;
    assert(landed =~= table.exchanged(a as int, b as int));
    assert(landed.rows.dom() =~= table.rows.dom());
    reveal_with_fuel(run, 4);
    assert(steps.drop_first() =~= seq![steps[1], steps[2]]);
    assert(steps.drop_first().drop_first() =~= seq![steps[2]]);
    assert(steps.drop_first().drop_first().drop_first() =~= Seq::<Command>::empty());
}

/// What the lookup reads back from a table answers the lookup, so a swap on
/// the model never fails for an answer that does not fit.
pub proof fn lemma_lookup_answers(table: Table, a: i32, b: i32)
    ensures
        answers(a, b, matching(table, a, b)),
        planned_for(a, b, Ok(matching(table, a, b))) == planned(matching(table, a, b)),
{
}

/// A swap in which either identity is absent from the table reports
/// `NotFound` and leaves the table as it was.
pub proof fn lemma_swap_not_found(table: Table, a: i32, b: i32)
    requires
        !table.contains(a as int) || !table.contains(b as int),
    ensures
        swap_outcome(table, a, b) == (table, Err::<(), SwapError>(SwapError::NotFound)),
{
    assert(matching(table, a, b).len() <= 1);
}

/// A swap of an identity with itself reports `NotFound` and leaves the table
/// as it was: the lookup reads at most one row.
pub proof fn lemma_swap_with_itself(table: Table, a: i32)
    ensures
        swap_outcome(table, a, a) == (table, Err::<(), SwapError>(SwapError::NotFound)),
{
    assert(matching(table, a, a).len() <= 1);
}

/// A swap keeps a well-formed table well-formed, whatever it reports: no row
/// is left at the reserved identity, and none is lost.
pub proof fn lemma_swap_keeps_well_formed(table: Table, a: i32, b: i32)
    requires
        table.well_formed(),
    ensures
        swap_outcome(table, a, b).0.well_formed(),
        swap_outcome(table, a, b).0.rows.dom() == table.rows.dom(),
{
    if table.contains(a as int) && table.contains(b as int) && a != b {
        lemma_swap_exchanges(table, a, b);
    } else if a == b {
        lemma_swap_with_itself(table, a);
    } else {
        lemma_swap_not_found(table, a, b);
    }
}

/// A swap that reports a failure has left the table as it was.
pub proof fn lemma_swap_all_or_nothing(table: Table, a: i32, b: i32)
    ensures
        swap_outcome(table, a, b).1 is Err ==> swap_outcome(table, a, b).0 == table,
{
}

/// A reorder touches one row: it sets the position of the row at `id` and
/// changes nothing else. A table without that row stays as it is.
pub proof fn lemma_reorder_touches_one_row(table: Table, id: i32, new_order_index: i32)
    ensures
        reorder_outcome(table, id, new_order_index).rows.dom() == table.rows.dom(),
        table.contains(id as int) ==> {
            let after = reorder_outcome(table, id, new_order_index).row(id as int);
            &&& after.order_index == new_order_index
            &&& after.name == table.row(id as int).name
            &&& after.is_shopped == table.row(id as int).is_shopped
        },
        forall|other: int|
            other != id && table.contains(other) ==> reorder_outcome(
                table,
                id,
                new_order_index,
            ).row(other) == table.row(other),
        !table.contains(id as int) ==> reorder_outcome(table, id, new_order_index) == table,
{
    reveal_with_fuel(run, 2);
    let steps = seq![(Command::Reindex { id, new_order_index })];
    assert(steps.drop_first() =~= Seq::<Command>::empty());
    assert(reorder_outcome(table, id, new_order_index) == table.reindexed(
        id as int,
        new_order_index as int,
    ));
    assert(table.reindexed(id as int, new_order_index as int).rows.dom() =~= table.rows.dom());
}

} // verus!
