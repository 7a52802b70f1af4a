use rusqlite::Connection;
use shopping_list::command::Command;
use shopping_list::engine::{reorder, run_all, swap};
use shopping_list::error::{ServiceError, SwapError};
use shopping_list::item::{Item, Strategy};
use shopping_list::item::RawRow;
use shopping_list::store::{
    apply, begin_transaction, commit_transaction, create_schema, insert, list_all,
    rollback_transaction, select, settled, toggle, LOOKUP_SQL,
};

fn open(strategy: Strategy) -> Connection {
    let conn = Connection::open_in_memory().unwrap();
    create_schema(&conn, strategy).unwrap();
    conn
}

fn ids_and_names(conn: &Connection, strategy: Strategy) -> Vec<(i32, String)> {
    list_all(conn, strategy)
        .unwrap()
        .into_iter()
        .map(|item| (item.id.unwrap(), item.name))
        .collect()
}

#[test]
fn insert_reports_the_assigned_identity() {
    let conn = open(Strategy::IdentitySwap);
    assert_eq!(insert(&conn, "a", false, None), Ok(1));
    assert_eq!(insert(&conn, "b", true, None), Ok(2));
    assert_eq!(insert(&conn, "c", false, None), Ok(3));
    assert_eq!(
        ids_and_names(&conn, Strategy::IdentitySwap),
        vec![(1, "a".to_string()), (2, "b".to_string()), (3, "c".to_string())]
    );
}

#[test]
fn insert_with_a_position_stores_it() {
    let conn = open(Strategy::ExplicitIndex);
    assert_eq!(insert(&conn, "a", true, Some(5)), Ok(1));
    assert_eq!(
        list_all(&conn, Strategy::ExplicitIndex),
        Ok(vec![Item {
            id: Some(1),
            name: "a".to_string(),
            is_shopped: true,
            order_index: Some(5)
        }])
    );
}

#[test]
fn insert_without_a_position_fails_where_one_is_kept() {
    let conn = open(Strategy::ExplicitIndex);
    assert_eq!(insert(&conn, "a", true, None), Err(ServiceError::StorageError));
    assert_eq!(list_all(&conn, Strategy::ExplicitIndex), Ok(vec![]));
}

#[test]
fn store_toggle_flips_one_row() {
    let conn = open(Strategy::IdentitySwap);
    insert(&conn, "a", false, None).unwrap();
    insert(&conn, "b", false, None).unwrap();
    assert_eq!(toggle(&conn, 2), Ok(()));
    let flags: Vec<bool> =
        list_all(&conn, Strategy::IdentitySwap).unwrap().iter().map(|i| i.is_shopped).collect();
    assert_eq!(flags, vec![false, true]);
}

#[test]
fn move_to_a_free_identity() {
    let conn = open(Strategy::IdentitySwap);
    insert(&conn, "a", false, None).unwrap();
    insert(&conn, "b", false, None).unwrap();
    assert_eq!(apply(&conn, &Command::MoveId { from: 1, to: 7 }), Ok(()));
    assert_eq!(
        ids_and_names(&conn, Strategy::IdentitySwap),
        vec![(2, "b".to_string()), (7, "a".to_string())]
    );
}

#[test]
fn move_to_a_taken_identity_is_refused() {
    let conn = open(Strategy::IdentitySwap);
    insert(&conn, "a", false, None).unwrap();
    insert(&conn, "b", false, None).unwrap();
    assert_eq!(apply(&conn, &Command::MoveId { from: 1, to: 2 }), Err(ServiceError::StorageError));
    assert_eq!(
        ids_and_names(&conn, Strategy::IdentitySwap),
        vec![(1, "a".to_string()), (2, "b".to_string())]
    );
}

#[test]
fn move_of_an_absent_row_changes_nothing() {
    let conn = open(Strategy::IdentitySwap);
    insert(&conn, "a", false, None).unwrap();
    assert_eq!(apply(&conn, &Command::MoveId { from: 5, to: 1 }), Ok(()));
    assert_eq!(apply(&conn, &Command::MoveId { from: 1, to: 1 }), Ok(()));
    assert_eq!(ids_and_names(&conn, Strategy::IdentitySwap), vec![(1, "a".to_string())]);
}

#[test]
fn run_all_stops_at_the_first_failure() {
    let conn = open(Strategy::IdentitySwap);
    insert(&conn, "a", false, None).unwrap();
    insert(&conn, "b", false, None).unwrap();
    let commands = vec![
        Command::MoveId { from: 1, to: 5 },
        Command::MoveId { from: 5, to: 2 },
        Command::MoveId { from: 2, to: 9 },
    ];
    assert_eq!(run_all(&conn, &commands), Err(ServiceError::StorageError));
    assert_eq!(
        ids_and_names(&conn, Strategy::IdentitySwap),
        vec![(2, "b".to_string()), (5, "a".to_string())]
    );
    assert_eq!(run_all(&conn, &vec![]), Ok(()));
}

#[test]
fn engine_reorder_sets_the_position() {
    let conn = open(Strategy::ExplicitIndex);
    insert(&conn, "a", false, Some(1)).unwrap();
    insert(&conn, "b", false, Some(2)).unwrap();
    assert_eq!(reorder(&conn, 1, 3), Ok(()));
    assert_eq!(
        ids_and_names(&conn, Strategy::ExplicitIndex),
        vec![(2, "b".to_string()), (1, "a".to_string())]
    );
}

#[test]
fn engine_swap_of_the_same_pair_in_either_order() {
    let mut conn = open(Strategy::IdentitySwap);
    insert(&conn, "a", false, None).unwrap();
    insert(&conn, "b", false, None).unwrap();
    assert_eq!(swap(&mut conn, 2, 1), Ok(()));
    assert_eq!(
        ids_and_names(&conn, Strategy::IdentitySwap),
        vec![(1, "b".to_string()), (2, "a".to_string())]
    );
    assert_eq!(swap(&mut conn, 1, 2), Ok(()));
    assert_eq!(
        ids_and_names(&conn, Strategy::IdentitySwap),
        vec![(1, "a".to_string()), (2, "b".to_string())]
    );
    assert_eq!(swap(&mut conn, 1, 5), Err(SwapError::NotFound));
}

#[test]
fn rows_with_identities_beyond_the_item_range_fail_the_listing() {
    let conn = open(Strategy::IdentitySwap);
    conn.execute(
        "INSERT INTO shopping_items (id, name, is_shopped) VALUES (4294967296, 'far', 'false')",
        [],
    )
    .unwrap();
    assert_eq!(list_all(&conn, Strategy::IdentitySwap), Err(ServiceError::StorageError));
}

#[test]
fn settled_keeps_answers_and_names_failures() {
    assert_eq!(settled(Ok::<i32, rusqlite::Error>(5)), Ok(5));
    assert_eq!(
        settled(Err::<i32, _>(rusqlite::Error::QueryReturnedNoRows)),
        Err(ServiceError::StorageError)
    );
    assert_eq!(
        settled(Err::<(), _>(rusqlite::Error::InvalidQuery)),
        Err(ServiceError::StorageError)
    );
}

#[test]
fn select_reads_the_rows_as_stored() {
    let conn = open(Strategy::IdentitySwap);
    insert(&conn, "a", false, None).unwrap();
    insert(&conn, "b", true, None).unwrap();
    insert(&conn, "c", true, None).unwrap();
    toggle(&conn, 3).unwrap();
    assert_eq!(
        select(&conn, LOOKUP_SQL, &vec![3, 1]),
        Ok(vec![
            RawRow { id: 1, name: "a".to_string(), flag: "false".to_string(), order_index: None },
            RawRow { id: 3, name: "c".to_string(), flag: "false".to_string(), order_index: None },
        ])
    );
    assert_eq!(select(&conn, LOOKUP_SQL, &vec![8, 9]), Ok(vec![]));
    assert_eq!(select(&conn, LOOKUP_SQL, &vec![1]), Err(ServiceError::StorageError));
    assert_eq!(select(&conn, "SELECT nothing", &vec![]), Err(ServiceError::StorageError));
}

#[test]
fn committed_transaction_keeps_its_statements() {
    let mut conn = open(Strategy::IdentitySwap);
    insert(&conn, "a", false, None).unwrap();
    let tx = begin_transaction(&mut conn).unwrap();
    assert_eq!(apply(&tx, &Command::MoveId { from: 1, to: 4 }), Ok(()));
    assert_eq!(commit_transaction(tx), Ok(()));
    assert_eq!(ids_and_names(&conn, Strategy::IdentitySwap), vec![(4, "a".to_string())]);
    assert!(conn.is_autocommit());
}

#[test]
fn rolled_back_transaction_leaves_the_table_as_it_was() {
    let mut conn = open(Strategy::IdentitySwap);
    insert(&conn, "a", false, None).unwrap();
    let tx = begin_transaction(&mut conn).unwrap();
    assert_eq!(apply(&tx, &Command::MoveId { from: 1, to: 4 }), Ok(()));
    assert_eq!(apply(&tx, &Command::Toggle { id: 4 }), Ok(()));
    assert_eq!(rollback_transaction(tx), Ok(()));
    assert_eq!(
        list_all(&conn, Strategy::IdentitySwap),
        Ok(vec![Item { id: Some(1), name: "a".to_string(), is_shopped: false, order_index: None }])
    );
    assert!(conn.is_autocommit());
}

#[test]
fn dropped_transaction_leaves_the_table_as_it_was() {
    let mut conn = open(Strategy::IdentitySwap);
    insert(&conn, "a", false, None).unwrap();
    {
        let tx = begin_transaction(&mut conn).unwrap();
        assert_eq!(apply(&tx, &Command::MoveId { from: 1, to: 4 }), Ok(()));
    }
    assert_eq!(ids_and_names(&conn, Strategy::IdentitySwap), vec![(1, "a".to_string())]);
    assert!(conn.is_autocommit());
}

#[test]
fn select_reports_unfitting_columns_as_storage_errors() {
    let conn = open(Strategy::IdentitySwap);
    insert(&conn, "a", false, None).unwrap();
    let wrong_types = "SELECT name, id, CAST(is_shopped AS TEXT), NULL FROM shopping_items";
    assert_eq!(select(&conn, wrong_types, &vec![]), Err(ServiceError::StorageError));
    let too_few = "SELECT id, name FROM shopping_items";
    assert_eq!(select(&conn, too_few, &vec![]), Err(ServiceError::StorageError));
    let raw_flag = "SELECT id, name, 1, NULL FROM shopping_items";
    assert_eq!(select(&conn, raw_flag, &vec![]), Err(ServiceError::StorageError));
}

#[test]
fn transactions_finish_whatever_was_set_for_their_drop() {
    let mut conn = open(Strategy::IdentitySwap);
    insert(&conn, "a", false, None).unwrap();
    let mut tx = begin_transaction(&mut conn).unwrap();
    tx.set_drop_behavior(rusqlite::DropBehavior::Panic);
    assert_eq!(apply(&tx, &Command::MoveId { from: 1, to: 4 }), Ok(()));
    assert_eq!(rollback_transaction(tx), Ok(()));
    let mut tx = begin_transaction(&mut conn).unwrap();
    tx.set_drop_behavior(rusqlite::DropBehavior::Panic);
    assert_eq!(apply(&tx, &Command::MoveId { from: 1, to: 5 }), Ok(()));
    assert_eq!(commit_transaction(tx), Ok(()));
    assert_eq!(ids_and_names(&conn, Strategy::IdentitySwap), vec![(5, "a".to_string())]);
}
