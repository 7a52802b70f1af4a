use rusqlite::Connection;
use shopping_list::error::{ServiceError, SwapError};
use shopping_list::item::{Item, Strategy};
use shopping_list::service::{create, list, reorder, swap, toggle};
use shopping_list::store::create_schema;

fn open(strategy: Strategy) -> Connection {
    let conn = Connection::open_in_memory().unwrap();
    create_schema(&conn, strategy).unwrap();
    conn
}

fn names(items: &[Item]) -> Vec<String> {
    items.iter().map(|item| item.name.clone()).collect()
}

#[test]
fn empty_table_lists_nothing() {
    let conn = open(Strategy::IdentitySwap);
    assert_eq!(list(&conn, Strategy::IdentitySwap), Ok(vec![]));
    let conn = open(Strategy::ExplicitIndex);
    assert_eq!(list(&conn, Strategy::ExplicitIndex), Ok(vec![]));
}

#[test]
fn schema_creation_is_idempotent() {
    let mut conn = open(Strategy::IdentitySwap);
    create(&mut conn, Strategy::IdentitySwap, "milk", false, None).unwrap();
    assert_eq!(create_schema(&conn, Strategy::IdentitySwap), Ok(()));
    assert_eq!(list(&conn, Strategy::IdentitySwap).unwrap().len(), 1);
}

#[test]
fn create_toggle_swap_scenario() {
    let s = Strategy::IdentitySwap;
    let mut conn = open(s);
    assert_eq!(create(&mut conn, s, "milk", false, None), Ok(1));
    assert_eq!(create(&mut conn, s, "bread", false, None), Ok(2));
    assert_eq!(
        list(&conn, s).unwrap(),
        vec![
            Item { id: Some(1), name: "milk".to_string(), is_shopped: false, order_index: None },
            Item { id: Some(2), name: "bread".to_string(), is_shopped: false, order_index: None },
        ]
    );

    assert_eq!(toggle(&mut conn, 1), Ok(()));
    let items = list(&conn, s).unwrap();
    assert_eq!(items[0].id, Some(1));
    assert_eq!(items[0].is_shopped, true);
    assert_eq!(items[1].is_shopped, false);

    assert_eq!(swap(&mut conn, 1, 2), Ok(()));
    assert_eq!(
        list(&conn, s).unwrap(),
        vec![
            Item { id: Some(1), name: "bread".to_string(), is_shopped: false, order_index: None },
            Item { id: Some(2), name: "milk".to_string(), is_shopped: true, order_index: None },
        ]
    );
}

#[test]
fn reorder_scenario_with_explicit_index() {
    let s = Strategy::ExplicitIndex;
    let mut conn = open(s);
    let first = create(&mut conn, s, "first", false, Some(0)).unwrap();
    let second = create(&mut conn, s, "second", false, Some(1)).unwrap();
    let third = create(&mut conn, s, "third", false, Some(2)).unwrap();
    assert_eq!((first, second, third), (1, 2, 3));
    assert_eq!(names(&list(&conn, s).unwrap()), vec!["first", "second", "third"]);

    assert_eq!(reorder(&mut conn, 3, 0), Ok(()));
    let items = list(&conn, s).unwrap();
    assert_eq!(names(&items), vec!["third", "first", "second"]);
    assert_eq!(items[0].order_index, Some(0));
    assert_eq!(items[1].order_index, Some(0));
    assert_eq!(items[2].order_index, Some(1));
}

#[test]
fn listing_is_ascending_after_mixed_operations() {
    let s = Strategy::IdentitySwap;
    let mut conn = open(s);
    for name in ["a", "b", "c", "d", "e"] {
        create(&mut conn, s, name, false, None).unwrap();
    }
    swap(&mut conn, 5, 1).unwrap();
    toggle(&mut conn, 3).unwrap();
    swap(&mut conn, 2, 4).unwrap();
    create(&mut conn, s, "f", true, None).unwrap();
    let items = list(&conn, s).unwrap();
    let ids: Vec<Option<i32>> = items.iter().map(|item| item.id).collect();
    assert_eq!(ids, vec![Some(1), Some(2), Some(3), Some(4), Some(5), Some(6)]);
    assert_eq!(names(&items), vec!["e", "d", "c", "b", "a", "f"]);
    let flags: Vec<bool> = items.iter().map(|item| item.is_shopped).collect();
    assert_eq!(flags, vec![false, false, true, false, false, true]);
}

#[test]
fn listing_by_index_is_ascending_after_reorders() {
    let s = Strategy::ExplicitIndex;
    let mut conn = open(s);
    create(&mut conn, s, "a", false, Some(10)).unwrap();
    create(&mut conn, s, "b", false, Some(-3)).unwrap();
    create(&mut conn, s, "c", false, Some(7)).unwrap();
    reorder(&mut conn, 1, 0).unwrap();
    let items = list(&conn, s).unwrap();
    let positions: Vec<Option<i32>> = items.iter().map(|item| item.order_index).collect();
    assert_eq!(positions, vec![Some(-3), Some(0), Some(7)]);
    assert_eq!(names(&items), vec!["b", "a", "c"]);
}

#[test]
fn toggle_twice_restores_the_flag() {
    let s = Strategy::IdentitySwap;
    let mut conn = open(s);
    create(&mut conn, s, "milk", false, None).unwrap();
    create(&mut conn, s, "eggs", true, None).unwrap();
    let before = list(&conn, s).unwrap();

    toggle(&mut conn, 1).unwrap();
    toggle(&mut conn, 2).unwrap();
    let once = list(&conn, s).unwrap();
    assert_eq!(once[0].is_shopped, true);
    assert_eq!(once[1].is_shopped, false);

    toggle(&mut conn, 1).unwrap();
    toggle(&mut conn, 2).unwrap();
    assert_eq!(list(&conn, s).unwrap(), before);
}

#[test]
fn toggle_of_absent_id_is_a_no_op() {
    let s = Strategy::IdentitySwap;
    let mut conn = open(s);
    create(&mut conn, s, "milk", false, None).unwrap();
    let before = list(&conn, s).unwrap();
    assert_eq!(toggle(&mut conn, 42), Ok(()));
    assert_eq!(list(&conn, s).unwrap(), before);
}

#[test]
fn toggle_reads_foreign_flag_texts_leniently() {
    let s = Strategy::IdentitySwap;
    let mut conn = open(s);
    for (name, flag) in [("a", "TRUE"), ("b", "1"), ("c", "0"), ("d", "maybe")] {
        conn.execute("INSERT INTO shopping_items (name, is_shopped) VALUES (?1, ?2)", [name, flag])
            .unwrap();
    }
    let flags = |conn: &Connection| -> Vec<bool> {
        list(conn, s).unwrap().iter().map(|item| item.is_shopped).collect()
    };
    assert_eq!(flags(&conn), vec![true, true, false, false]);
    for id in 1..=4 {
        toggle(&mut conn, id).unwrap();
    }
    assert_eq!(flags(&conn), vec![false, false, true, true]);
}

#[test]
fn swap_exchanges_two_rows_and_no_other() {
    let s = Strategy::IdentitySwap;
    let mut conn = open(s);
    create(&mut conn, s, "a", false, None).unwrap();
    create(&mut conn, s, "b", true, None).unwrap();
    create(&mut conn, s, "c", false, None).unwrap();
    create(&mut conn, s, "d", true, None).unwrap();
    let before = list(&conn, s).unwrap();

    assert_eq!(swap(&mut conn, 4, 2), Ok(()));
    let after = list(&conn, s).unwrap();
    assert_eq!(after.len(), 4);
    assert_eq!(after[0], before[0]);
    assert_eq!(after[2], before[2]);
    assert_eq!(after[1].id, Some(2));
    assert_eq!(after[1].name, "d");
    assert_eq!(after[1].is_shopped, true);
    assert_eq!(after[3].id, Some(4));
    assert_eq!(after[3].name, "b");
    assert_eq!(after[3].is_shopped, true);

    assert_eq!(swap(&mut conn, 2, 4), Ok(()));
    assert_eq!(list(&conn, s).unwrap(), before);
}

#[test]
fn swap_with_an_absent_id_changes_nothing() {
    let s = Strategy::IdentitySwap;
    let mut conn = open(s);
    create(&mut conn, s, "milk", false, None).unwrap();
    create(&mut conn, s, "bread", true, None).unwrap();
    let before = list(&conn, s).unwrap();

    assert_eq!(swap(&mut conn, 1, 3), Err(SwapError::NotFound));
    assert_eq!(swap(&mut conn, 7, 2), Err(SwapError::NotFound));
    assert_eq!(swap(&mut conn, 8, 9), Err(SwapError::NotFound));
    assert_eq!(swap(&mut conn, -1, 1), Err(SwapError::NotFound));
    assert_eq!(list(&conn, s).unwrap(), before);
    assert!(conn.is_autocommit());
}

#[test]
fn swap_of_an_id_with_itself_is_not_found() {
    let s = Strategy::IdentitySwap;
    let mut conn = open(s);
    create(&mut conn, s, "milk", false, None).unwrap();
    let before = list(&conn, s).unwrap();
    assert_eq!(swap(&mut conn, 1, 1), Err(SwapError::NotFound));
    assert_eq!(list(&conn, s).unwrap(), before);
}

#[test]
fn swap_rolls_back_when_a_move_fails() {
    let s = Strategy::IdentitySwap;
    let mut conn = open(s);
    create(&mut conn, s, "milk", false, None).unwrap();
    create(&mut conn, s, "bread", true, None).unwrap();
    conn.execute(
        "INSERT INTO shopping_items (id, name, is_shopped) VALUES (-1, 'stray', 'false')",
        [],
    )
    .unwrap();
    let before = list(&conn, s).unwrap();
    assert_eq!(before.len(), 3);

    assert_eq!(swap(&mut conn, 1, 2), Err(SwapError::StorageError));
    assert_eq!(list(&conn, s).unwrap(), before);
    assert!(conn.is_autocommit());
}

#[test]
fn swap_without_a_table_is_a_storage_error() {
    let mut conn = Connection::open_in_memory().unwrap();
    assert_eq!(swap(&mut conn, 1, 2), Err(SwapError::StorageError));
}

#[test]
fn create_rejects_an_empty_name() {
    let s = Strategy::IdentitySwap;
    let mut conn = open(s);
    assert_eq!(create(&mut conn, s, "", false, None), Err(ServiceError::ValidationError));
    assert_eq!(list(&conn, s), Ok(vec![]));
}

#[test]
fn create_with_explicit_index_needs_a_position() {
    let s = Strategy::ExplicitIndex;
    let mut conn = open(s);
    assert_eq!(create(&mut conn, s, "milk", false, None), Err(ServiceError::ValidationError));
    assert_eq!(create(&mut conn, s, "", false, Some(1)), Err(ServiceError::ValidationError));
    assert_eq!(list(&conn, s), Ok(vec![]));
    assert_eq!(create(&mut conn, s, "milk", true, Some(4)), Ok(1));
    assert_eq!(
        list(&conn, s).unwrap(),
        vec![Item { id: Some(1), name: "milk".to_string(), is_shopped: true, order_index: Some(4) }]
    );
}

#[test]
fn create_by_identity_ignores_a_position() {
    let s = Strategy::IdentitySwap;
    let mut conn = open(s);
    assert_eq!(create(&mut conn, s, "milk", true, Some(9)), Ok(1));
    assert_eq!(
        list(&conn, s).unwrap(),
        vec![Item { id: Some(1), name: "milk".to_string(), is_shopped: true, order_index: None }]
    );
}

#[test]
fn operations_without_a_table_are_storage_errors() {
    let s = Strategy::IdentitySwap;
    let mut conn = Connection::open_in_memory().unwrap();
    assert_eq!(list(&conn, s), Err(ServiceError::StorageError));
    assert_eq!(create(&mut conn, s, "milk", false, None), Err(ServiceError::StorageError));
    assert_eq!(toggle(&mut conn, 1), Err(ServiceError::StorageError));
    assert_eq!(reorder(&mut conn, 1, 0), Err(ServiceError::StorageError));
}

#[test]
fn reorder_of_absent_id_is_a_no_op() {
    let s = Strategy::ExplicitIndex;
    let mut conn = open(s);
    create(&mut conn, s, "milk", false, Some(0)).unwrap();
    let before = list(&conn, s).unwrap();
    assert_eq!(reorder(&mut conn, 5, 3), Ok(()));
    assert_eq!(list(&conn, s).unwrap(), before);
}

#[test]
fn names_are_stored_as_given() {
    let s = Strategy::IdentitySwap;
    let mut conn = open(s);
    create(&mut conn, s, "crème fraîche; DROP TABLE shopping_items", false, None).unwrap();
    create(&mut conn, s, "true", true, None).unwrap();
    assert_eq!(
        names(&list(&conn, s).unwrap()),
        vec!["crème fraîche; DROP TABLE shopping_items", "true"]
    );
}
