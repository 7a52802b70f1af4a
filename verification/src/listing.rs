//! The listing of a table as a mathematical object: its rows in the order of
//! the column that carries the position, and what the operations do to it.

use vstd::prelude::*;
use vstd::relations::{sorted_by, total_ordering};
use vstd::seq_lib::*;
use crate::engine::swap_outcome;
use crate::item::{in_listing_order, precedes, ItemView, Strategy};
use crate::table::{Row, Table};

verus! {

/// A row as a listing shows it.
pub open spec fn shown(strategy: Strategy, id: int, row: Row) -> ItemView {
    ItemView {
        id: Some(id),
        name: row.name,
        is_shopped: row.is_shopped,
        order_index: match strategy {
            Strategy::ExplicitIndex => Some(row.order_index),
            Strategy::IdentitySwap => None,
        },
    }
}

/// The order of the identities in a listing: `a` is `b`, or the row at `a`
/// comes before the row at `b`.
pub open spec fn no_later(table: Table, strategy: Strategy) -> spec_fn(int, int) -> bool {
    |a: int, b: int|
        a == b || precedes(
            strategy,
            shown(strategy, a, table.rows[a]),
            shown(strategy, b, table.rows[b]),
        )
}

/// The identities of the table in listing order.
pub open spec fn listed_ids(table: Table, strategy: Strategy) -> Seq<int> {
    table.rows.dom().to_sorted_seq(no_later(table, strategy))
}

/// The listing of the table: every row once, in listing order.
pub open spec fn listing(table: Table, strategy: Strategy) -> Seq<ItemView> {
    listed_ids(table, strategy).map_values(|id: int| shown(strategy, id, table.rows[id]))
}

/// The order of a listing is a total order on identities.
pub proof fn lemma_no_later_is_total(table: Table, strategy: Strategy)
    ensures
        total_ordering(no_later(table, strategy)),
{
    let leq = no_later(table, strategy);
    assert forall|a: int, b: int| #[trigger] leq(a, b) && #[trigger] leq(b, a) implies a == b by {}
    assert forall|a: int, b: int, c: int| #[trigger] leq(a, b) && #[trigger] leq(b, c) implies leq(
        a,
        c,
    ) by {}
    assert forall|a: int, b: int| #[trigger] leq(a, b) || #[trigger] leq(b, a) by {}
    assert forall|a: int| #[trigger] leq(a, a) by {}
}

/// A finite set as a sequence holds each of its elements once.
proof fn lemma_to_seq_holds_each_once<A>(set: Set<A>)
    requires
        set.finite(),
    ensures
        set.to_seq().no_duplicates(),
        set.to_seq().len() == set.len(),
        forall|a: A| set.to_seq().contains(a) <==> set.contains(a),
    decreases set.len(),
{
    set.lemma_to_seq_to_set_id();
    assert forall|a: A| set.to_seq().contains(a) <==> set.contains(a) by {
        assert(set.to_seq().to_set().contains(a) <==> set.contains(a));
    }
    if set.len() != 0 {
        let x = set.choose();
        let rest = set.remove(x);
        lemma_to_seq_holds_each_once(rest);
        let all = set.to_seq();
        let tail = rest.to_seq();
        assert(all == Seq::<A>::empty().push(x) + tail);
        assert(!tail.contains(x));
        assert forall|i: int, j: int|
            0 <= i < all.len() && 0 <= j < all.len() && i != j implies all[i] != all[j] by {
            if i == 0 {
                assert(tail[j - 1] == all[j]);
            } else if j == 0 {
                assert(tail[i - 1] == all[i]);
            } else {
                assert(tail[i - 1] == all[i]);
                assert(tail[j - 1] == all[j]);
            }
        }
    }
}

/// The identities in listing order are the identities of the table, each
/// once, and each is no later than all that follow it.
pub proof fn lemma_listed_ids(table: Table, strategy: Strategy)
    requires
        table.rows.dom().finite(),
    ensures
        listed_ids(table, strategy).no_duplicates(),
        listed_ids(table, strategy).len() == table.rows.dom().len(),
        forall|id: int| listed_ids(table, strategy).contains(id) <==> table.contains(id),
        sorted_by(listed_ids(table, strategy), no_later(table, strategy)),
{
    broadcast use group_to_multiset_ensures;

    let leq = no_later(table, strategy);
    let unsorted = table.rows.dom().to_seq();
    let sorted = listed_ids(table, strategy);
    lemma_no_later_is_total(table, strategy);
    lemma_to_seq_holds_each_once(table.rows.dom());
    unsorted.lemma_sort_by_ensures(leq);
    assert(sorted.to_multiset() == unsorted.to_multiset());
    assert(sorted.len() == unsorted.len()) by {
        to_multiset_len(sorted);
        to_multiset_len(unsorted);
    }
    unsorted.lemma_multiset_has_no_duplicates();
    sorted.lemma_multiset_has_no_duplicates_conv();
    assert forall|id: int| sorted.contains(id) <==> table.contains(id) by {
        to_multiset_contains(sorted, id);
        to_multiset_contains(unsorted, id);
    }
}

/// The listing of a finite table shows every row of the table once, and is in
/// listing order.
pub proof fn lemma_listing_is_in_order(table: Table, strategy: Strategy)
    requires
        table.rows.dom().finite(),
    ensures
        in_listing_order(strategy, listing(table, strategy)),
        listing(table, strategy).len() == table.rows.dom().len(),
        forall|id: int|
            table.contains(id) ==> listing(table, strategy).contains(
                shown(strategy, id, table.row(id)),
            ),
        forall|i: int|
            0 <= i < listing(table, strategy).len() ==> {
                let item = #[trigger] listing(table, strategy)[i];
                &&& item.id is Some
                &&& table.contains(item.id->0)
                &&& item == shown(strategy, item.id->0, table.row(item.id->0))
            },
{
    let ids = listed_ids(table, strategy);
    let items = listing(table, strategy);
    let leq = no_later(table, strategy);
    lemma_listed_ids(table, strategy);
    assert forall|i: int| 0 <= i < items.len() implies table.contains(ids[i]) by {
        assert(ids.contains(ids[i]));
    }
    assert forall|i: int, j: int| 0 <= i < j < items.len() implies precedes(
        strategy,
        #[trigger] items[i],
        #[trigger] items[j],
    ) by {
        assert(leq(ids[i], ids[j]));
        assert(ids[i] != ids[j]);
    }
    assert forall|id: int| table.contains(id) implies items.contains(
        shown(strategy, id, table.row(id)),
    ) by {
        assert(ids.contains(id));
        let i = choose|i: int| 0 <= i < ids.len() && ids[i] == id;
        assert(items[i] == shown(strategy, id, table.row(id)));
    }
}

/// Each identity of a finite table is listed once, and nothing else is.
proof fn lemma_listed_ids_counts(table: Table, strategy: Strategy)
    requires
        table.rows.dom().finite(),
    ensures
        forall|id: int|
            #[trigger] listed_ids(table, strategy).to_multiset().count(id) == if table.contains(
                id,
            ) {
                1nat
            } else {
                0nat
            },
{
    let ids = listed_ids(table, strategy);
    lemma_listed_ids(table, strategy);
    ids.lemma_multiset_has_no_duplicates();
    assert forall|id: int| #[trigger]
        ids.to_multiset().count(id) == if table.contains(id) {
            1nat
        } else {
            0nat
        } by {
        to_multiset_contains(ids, id);
    }
}

/// Where the identity is the position, a new row is listed last: the listing
/// after an insert is the listing before it with the new row at its end.
pub proof fn lemma_create_appends(table: Table, row: Row)
    requires
        table.rows.dom().finite(),
    ensures
        listing(table.inserted(row), Strategy::IdentitySwap) == listing(
            table,
            Strategy::IdentitySwap,
        ).push(shown(Strategy::IdentitySwap, table.next_id(), row)),
{
    broadcast use vstd::multiset::group_multiset_axioms;

    let s = Strategy::IdentitySwap;
    let grown = table.inserted(row);
    let n = table.next_id();
    let leq = no_later(table, s);
    table.lemma_insert_adds_one_row(row);
    assert(no_later(grown, s) =~= leq);
    lemma_no_later_is_total(table, s);
    lemma_listed_ids(table, s);
    lemma_listed_ids(grown, s);
    let old_ids = listed_ids(table, s);
    let new_ids = listed_ids(grown, s);
    let pushed = old_ids.push(n);
    assert forall|i: int, j: int| 0 <= i < j < pushed.len() implies #[trigger] leq(
        pushed[i],
        pushed[j],
    ) by {
        assert(old_ids.contains(old_ids[i]));
        assert(table.contains(old_ids[i]));
        if j < old_ids.len() {
            assert(leq(old_ids[i], old_ids[j]));
        }
    }
    lemma_listed_ids_counts(table, s);
    lemma_listed_ids_counts(grown, s);
    to_multiset_build(old_ids, n);
    assert(pushed.to_multiset() =~= new_ids.to_multiset());
    lemma_sorted_unique(pushed, new_ids, leq);
    assert forall|i: int| 0 <= i < old_ids.len() implies table.contains(#[trigger] old_ids[i]) by {
        assert(old_ids.contains(old_ids[i]));
    }
    assert(listing(grown, s) =~= listing(table, s).push(shown(s, n, row)));
}

/// Where each row has a position of its own, a reorder moves one row: the
/// listing afterwards shows that row with its new position, and with that row
/// taken out it is the listing from before with that row taken out.
pub proof fn lemma_reorder_moves_one_row(table: Table, id: i32, new_order_index: i32)
    requires
        table.rows.dom().finite(),
        table.contains(id as int),
    ensures
        ({
            let s = Strategy::ExplicitIndex;
            let after = table.reindexed(id as int, new_order_index as int);
            let was_at = listed_ids(table, s).index_of(id as int);
            let is_at = listed_ids(after, s).index_of(id as int);
            &&& 0 <= was_at < listing(table, s).len()
            &&& 0 <= is_at < listing(after, s).len()
            &&& listing(after, s)[is_at] == shown(
                s,
                id as int,
                Row { order_index: new_order_index as int, ..table.row(id as int) },
            )
            &&& listing(after, s).remove(is_at) == listing(table, s).remove(was_at)
        }),
{
    broadcast use vstd::multiset::group_multiset_axioms;

    let s = Strategy::ExplicitIndex;
    let after = table.reindexed(id as int, new_order_index as int);
    let leq = no_later(table, s);
    let old_ids = listed_ids(table, s);
    let new_ids = listed_ids(after, s);
    assert(after.rows.dom() =~= table.rows.dom());
    lemma_no_later_is_total(table, s);
    lemma_listed_ids(table, s);
    lemma_listed_ids(after, s);
    lemma_listed_ids_counts(table, s);
    lemma_listed_ids_counts(after, s);
    assert(after.contains(id as int));
    assert(old_ids.contains(id as int));
    assert(new_ids.contains(id as int));
    let was_at = old_ids.index_of(id as int);
    let is_at = new_ids.index_of(id as int);
    let old_rest = old_ids.remove(was_at);
    let new_rest = new_ids.remove(is_at);
    to_multiset_remove(old_ids, was_at);
    to_multiset_remove(new_ids, is_at);
    assert(old_rest.to_multiset() =~= new_rest.to_multiset());
    assert forall|i: int, j: int| 0 <= i < j < old_rest.len() implies #[trigger] leq(
        old_rest[i],
        old_rest[j],
    ) by {
        let from = |k: int|
            if k < was_at {
                k
            } else {
                k + 1
            };
        assert(old_rest[i] == old_ids[from(i)]);
        assert(old_rest[j] == old_ids[from(j)]);
        assert(leq(old_ids[from(i)], old_ids[from(j)]));
    }
    assert forall|i: int, j: int| 0 <= i < j < new_rest.len() implies #[trigger] leq(
        new_rest[i],
        new_rest[j],
    ) by {
        let from = |k: int|
            if k < is_at {
                k
            } else {
                k + 1
            };
        assert(new_rest[i] == new_ids[from(i)]);
        assert(new_rest[j] == new_ids[from(j)]);
        assert(no_later(after, s)(new_ids[from(i)], new_ids[from(j)]));
        assert(new_ids[from(i)] != id);
        assert(new_ids[from(j)] != id);
    }
    lemma_sorted_unique(old_rest, new_rest, leq);
    assert forall|i: int| 0 <= i < old_rest.len() implies #[trigger] old_rest[i] != id by {
        if i < was_at {
            assert(old_rest[i] == old_ids[i]);
        } else {
            assert(old_rest[i] == old_ids[i + 1]);
        }
    }
    assert(listing(after, s).remove(is_at) =~= listing(table, s).remove(was_at)) by {
        assert(listing(after, s).remove(is_at) =~= new_rest.map_values(
            |other: int| shown(s, other, after.rows[other]),
        ));
        assert(listing(table, s).remove(was_at) =~= old_rest.map_values(
            |other: int| shown(s, other, table.rows[other]),
        ));
    }
}

/// After a swap of two different identities that are both in a well-formed
/// table, the listing by identity shows the same identities at the same
/// places; at the place of each of the two it shows what the other row held,
/// and at every other place what it showed before.
pub proof fn lemma_swap_changes_two_places(table: Table, a: i32, b: i32)
    requires
        table.well_formed(),
        table.contains(a as int),
        table.contains(b as int),
        a != b,
    ensures
        ({
            let s = Strategy::IdentitySwap;
            let swapped = swap_outcome(table, a, b).0;
            &&& listed_ids(swapped, s) == listed_ids(table, s)
            &&& forall|i: int|
                0 <= i < listed_ids(table, s).len() ==> {
                    let id = listed_ids(table, s)[i];
                    let after = #[trigger] listing(swapped, s)[i];
                    if id == a {
                        after == shown(s, a as int, table.row(b as int))
                    } else if id == b {
                        after == shown(s, b as int, table.row(a as int))
                    } else {
                        after == listing(table, s)[i]
                    }
                }
        }),
{
    let s = Strategy::IdentitySwap;
    let swapped = swap_outcome(table, a, b).0;
    crate::engine::lemma_swap_exchanges(table, a, b);
    assert(no_later(swapped, s) =~= no_later(table, s));
    lemma_listed_ids(table, s);
    let ids = listed_ids(table, s);
    assert forall|i: int| 0 <= i < ids.len() implies table.contains(ids[i]) by {
        assert(ids.contains(ids[i]));
    }
}

} // verus!
