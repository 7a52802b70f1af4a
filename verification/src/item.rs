//! Items as the service hands them out, the rows they are decoded from, and
//! the order in which a listing shows them.

use vstd::prelude::*;
use crate::text::{decode_flag, flag_of};

verus! {

/// How the table keeps the order of its rows.
#[derive(Clone, Copy, Debug, PartialEq, Eq, Structural)]
pub enum Strategy {
    /// Each row has a position of its own, which a reorder overwrites.
    ExplicitIndex,
    /// The identity of a row is its position; two rows change places by
    /// exchanging their identities.
    IdentitySwap,
}

/// One entry of the list.
#[derive(Clone, Debug, PartialEq, Eq)]
pub struct Item {
    pub id: Option<i32>,
    pub name: String,
    pub is_shopped: bool,
    pub order_index: Option<i32>,
}

/// An item as a mathematical value.
pub struct ItemView {
    pub id: Option<int>,
    pub name: Seq<char>,
    pub is_shopped: bool,
    pub order_index: Option<int>,
}

/// An optional machine integer as an optional mathematical integer.
pub open spec fn widened(value: Option<i32>) -> Option<int> {
    match value {
        Some(v) => Some(v as int),
        None => None,
    }
}

impl View for Item {
    type V = ItemView;

    open spec fn view(&self) -> ItemView {
        ItemView {
            id: widened(self.id),
            name: self.name@,
            is_shopped: self.is_shopped,
            order_index: widened(self.order_index),
        }
    }
}

/// One row as the store hands it back: the identity, the name, the stored
/// text of the completion flag, and the position where the table has one.
#[derive(Debug, PartialEq, Eq)]
pub struct RawRow {
    pub id: i32,
    pub name: String,
    pub flag: String,
    pub order_index: Option<i32>,
}

/// The item that a row stands for.
pub open spec fn decoded(row: RawRow) -> ItemView {
    ItemView {
        id: Some(row.id as int),
        name: row.name@,
        is_shopped: flag_of(row.flag@),
        order_index: widened(row.order_index),
    }
}

/// The items of a list as mathematical values.
pub open spec fn views_of(items: Seq<Item>) -> Seq<ItemView> {
    items.map_values(|item: Item| item@)
}

/// The items that a sequence of rows stands for, row by row.
pub open spec fn decoded_rows(rows: Seq<RawRow>) -> Seq<ItemView> {
    rows.map_values(|row: RawRow| decoded(row))
}

/// An item as a listing may show it: with an identity, and with a position
/// exactly where the table keeps positions.
pub open spec fn listable(strategy: Strategy, item: ItemView) -> bool {
    &&& item.id is Some
    &&& match strategy {
        Strategy::ExplicitIndex => item.order_index is Some,
        Strategy::IdentitySwap => item.order_index is None,
    }
}

/// Whether `first` comes before `second` in a listing. By identity, the
/// smaller comes first. By position, the smaller position comes first, and of
/// two rows at one position the one with the larger identity.
pub open spec fn precedes(strategy: Strategy, first: ItemView, second: ItemView) -> bool {
    match strategy {
        Strategy::IdentitySwap => first.id->0 < second.id->0,
        Strategy::ExplicitIndex => {
            ||| first.order_index->0 < second.order_index->0
            ||| (first.order_index->0 == second.order_index->0 && first.id->0 > second.id->0)
        },
    }
}

/// A listing in order: every item is listable, and each comes before all that
/// follow it.
pub open spec fn in_listing_order(strategy: Strategy, items: Seq<ItemView>) -> bool {
    &&& forall|i: int| 0 <= i < items.len() ==> listable(strategy, #[trigger] items[i])
    &&& forall|i: int, j: int|
        0 <= i < j < items.len() ==> precedes(strategy, #[trigger] items[i], #[trigger] items[j])
}

/// Decodes one row.
pub fn decode_row(row: &RawRow) -> (item: Item)
    ensures
        item@ == decoded(*row),
{
    Item {
        id: Some(row.id),
        name: row.name.clone(),
        is_shopped: decode_flag(row.flag.as_str()),
        order_index: row.order_index,
    }
}

/// Decodes the rows of a listing, one item for each row, in the same order.
pub fn decode_rows(rows: &Vec<RawRow>) -> (items: Vec<Item>)
    ensures
        views_of(items@) == decoded_rows(rows@),
{
    let mut items: Vec<Item> = Vec::new();
    let mut k: usize = 0;
    while k < rows.len()
        invariant
            k <= rows@.len(),
            items@.len() == k,
            forall|i: int| 0 <= i < k ==> (#[trigger] items@[i])@ == decoded(rows@[i]),
        decreases rows@.len() - k,
    {
        let item = decode_row(&rows[k]);
        items.push(item);
        k += 1;
    }
    proof {
        assert(views_of(items@) =~= decoded_rows(rows@));
    }
    items
}

/// Whether one item is listable.
pub fn is_listable(strategy: Strategy, item: &Item) -> (ok: bool)
    ensures
        ok == listable(strategy, item@),
{
    match strategy {
        Strategy::ExplicitIndex => item.id.is_some() && item.order_index.is_some(),
        Strategy::IdentitySwap => item.id.is_some() && item.order_index.is_none(),
    }
}

/// Whether `first` comes before `second`, for two listable items.
fn comes_before(strategy: Strategy, first: &Item, second: &Item) -> (before: bool)
    requires
        listable(strategy, first@),
        listable(strategy, second@),
    ensures
        before == precedes(strategy, first@, second@),
{
    let first_id: i32 = first.id.unwrap();
    let second_id: i32 = second.id.unwrap();
    match strategy {
        Strategy::IdentitySwap => first_id < second_id,
        Strategy::ExplicitIndex => {
            let first_at: i32 = first.order_index.unwrap();
            let second_at: i32 = second.order_index.unwrap();
            first_at < second_at || (first_at == second_at && first_id > second_id)
        },
    }
}

/// Coming before is transitive.
pub proof fn lemma_precedes_transitive(strategy: Strategy, a: ItemView, b: ItemView, c: ItemView)
    requires
        precedes(strategy, a, b),
        precedes(strategy, b, c),
    ensures
        precedes(strategy, a, c),
{
}

/// Whether the items are in listing order.
pub fn is_in_listing_order(strategy: Strategy, items: &Vec<Item>) -> (ok: bool)
    ensures
        ok == in_listing_order(strategy, views_of(items@)),
{
    let ghost views = views_of(items@);
    if items.len() == 0 {
        return true;
    }
    if !is_listable(strategy, &items[0]) {
        assert(!listable(strategy, views[0]));
        return false;
    }
    let mut k: usize = 1;
    while k < items.len()
        invariant
            1 <= k <= items@.len(),
            views == views_of(items@),
            forall|i: int| 0 <= i < k ==> listable(strategy, #[trigger] views[i]),
            forall|i: int, j: int|
                0 <= i < j < k ==> precedes(strategy, #[trigger] views[i], #[trigger] views[j]),
        decreases items@.len() - k,
    {
        if !is_listable(strategy, &items[k]) {
            assert(!listable(strategy, views[k as int]));
            return false;
        }
        if !comes_before(strategy, &items[k - 1], &items[k]) {
            assert(!precedes(strategy, views[k - 1], views[k as int]));
            return false;
        }
        proof {
            assert forall|i: int| 0 <= i < k implies precedes(
                strategy,
                #[trigger] views[i],
                views[k as int],
            ) by {
                if i < k - 1 {
                    lemma_precedes_transitive(strategy, views[i], views[k - 1], views[k as int]);
                }
            }
        }
        k += 1;
    }
    true
}

} // verus!
