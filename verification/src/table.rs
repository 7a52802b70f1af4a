//! The item table as a mathematical object: a finite map from identity to
//! row, and what each statement of the store does to it.

use vstd::prelude::*;

verus! {

/// What a row holds besides its identity.
pub struct Row {
    pub name: Seq<char>,
    pub is_shopped: bool,
    pub order_index: int,
}

/// The rows of the item table, by identity.
#[verifier::ext_equal]
pub struct Table {
    pub rows: Map<int, Row>,
}

impl Table {
    /// The table without rows.
    pub open spec fn empty() -> Table {
        Table { rows: Map::empty() }
    }

    /// Whether a row with this identity exists.
    pub open spec fn contains(self, id: int) -> bool {
        self.rows.contains_key(id)
    }

    /// The row with this identity.
    pub open spec fn row(self, id: int) -> Row
        recommends
            self.contains(id),
    {
        self.rows[id]
    }

    /// A table of finitely many rows whose identities are all non-negative,
    /// so that no row stands at a negative identity.
    pub open spec fn well_formed(self) -> bool {
        &&& self.rows.dom().finite()
        &&& forall|id: int| self.rows.contains_key(id) ==> id >= 0
    }

    /// The identity that the store gives to the next new row: one more than
    /// the largest in use, and 1 in an empty table.
    pub open spec fn next_id(self) -> int {
        if self.rows.dom().len() == 0 {
            1
        } else {
            self.rows.dom().find_unique_maximal(|a: int, b: int| a <= b) + 1
        }
    }

    /// The table after a row was added under the next identity.
    pub open spec fn inserted(self, row: Row) -> Table {
        Table { rows: self.rows.insert(self.next_id(), row) }
    }

    /// The table after the completion flag of one row was flipped. A table
    /// without that row stays as it is.
    pub open spec fn toggled(self, id: int) -> Table {
        if self.contains(id) {
            let row = self.rows[id];
            Table { rows: self.rows.insert(id, Row { is_shopped: !row.is_shopped, ..row }) }
        } else {
            self
        }
    }

    /// The table after one row was given a new position. A table without that
    /// row stays as it is.
    pub open spec fn reindexed(self, id: int, order_index: int) -> Table {
        if self.contains(id) {
            let row = self.rows[id];
            Table { rows: self.rows.insert(id, Row { order_index, ..row }) }
        } else {
            self
        }
    }

    /// The table after the row at `from` was given the identity `to`, or
    /// `None` where that would leave two rows under one identity. A table
    /// without a row at `from` stays as it is.
    pub open spec fn moved(self, from: int, to: int) -> Option<Table> {
        if !self.contains(from) || from == to {
            Some(self)
        } else if self.contains(to) {
            None
        } else {
            Some(Table { rows: self.rows.remove(from).insert(to, self.rows[from]) })
        }
    }

    /// The table in which the rows at `a` and `b` have changed places.
    pub open spec fn exchanged(self, a: int, b: int) -> Table
        recommends
            self.contains(a),
            self.contains(b),
    {
        Table { rows: self.rows.insert(a, self.rows[b]).insert(b, self.rows[a]) }
    }

    /// Toggling one identity twice leaves the table as it was.
    pub proof fn lemma_toggle_twice(self, id: int)
        ensures
            self.toggled(id).toggled(id) == self,
    {
        assert(self.toggled(id).toggled(id).rows =~= self.rows);
    }

    /// Toggling an identity that the table lacks leaves the table as it was.
    pub proof fn lemma_toggle_absent(self, id: int)
        requires
            !self.contains(id),
        ensures
            self.toggled(id) == self,
    {
    }

    /// A toggle flips the flag of the one row and changes nothing else.
    pub proof fn lemma_toggle_touches_one_flag(self, id: int)
        requires
            self.contains(id),
        ensures
            self.toggled(id).rows.dom() == self.rows.dom(),
            self.toggled(id).row(id).is_shopped == !self.row(id).is_shopped,
            self.toggled(id).row(id).name == self.row(id).name,
            self.toggled(id).row(id).order_index == self.row(id).order_index,
            forall|other: int|
                other != id && self.contains(other) ==> self.toggled(id).row(other) == self.row(
                    other,
                ),
    {
        assert(self.toggled(id).rows.dom() =~= self.rows.dom());
    }

    /// The next identity is larger than every identity in use, and at least 1
    /// in a well-formed table.
    pub proof fn lemma_next_id_is_fresh(self)
        requires
            self.rows.dom().finite(),
        ensures
            !self.contains(self.next_id()),
            forall|id: int| self.contains(id) ==> id < self.next_id(),
            self.well_formed() ==> self.next_id() >= 1,
    {
        let ids = self.rows.dom();
        let leq = |a: int, b: int| a <= b;
        if ids.len() == 0 {
            assert forall|id: int| !self.contains(id) by {
                if ids.contains(id) {
                    ids.lemma_len0_is_empty();
                }
            }
        } else {
            assert(vstd::relations::total_ordering(leq));
            ids.find_unique_maximal_ensures(leq);
            ids.lemma_maximal_equivalent_greatest(leq, ids.find_unique_maximal(leq));
            let top = ids.find_unique_maximal(leq);
            assert(vstd::relations::is_greatest(leq, top, ids));
            assert forall|id: int| self.contains(id) implies id < self.next_id() by {
                assert(ids.contains(id));
                assert(leq(id, top));
            }
            assert(ids.contains(top));
        }
    }

    /// An insert adds one row under an identity that no row had, larger than
    /// every identity in use, and changes no other row.
    pub proof fn lemma_insert_adds_one_row(self, row: Row)
        requires
            self.rows.dom().finite(),
        ensures
            !self.contains(self.next_id()),
            self.inserted(row).rows.dom() == self.rows.dom().insert(self.next_id()),
            self.inserted(row).row(self.next_id()) == row,
            forall|id: int| self.contains(id) ==> id < self.next_id(),
            forall|id: int| self.contains(id) ==> self.inserted(row).row(id) == self.row(id),
            self.well_formed() ==> self.inserted(row).well_formed(),
    {
        self.lemma_next_id_is_fresh();
        assert(self.inserted(row).rows.dom() =~= self.rows.dom().insert(self.next_id()));
    }

    /// A toggle and a reorder keep a well-formed table well-formed.
    pub proof fn lemma_updates_keep_well_formed(self, id: int, order_index: int)
        requires
            self.well_formed(),
        ensures
            self.toggled(id).well_formed(),
            self.reindexed(id, order_index).well_formed(),
    {
        assert(self.toggled(id).rows.dom() =~= self.rows.dom());
        assert(self.reindexed(id, order_index).rows.dom() =~= self.rows.dom());
    }
}

} // verus!
