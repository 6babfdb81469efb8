//! What holds of every list, whatever was done to it.

use crate::model::{flipped, ManagerView};
use crate::text::{has_visible, lemma_trim_is_trimmed, lemma_trim_nonempty_iff_visible, trim};
use crate::todo::TodoView;
use vstd::prelude::*;

verus! {

/// What `item` adds to the count of the items whose flag equals `done`.
pub open spec fn counts_as(item: TodoView, done: bool) -> int {
    if item.is_completed == done {
        1
    } else {
        0
    }
}

/// One call on a list: adding an item with a title, or toggling the item with
/// a number.
pub enum Operation {
    Add(Seq<char>),
    Toggle(nat),
}

impl ManagerView {
    /// The state after one operation.
    pub open spec fn apply(self, op: Operation) -> Self {
        match op {
            Operation::Add(label) => self.insert(label),
            Operation::Toggle(id) => self.toggle(id),
        }
    }

    /// The state after the operations `ops`, in order.
    pub open spec fn run(self, ops: Seq<Operation>) -> Self
        decreases ops.len(),
    {
        if ops.len() == 0 {
            self
        } else {
            self.run(ops.drop_last()).apply(ops.last())
        }
    }

    /// How many of the operations `ops` are additions with a title that is
    /// accepted.
    pub open spec fn accepted_adds(ops: Seq<Operation>) -> nat
        decreases ops.len(),
    {
        if ops.len() == 0 {
            0
        } else {
            let earlier = Self::accepted_adds(ops.drop_last());
            match ops.last() {
                Operation::Add(label) => if Self::accepts(label) {
                    earlier + 1
                } else {
                    earlier
                },
                Operation::Toggle(_) => earlier,
            }
        }
    }

    /// Adding an item keeps the state valid.
    pub proof fn lemma_insert_well_formed(self, label: Seq<char>)
        requires
            self.well_formed(),
        ensures
            self.insert(label).well_formed(),
    {
        lemma_trim_is_trimmed(label);
    }

    /// Toggling keeps the state valid, and changes neither the number of items
    /// nor any item's number or title, nor the next number.
    pub proof fn lemma_toggle_well_formed(self, id: nat)
        requires
            self.well_formed(),
        ensures
            self.toggle(id).well_formed(),
            self.toggle(id).next_id == self.next_id,
            self.toggle(id).items.len() == self.items.len(),
            forall|i: int|
                0 <= i < self.items.len() ==> (#[trigger] self.toggle(id).items[i]).id
                    == self.items[i].id && self.toggle(id).items[i].title == self.items[i].title,
    {
        if self.contains_id(id) {
            self.lemma_position_exists(id);
        }
    }

    /// Every state that a new list can reach is valid.
    pub proof fn lemma_reachable_well_formed(ops: Seq<Operation>)
        ensures
            Self::empty().run(ops).well_formed(),
        decreases ops.len(),
    {
        if ops.len() > 0 {
            Self::lemma_reachable_well_formed(ops.drop_last());
            let before = Self::empty().run(ops.drop_last());
            match ops.last() {
                Operation::Add(label) => before.lemma_insert_well_formed(label),
                Operation::Toggle(id) => before.lemma_toggle_well_formed(id),
            }
        }
    }

    /// Numbers are handed out as 1, 2, 3, ... and never twice: whatever was
    /// done to a new list, it holds as many items as additions were accepted,
    /// and an accepted addition that follows gets the number after that count.
    pub proof fn lemma_numbers_count_up(ops: Seq<Operation>, label: Seq<char>)
        ensures
            Self::empty().run(ops).items.len() == Self::accepted_adds(ops),
            Self::empty().run(ops).next_id == Self::accepted_adds(ops) + 1,
            Self::accepts(label) ==> Self::empty().run(ops).insert(label).items.last().id
                == Self::accepted_adds(ops) + 1,
        decreases ops.len(),
    {
        if ops.len() > 0 {
            Self::lemma_numbers_count_up(ops.drop_last(), label);
            Self::lemma_reachable_well_formed(ops.drop_last());
            let before = Self::empty().run(ops.drop_last());
            match ops.last() {
                Operation::Add(_) => {},
                Operation::Toggle(id) => before.lemma_toggle_well_formed(id),
            }
        }
    }

    /// A title is refused exactly when it is empty or all white space, and a
    /// refused title changes nothing: neither the items nor the next number.
    pub proof fn lemma_blank_title_refused(self, label: Seq<char>)
        ensures
            Self::accepts(label) <==> has_visible(label),
            !has_visible(label) ==> self.insert(label) == self,
    {
        lemma_trim_nonempty_iff_visible(label);
    }

    /// An accepted title adds one pending item at the end, which holds the
    /// trimmed title and the next number; the earlier items stay as they were.
    pub proof fn lemma_insert_appends(self, label: Seq<char>)
        requires
            Self::accepts(label),
        ensures
            self.insert(label).items.len() == self.items.len() + 1,
            self.insert(label).items.drop_last() == self.items,
            self.insert(label).items.last() == (TodoView {
                id: self.next_id,
                title: trim(label),
                is_completed: false,
            }),
            self.insert(label).next_id == self.next_id + 1,
    {
        assert(self.insert(label).items.drop_last() =~= self.items);
    }

    /// Toggling the same number twice gives back the state from before.
    pub proof fn lemma_toggle_twice(self, id: nat)
        ensures
            self.toggle(id).toggle(id) == self,
    {
        if self.contains_id(id) {
            self.lemma_position_exists(id);
            let i = self.position(id);
            let once = self.toggle(id);
            assert(once.is_first_match(id, i));
            once.lemma_position_is(id, i);
            assert(once.toggle(id).items =~= self.items);
        }
    }

    /// Toggling a number that no item carries finds nothing and changes
    /// nothing, so both counts stay as they were.
    pub proof fn lemma_toggle_missing(self, id: nat)
        requires
            !self.contains_id(id),
        ensures
            self.find(id).is_none(),
            self.toggle(id) == self,
            self.toggle(id).completed_count() == self.completed_count(),
            self.toggle(id).pending_count() == self.pending_count(),
    {
    }

    /// Every item is either completed or pending: the two counts add up to the
    /// number of items.
    pub proof fn lemma_counts_add_up(self)
        ensures
            self.completed_count() + self.pending_count() == self.items.len(),
        decreases self.items.len(),
    {
        reveal(Seq::filter);
        if self.items.len() > 0 {
            (ManagerView { items: self.items.drop_last(), ..self }).lemma_counts_add_up();
        }
    }

    /// Replacing the item at place `i` takes it out of the count that it was in
    /// and puts its replacement into the count that it belongs to.
    proof fn lemma_count_after_update(self, i: int, item: TodoView, done: bool)
        requires
            0 <= i < self.items.len(),
        ensures
            (ManagerView { items: self.items.update(i, item), ..self }).count_where(done)
                == self.count_where(done) - counts_as(self.items[i], done) + counts_as(item, done),
        decreases self.items.len(),
    {
        reveal(Seq::filter);
        let after = self.items.update(i, item);
        if i == self.items.len() - 1 {
            assert(after.drop_last() =~= self.items.drop_last());
        } else {
            let shorter = ManagerView { items: self.items.drop_last(), ..self };
            shorter.lemma_count_after_update(i, item, done);
            assert(after.drop_last() =~= shorter.items.update(i, item));
        }
    }

    /// Toggling an item moves it from one count to the other.
    pub proof fn lemma_toggle_counts(self, id: nat)
        requires
            self.contains_id(id),
        ensures
            ({
                let was = self.find(id).unwrap().is_completed;
                &&& self.count_where(was) >= 1
                &&& self.toggle(id).count_where(was) == self.count_where(was) - 1
                &&& self.toggle(id).count_where(!was) == self.count_where(!was) + 1
            }),
    {
        self.lemma_position_exists(id);
        let i = self.position(id);
        let was = self.items[i].is_completed;
        self.lemma_count_after_update(i, flipped(self.items[i]), was);
        self.lemma_count_after_update(i, flipped(self.items[i]), !was);
    }

    /// An accepted addition raises the count of pending items by one and
    /// leaves the count of completed items as it was.
    pub proof fn lemma_insert_counts(self, label: Seq<char>)
        requires
            Self::accepts(label),
        ensures
            self.insert(label).pending_count() == self.pending_count() + 1,
            self.insert(label).completed_count() == self.completed_count(),
    {
        reveal(Seq::filter);
        assert(self.insert(label).items.drop_last() =~= self.items);
    }

    /// In a valid state no two items carry the same number, and every number
    /// in use lies below the next number.
    pub proof fn lemma_ids_distinct_and_below_next(self)
        requires
            self.well_formed(),
        ensures
            forall|i: int, j: int|
                0 <= i < j < self.items.len() ==> (#[trigger] self.items[i]).id < (
                #[trigger] self.items[j]).id,
            forall|i: int|
                0 <= i < self.items.len() ==> 1 <= (#[trigger] self.items[i]).id < self.next_id,
    {
    }
}

} // verus!
