//! The mathematical model of the list: what it holds, which states are valid,
//! and what each operation makes of a state.

use crate::text::{is_trimmed, trim};
use crate::todo::TodoView;
use vstd::prelude::*;

verus! {

/// The state of a list: its items in the order in which they were added, and
/// the number that the next item will get.
pub struct ManagerView {
    pub items: Seq<TodoView>,
    pub next_id: nat,
}

/// `item` with its completion flag turned over.
pub open spec fn flipped(item: TodoView) -> TodoView {
    TodoView { is_completed: !item.is_completed, ..item }
}

impl ManagerView {
    /// The state of a new list: no items, and 1 as the first number to hand out.
    pub open spec fn empty() -> Self {
        ManagerView { items: Seq::empty(), next_id: 1 }
    }

    /// Which states a list can be in. The items are numbered 1, 2, 3, ... in the
    /// order in which they were added, the next number is the one after the
    /// last, and every title is trimmed and not empty.
    pub open spec fn well_formed(self) -> bool {
        &&& self.next_id == self.items.len() + 1
        &&& forall|i: int| 0 <= i < self.items.len() ==> (#[trigger] self.items[i]).id == i + 1
        &&& forall|i: int|
            0 <= i < self.items.len() ==> (#[trigger] self.items[i]).title.len() > 0 && is_trimmed(
                self.items[i].title,
            )
    }

    /// Whether some item carries the number `id`.
    pub open spec fn contains_id(self, id: nat) -> bool {
        exists|i: int| 0 <= i < self.items.len() && (#[trigger] self.items[i]).id == id
    }

    /// Whether `i` is the place of the first item that carries the number `id`.
    pub open spec fn is_first_match(self, id: nat, i: int) -> bool {
        &&& 0 <= i < self.items.len()
        &&& self.items[i].id == id
        &&& forall|j: int| 0 <= j < i ==> (#[trigger] self.items[j]).id != id
    }

    /// The place of the first item that carries the number `id`, where there is
    /// one.
    pub open spec fn position(self, id: nat) -> int {
        choose|i: int| self.is_first_match(id, i)
    }

    /// The first item that carries the number `id`, if there is one.
    pub open spec fn find(self, id: nat) -> Option<TodoView> {
        if self.contains_id(id) {
            Some(self.items[self.position(id)])
        } else {
            None
        }
    }

    /// Whether `label` can be the title of a new item: something is left of it
    /// once surrounding white space is removed.
    pub open spec fn accepts(label: Seq<char>) -> bool {
        trim(label).len() > 0
    }

    /// The state after an attempt to add an item titled `label`. An accepted
    /// title is stored trimmed, in a pending item at the end of the list that
    /// takes the next number; a refused one changes nothing.
    pub open spec fn insert(self, label: Seq<char>) -> Self {
        if Self::accepts(label) {
            ManagerView {
                items: self.items.push(
                    TodoView { id: self.next_id, title: trim(label), is_completed: false },
                ),
                next_id: self.next_id + 1,
            }
        } else {
            self
        }
    }

    /// The state after toggling the item numbered `id`: the first item with
    /// that number has its flag turned over; without such an item nothing
    /// changes.
    pub open spec fn toggle(self, id: nat) -> Self {
        if self.contains_id(id) {
            let i = self.position(id);
            ManagerView { items: self.items.update(i, flipped(self.items[i])), ..self }
        } else {
            self
        }
    }

    /// How many items have their completion flag equal to `done`.
    pub open spec fn count_where(self, done: bool) -> nat {
        self.items.filter(|t: TodoView| t.is_completed == done).len()
    }

    /// How many items are completed.
    pub open spec fn completed_count(self) -> nat {
        self.count_where(true)
    }

    /// How many items are pending.
    pub open spec fn pending_count(self) -> nat {
        self.count_where(false)
    }

    /// Among the items with a given number exactly one place is the first.
    pub proof fn lemma_first_match_unique(self, id: nat, i: int, j: int)
        requires
            self.is_first_match(id, i),
            self.is_first_match(id, j),
        ensures
            i == j,
    {
        if i < j {
            assert(self.items[i].id != id);
        } else if j < i {
            assert(self.items[j].id != id);
        }
    }

    /// If `i` is the first place with the number `id`, then `id` occurs and `i`
    /// is its position.
    pub proof fn lemma_position_is(self, id: nat, i: int)
        requires
            self.is_first_match(id, i),
        ensures
            self.contains_id(id),
            self.position(id) == i,
            self.find(id) == Some(self.items[i]),
    {
        self.lemma_first_match_unique(id, i, self.position(id));
    }

    /// A number that occurs has a first place.
    pub proof fn lemma_position_exists(self, id: nat)
        requires
            self.contains_id(id),
        ensures
            self.is_first_match(id, self.position(id)),
    {
        let k = choose|i: int| 0 <= i < self.items.len() && (#[trigger] self.items[i]).id == id;
        self.lemma_first_match_below(id, k);
    }

    /// A number that occurs at place `k` has its first place at or before `k`.
    proof fn lemma_first_match_below(self, id: nat, k: int)
        requires
            0 <= k < self.items.len(),
            self.items[k].id == id,
        ensures
            exists|i: int| self.is_first_match(id, i),
        decreases k,
    {
        if exists|j: int| 0 <= j < k && (#[trigger] self.items[j]).id == id {
            let j = choose|j: int| 0 <= j < k && (#[trigger] self.items[j]).id == id;
            self.lemma_first_match_below(id, j);
        } else {
            assert(self.is_first_match(id, k));
        }
    }

    /// In a valid state the item numbered `id` stands at place `id - 1`, and the
    /// numbers that occur are those from 1 to the number of items.
    pub proof fn lemma_position_by_number(self, id: nat)
        requires
            self.well_formed(),
        ensures
            self.contains_id(id) <==> 1 <= id <= self.items.len(),
            self.contains_id(id) ==> self.position(id) == id - 1,
    {
        if 1 <= id <= self.items.len() {
            assert(self.items[id - 1].id == id);
            assert(self.is_first_match(id, id - 1));
            self.lemma_position_is(id, id - 1);
        }
    }
}

} // verus!
