//! The list itself: it owns the items, numbers them and keeps the state valid.

use crate::error::{LookupError, ValidationError};
use crate::model::ManagerView;
use crate::text::{lemma_trim_is_trimmed, trim_str};
use crate::todo::{views, Todo};
use vstd::prelude::*;

verus! {

/// An in-memory list of to-do items. Items are added with a title, get the
/// numbers 1, 2, 3, ... in the order of their arrival, and are never removed.
pub struct TodoManager {
    todos: Vec<Todo>,
    next_id: u64,
}

impl View for TodoManager {
    type V = ManagerView;

    closed spec fn view(&self) -> ManagerView {
        ManagerView { items: views(self.todos@), next_id: self.next_id as nat }
    }
}

impl TodoManager {
    #[verifier::type_invariant]
    spec fn valid(&self) -> bool {
        self@.well_formed()
    }

    /// Creates an empty list.
    pub fn new() -> (r: Self)
        ensures
            r@ == ManagerView::empty(),
            r@.well_formed(),
    {
        let r = TodoManager { todos: Vec::new(), next_id: 1 };
        assert(r@.items =~= ManagerView::empty().items);
        r
    }

    /// Adds a pending item titled `title` at the end of the list and returns
    /// its number, which is the next one in the sequence 1, 2, 3, ... The title
    /// is stored without its surrounding white space. A title of which nothing
    /// is left after trimming is refused with `EmptyLabel`, and the list stays
    /// as it was.
    ///
    /// The numbers are 64 bits wide: the caller sees to it that one is left.
    pub fn add_todo(&mut self, title: String) -> (r: Result<u64, ValidationError>)
        requires
            ManagerView::accepts(title@) ==> old(self)@.next_id < u64::MAX,
        ensures
            final(self)@ == old(self)@.insert(title@),
            final(self)@.well_formed(),
            match r {
                Ok(id) => ManagerView::accepts(title@) && id == old(self)@.next_id,
                Err(e) => !ManagerView::accepts(title@) && e == ValidationError::EmptyLabel,
            },
    {
        proof {
            use_type_invariant(&*self);
        }
        let trimmed = trim_str(title.as_str());
        if trimmed.is_empty() {
            return Err(ValidationError::EmptyLabel);
        }
        let id = self.next_id;
        proof {
            lemma_trim_is_trimmed(title@);
        }
        let mut todos = self.take_todos();
        todos.push(Todo { id, title: trimmed.to_owned(), is_completed: false });
        assert(views(todos@) =~= old(self)@.insert(title@).items);
        *self = TodoManager { todos, next_id: id + 1 };
        Ok(id)
    }

    /// Returns the items in the order in which they were added.
    pub fn get_todos(&self) -> (r: &Vec<Todo>)
        ensures
            views(r@) == self@.items,
            self@.well_formed(),
    {
        proof {
            use_type_invariant(self);
        }
        &self.todos
    }

    /// Toggles the item numbered `id` between pending and completed, and
    /// returns its new state: `true` for completed. Without such an item the
    /// call fails with `NotFound(id)` and the list stays as it was.
    pub fn toggle_todo(&mut self, id: u64) -> (r: Result<bool, LookupError>)
        ensures
            final(self)@ == old(self)@.toggle(id as nat),
            final(self)@.well_formed(),
            r == match old(self)@.find(id as nat) {
                Some(item) => Ok::<bool, LookupError>(!item.is_completed),
                None => Err(LookupError::NotFound(id)),
            },
    {
        proof {
            use_type_invariant(&*self);
        }
        match self.index_of(id) {
            Some(i) => {
                let next_id = self.next_id;
                let mut todos = self.take_todos();
                let done = !todos[i].is_completed;
                todos[i].is_completed = done;
                assert(views(todos@) =~= old(self)@.toggle(id as nat).items);
                *self = TodoManager { todos, next_id };
                Ok(done)
            },
            None => Err(LookupError::NotFound(id)),
        }
    }

    /// Returns the item numbered `id`, if there is one.
    pub fn get_todo_by_id(&self, id: u64) -> (r: Option<&Todo>)
        ensures
            match r {
                Some(item) => self@.find(id as nat) == Some(item@),
                None => self@.find(id as nat).is_none(),
            },
    {
        match self.index_of(id) {
            Some(i) => Some(&self.todos[i]),
            None => None,
        }
    }

    /// Scans the items in order for the first one numbered `id` and returns
    /// its place.
    fn index_of(&self, id: u64) -> (r: Option<usize>)
        ensures
            match r {
                Some(i) => self@.is_first_match(id as nat, i as int) && self@.contains_id(id as nat)
                    && self@.position(id as nat) == i,
                None => !self@.contains_id(id as nat),
            },
    {
        let n = self.todos.len();
        let mut i: usize = 0;
        while i < n
            invariant
                n == self.todos.len(),
                i <= n,
                forall|j: int| 0 <= j < i ==> (#[trigger] self@.items[j]).id != id as nat,
            decreases n - i,
        {
            if self.todos[i].id == id {
                proof {
                    self@.lemma_position_is(id as nat, i as int);
                }
                return Some(i);
            }
            i = i + 1;
        }
        None
    }

    /// Returns how many items are completed.
    pub fn get_completed_count(&self) -> (n: usize)
        ensures
            n == self@.completed_count(),
            n + self@.pending_count() == self@.items.len(),
    {
        proof {
            self@.lemma_counts_add_up();
        }
        self.count_where(true)
    }

    /// Returns how many items are pending.
    pub fn get_pending_count(&self) -> (n: usize)
        ensures
            n == self@.pending_count(),
            self@.completed_count() + n == self@.items.len(),
    {
        proof {
            self@.lemma_counts_add_up();
        }
        self.count_where(false)
    }

    /// Counts the items whose completion flag equals `done`.
    fn count_where(&self, done: bool) -> (n: usize)
        ensures
            n == self@.count_where(done),
    {
        let len = self.todos.len();
        let mut n: usize = 0;
        let mut i: usize = 0;
        while i < len
            invariant
                len == self.todos.len(),
                i <= len,
                n <= i,
                n == (ManagerView { items: self@.items.take(i as int), ..self@ }).count_where(done),
            decreases len - i,
        {
            proof {
                let before = self@.items.take(i as int);
                let after = self@.items.take(i + 1);
                assert(after.drop_last() =~= before);
                assert(after.last() == self@.items[i as int]);
                reveal(Seq::filter);
            }
            if self.todos[i].is_completed == done {
                n = n + 1;
            }
            i = i + 1;
        }
        assert(self@.items.take(len as int) =~= self@.items);
        n
    }

    /// Returns whether the list holds no item.
    pub fn is_empty(&self) -> (r: bool)
        ensures
            r == (self@.items.len() == 0),
    {
        self.todos.is_empty()
    }

    /// Returns the number that the next item will get.
    pub fn next_id(&self) -> (r: u64)
        ensures
            r == self@.next_id,
    {
        self.next_id
    }

    /// Moves the items out of the list, which is left empty until the caller
    /// puts a valid state back.
    fn take_todos(&mut self) -> (todos: Vec<Todo>)
        ensures
            todos == old(self).todos,
            final(self)@ == ManagerView::empty(),
    {
        let mut taken = TodoManager::new();
        std::mem::swap(self, &mut taken);
        let TodoManager { todos, next_id: _ } = taken;
        todos
    }
}

} // verus!
