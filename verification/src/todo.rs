//! A single to-do item and its mathematical view.

use vstd::prelude::*;
use vstd::std_specs::cmp::PartialEqSpecImpl;

verus! {

/// What an item is, as plain values: its number, the characters of its title
/// and whether it has been completed.
pub struct TodoView {
    pub id: nat,
    pub title: Seq<char>,
    pub is_completed: bool,
}

/// A labelled item of the list. An item starts out pending and is completed,
/// or made pending again, by toggling it.
#[derive(Debug)]
pub struct Todo {
    pub id: u64,
    pub title: String,
    pub is_completed: bool,
}

impl View for Todo {
    type V = TodoView;

    open spec fn view(&self) -> TodoView {
        TodoView { id: self.id as nat, title: self.title@, is_completed: self.is_completed }
    }
}

impl Clone for Todo {
    fn clone(&self) -> (r: Self)
        ensures
            r == *self,
    {
        Todo { id: self.id, title: self.title.clone(), is_completed: self.is_completed }
    }
}

impl PartialEq for Todo {
    /// Two items are equal when they agree in number, title and state.
    fn eq(&self, other: &Self) -> (r: bool) {
        self.id == other.id && self.title == other.title && self.is_completed == other.is_completed
    }
}

impl PartialEqSpecImpl for Todo {
    open spec fn obeys_eq_spec() -> bool {
        true
    }

    open spec fn eq_spec(&self, other: &Self) -> bool {
        self.id == other.id && self.title@ == other.title@ && self.is_completed
            == other.is_completed
    }
}

/// The views of the items of `todos`, in the same order.
pub open spec fn views(todos: Seq<Todo>) -> Seq<TodoView> {
    todos.map_values(|t: Todo| t@)
}

} // verus!
