//! What a line typed at the console means: a choice from the menu, or the
//! number of an item.

use crate::number::{parse_decimal, parsed_decimal};
use crate::text::{trim, trim_str};
use vstd::prelude::*;

verus! {

/// The actions that the menu offers, and what stands for every other number.
#[derive(Debug, Clone, Copy, PartialEq, Eq, Structural)]
pub enum MenuChoice {
    /// Show all items.
    ListTodos,
    /// Add an item.
    AddTodo,
    /// Toggle an item between pending and completed.
    EditTodo,
    /// Leave the program.
    Exit,
    /// A number that the menu does not offer.
    Invalid,
}

/// The action that the menu offers under the number `option`.
pub open spec fn choice_for(option: nat) -> MenuChoice {
    if option == 1 {
        MenuChoice::ListTodos
    } else if option == 2 {
        MenuChoice::AddTodo
    } else if option == 3 {
        MenuChoice::EditTodo
    } else if option == 4 {
        MenuChoice::Exit
    } else {
        MenuChoice::Invalid
    }
}

/// What the line `line` chooses from the menu. Surrounding white space does
/// not count; a line that is no number of at most 32 bits chooses nothing.
pub open spec fn choice_in(line: Seq<char>) -> Option<MenuChoice> {
    match parsed_decimal(trim(line), u32::MAX as nat) {
        Some(option) => Some(choice_for(option)),
        None => None,
    }
}

/// The item number that the line `line` gives. Surrounding white space does
/// not count; a line that is no number of at most 64 bits gives none.
pub open spec fn id_in(line: Seq<char>) -> Option<nat> {
    parsed_decimal(trim(line), u64::MAX as nat)
}

/// Reads a choice from the menu out of one line of input.
pub fn read_choice(line: &str) -> (r: Option<MenuChoice>)
    ensures
        r == choice_in(line@),
{
    match parse_decimal(trim_str(line), u32::MAX as u64) {
        Some(1) => Some(MenuChoice::ListTodos),
        Some(2) => Some(MenuChoice::AddTodo),
        Some(3) => Some(MenuChoice::EditTodo),
        Some(4) => Some(MenuChoice::Exit),
        Some(_) => Some(MenuChoice::Invalid),
        None => None,
    }
}

/// Reads the number of an item out of one line of input.
pub fn read_id(line: &str) -> (r: Option<u64>)
    ensures
        match r {
            Some(id) => id_in(line@) == Some(id as nat),
            None => id_in(line@).is_none(),
        },
{
    parse_decimal(trim_str(line), u64::MAX)
}

} // verus!
