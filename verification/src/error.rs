//! The two ways in which an operation on the list can fail.

use crate::number::{decimal, push_decimal};
use vstd::prelude::*;
use vstd::string::StringExecFns;

verus! {

/// Why a new item was refused.
#[derive(Debug, Clone, Copy, PartialEq, Eq, Structural)]
pub enum ValidationError {
    /// Nothing is left of the title once surrounding white space is removed.
    EmptyLabel,
}

/// Why an item could not be looked up.
#[derive(Debug, Clone, Copy, PartialEq, Eq, Structural)]
pub enum LookupError {
    /// No item of the list carries this number.
    NotFound(u64),
}

impl ValidationError {
    /// The text shown to a user for this error.
    pub open spec fn message_text(self) -> Seq<char> {
        "Todo cannot be empty!"@
    }

    /// Returns the text shown to a user for this error.
    pub fn message(&self) -> (r: String)
        ensures
            r@ == self.message_text(),
    {
        String::from_str("Todo cannot be empty!")
    }
}

impl LookupError {
    /// The text shown to a user for this error: it names the number that was
    /// looked for, in decimal.
    pub open spec fn message_text(self) -> Seq<char> {
        match self {
            LookupError::NotFound(id) => "Todo with ID "@ + decimal(id as nat) + " not found!"@,
        }
    }

    /// Returns the text shown to a user for this error.
    pub fn message(&self) -> (r: String)
        ensures
            r@ == self.message_text(),
    {
        match self {
            LookupError::NotFound(id) => {
                let mut out = String::from_str("Todo with ID ");
                push_decimal(&mut out, *id);
                out.append(" not found!");
                out
            },
        }
    }
}

} // verus!
