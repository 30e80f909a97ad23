//! The todo item entity and its mathematical model.

use vstd::prelude::*;
use crate::date::DueDate;

verus! {

/// One todo entry: an optional priority, the task text, and an optional due
/// timestamp. Fields mirror the persisted line left to right.
pub struct TodoItem {
    pub priority: Option<i8>,
    pub item: String,
    pub due: Option<DueDate>,
}

/// The model of a todo item: the same fields with the text as a character
/// sequence.
pub struct ItemModel {
    pub priority: Option<i8>,
    pub due: Option<DueDate>,
    pub text: Seq<char>,
}

impl View for TodoItem {
    type V = ItemModel;

    open spec fn view(&self) -> ItemModel {
        ItemModel { priority: self.priority, due: self.due, text: self.item@ }
    }
}

impl ItemModel {
    /// A priority, when present, is a single decimal digit.
    pub open spec fn priority_ok(self) -> bool {
        match self.priority {
            Some(p) => 0 <= p <= 9,
            None => true,
        }
    }

    /// A due timestamp, when present, names a real calendar point.
    pub open spec fn due_ok(self) -> bool {
        match self.due {
            Some(d) => d.valid(),
            None => true,
        }
    }

    /// The invariant of a well-formed item.
    pub open spec fn inv(self) -> bool {
        self.priority_ok() && self.due_ok()
    }
}

impl TodoItem {
    /// Executable check of the model invariant.
    pub fn inv_x(&self) -> (r: bool)
        ensures
            r == self@.inv(),
    {
        let pri_ok = match self.priority {
            Some(p) => 0 <= p && p <= 9,
            None => true,
        };
        let due_ok = match &self.due {
            Some(d) => d.valid_x(),
            None => true,
        };
        pri_ok && due_ok
    }
}

} // verus!
