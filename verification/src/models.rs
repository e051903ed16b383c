//! Rows of the configuration table.

use crate::rows::Row;
use vstd::prelude::*;

verus! {

/// One entry of the configuration table; `name` identifies it.
#[derive(Debug)]
pub struct Pair {
    pub name: String,
    pub value: String,
}

impl View for Pair {
    type V = Row;

    open spec fn view(&self) -> Row {
        (self.name@, self.value@)
    }
}

/// A row about to be inserted, borrowing its two columns.
#[derive(Debug)]
pub struct NewPair<'a> {
    pub name: &'a str,
    pub value: &'a str,
}

impl<'a> View for NewPair<'a> {
    type V = Row;

    open spec fn view(&self) -> Row {
        (self.name@, self.value@)
    }
}

impl Pair {
    /// The pair as a row to insert, borrowing its two columns.
    pub fn as_new(&self) -> (row: NewPair<'_>)
        ensures
            row@ == self@,
    {
        NewPair { name: self.name.as_str(), value: self.value.as_str() }
    }
}

} // verus!
