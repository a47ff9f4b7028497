//! A single keyboard shortcut: a key sequence and what it does.

use crate::table::{row_cells, stored_text};
use crate::text::{
    chars_of, contains, contains_folded, is_printable, is_substring, lowercase, printable,
};
use prettytable::{Cell, Row};
use vstd::prelude::*;

verus! {

/// The mathematical value of a [`Shortcut`].
pub struct ShortcutView {
    pub keys: Seq<char>,
    pub description: Seq<char>,
}

impl ShortcutView {
    /// Both texts are present.
    pub open spec fn well_formed(self) -> bool {
        self.keys.len() > 0 && self.description.len() > 0
    }

    /// Neither text holds an escape character.
    pub open spec fn printable(self) -> bool {
        printable(self.keys) && printable(self.description)
    }

    /// The table row of the entry: the keys in the first column and the
    /// description in the second, each cell one column wide.
    pub open spec fn row(self) -> Seq<(Seq<char>, nat)> {
        seq![(stored_text(self.keys), 1nat), (stored_text(self.description), 1nat)]
    }

    /// The description contains `query`, letter case set aside.
    pub open spec fn matches(self, query: Seq<char>) -> bool {
        contains_folded(self.description, query)
    }
}

/// A key sequence with its description. Two shortcuts are the same when
/// both texts are.
#[derive(Debug, PartialEq, Eq)]
pub struct Shortcut {
    pub keys: String,
    pub description: String,
}

impl View for Shortcut {
    type V = ShortcutView;

    open spec fn view(&self) -> ShortcutView {
        ShortcutView { keys: self.keys@, description: self.description@ }
    }
}

impl Clone for Shortcut {
    /// A copy with the same texts.
    fn clone(&self) -> (copy: Shortcut)
        ensures
            copy@ == self@,
    {
        Shortcut { keys: self.keys.clone(), description: self.description.clone() }
    }
}

impl Shortcut {
    /// A shortcut holding copies of the two texts.
    pub fn new(keys: &str, description: &str) -> (shortcut: Shortcut)
        ensures
            shortcut@ == (ShortcutView { keys: keys@, description: description@ }),
    {
        Shortcut { keys: keys.to_string(), description: description.to_string() }
    }

    /// Whether the lowercase form of the description contains `folded`,
    /// a query that the caller has already folded to lowercase.
    pub fn description_contains(&self, folded: &[char]) -> (found: bool)
        ensures
            found == is_substring(folded@, lowercase(self@.description)),
    {
        let description = chars_of(self.description.to_lowercase().as_str());
        contains(description.as_slice(), folded)
    }

    /// Whether neither text holds an escape character.
    pub fn is_printable(&self) -> (clean: bool)
        ensures
            clean == self@.printable(),
    {
        is_printable(self.keys.as_str()) && is_printable(self.description.as_str())
    }

    /// The table row that shows this shortcut.
    pub fn get_row(&self) -> (row: Row)
        requires
            self@.printable(),
        ensures
            row_cells(row) == self@.row(),
    {
        let cells = vec![Cell::new(self.keys.as_str()), Cell::new(self.description.as_str())];
        let row = Row::new(cells);
        assert(row_cells(row) == self@.row());
        row
    }
}

} // verus!
