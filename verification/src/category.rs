//! A named, ordered group of shortcuts.

use crate::laws::{lemma_filtered_category_printable, lemma_filtered_category_well_formed};
use crate::shortcut::{Shortcut, ShortcutView};
use crate::table::{row_cells, stored_text, table_rows, table_titles};
use crate::text::{chars_of, is_printable, lowercase, printable};
use prettytable::{Cell, Row, Table};
use vstd::prelude::*;
use vstd::seq_lib::lemma_filter_view_commute;

verus! {

/// The mathematical value of a [`ShortcutsCategory`].
pub struct CategoryView {
    pub name: Seq<char>,
    pub entries: Seq<ShortcutView>,
}

impl CategoryView {
    /// The name is present and every entry is well formed.
    pub open spec fn well_formed(self) -> bool {
        &&& self.name.len() > 0
        &&& forall|i: int|
            0 <= i < self.entries.len() ==> (#[trigger] self.entries[i]).well_formed()
    }

    /// Neither the name nor any entry holds an escape character.
    pub open spec fn printable(self) -> bool {
        &&& printable(self.name)
        &&& forall|i: int|
            0 <= i < self.entries.len() ==> (#[trigger] self.entries[i]).printable()
    }

    /// The title row of the category's table: one cell with the name, two
    /// columns wide.
    pub open spec fn titles(self) -> Seq<(Seq<char>, nat)> {
        seq![(stored_text(self.name), 2nat)]
    }

    /// The rows of the category's table: one for each entry, in order.
    pub open spec fn rows(self) -> Seq<Seq<(Seq<char>, nat)>> {
        self.entries.map_values(|entry: ShortcutView| entry.row())
    }

    /// The category restricted to the entries that match `query`, in the
    /// order they had.
    pub open spec fn filtered(self, query: Seq<char>) -> CategoryView {
        CategoryView {
            name: self.name,
            entries: self.entries.filter(|entry: ShortcutView| entry.matches(query)),
        }
    }
}

/// A category of the catalog: its name and its shortcuts in display order.
#[derive(Debug, PartialEq, Eq)]
pub struct ShortcutsCategory {
    pub keys_vector: Vec<Shortcut>,
    pub name: String,
}

impl View for ShortcutsCategory {
    type V = CategoryView;

    open spec fn view(&self) -> CategoryView {
        CategoryView {
            name: self.name@,
            entries: self.keys_vector@.map_values(|shortcut: Shortcut| shortcut@),
        }
    }
}

impl Clone for ShortcutsCategory {
    /// A copy with the same name and the same shortcuts in the same order.
    fn clone(&self) -> (copy: ShortcutsCategory)
        ensures
            copy@ == self@,
    {
        let mut keys_vector: Vec<Shortcut> = Vec::new();
        let mut at: usize = 0;
        while at < self.keys_vector.len()
            invariant
                at <= self.keys_vector@.len(),
                keys_vector@.len() == at,
                forall|i: int|
                    0 <= i < at ==> (#[trigger] keys_vector@[i])@ == self.keys_vector@[i]@,
            decreases self.keys_vector@.len() - at,
        {
            keys_vector.push(self.keys_vector[at].clone());
            at += 1;
        }
        let copy = ShortcutsCategory { keys_vector, name: self.name.clone() };
        assert(copy@.entries == self@.entries);
        copy
    }
}

impl ShortcutsCategory {
    /// A category with the given name that owns `keys_vector`.
    pub fn new(name: &str, keys_vector: Vec<Shortcut>) -> (category: ShortcutsCategory)
        ensures
            category@ == (CategoryView {
                name: name@,
                entries: keys_vector@.map_values(|shortcut: Shortcut| shortcut@),
            }),
    {
        ShortcutsCategory { name: name.to_string(), keys_vector }
    }

    /// Keeps the shortcuts whose description contains `query`, letter case
    /// set aside, and drops the others. The survivors keep their order and
    /// the name stays.
    pub fn filter_out_by_query(&mut self, query: &str)
        ensures
            final(self)@ == old(self)@.filtered(query@),
            old(self)@.well_formed() ==> final(self)@.well_formed(),
            old(self)@.printable() ==> final(self)@.printable(),
    {
        let folded = chars_of(query.to_lowercase().as_str());
        let ghost keep = |shortcut: Shortcut| shortcut@.matches(query@);
        let ghost before = self.keys_vector@;
        let ghost seen: int = 0;
        let mut at: usize = 0;
        while at < self.keys_vector.len()
            invariant
                folded@ == lowercase(query@),
                keep == |shortcut: Shortcut| shortcut@.matches(query@),
                self.name == old(self).name,
                0 <= at <= self.keys_vector@.len(),
                0 <= seen <= before.len(),
                before.len() - seen == self.keys_vector@.len() - at,
                self.keys_vector@.take(at as int) == before.take(seen).filter(keep),
                self.keys_vector@.skip(at as int) == before.skip(seen),
            decreases self.keys_vector@.len() - at,
        {
            let ghost current = self.keys_vector@;
            assert(current[at as int] == before[seen]) by {
                assert(current.skip(at as int)[0] == before.skip(seen)[0]);
            }
            assert(before.take(seen + 1) == before.take(seen).push(before[seen]));
            proof {
                before.take(seen).lemma_filter_push(before[seen], keep);
                assert(current.skip(at + 1) == current.skip(at as int).skip(1));
                assert(before.skip(seen + 1) == before.skip(seen).skip(1));
            }
            if self.keys_vector[at].description_contains(folded.as_slice()) {
                assert(current.take(at + 1) == current.take(at as int).push(current[at as int]));
                at += 1;
            } else {
                self.keys_vector.remove(at);
                assert(self.keys_vector@.take(at as int) == current.take(at as int));
                assert(self.keys_vector@.skip(at as int) == current.skip(at + 1));
            }
            proof {
                seen = seen + 1;
            }
        }
        proof {
            assert(self.keys_vector@.take(at as int) == self.keys_vector@);
            assert(before.take(seen) == before);
            lemma_filter_view_commute(
                before,
                keep,
                |entry: ShortcutView| entry.matches(query@),
            );
            lemma_filtered_category_well_formed(old(self)@, query@);
            lemma_filtered_category_printable(old(self)@, query@);
        }
    }

    /// Whether neither the name nor any shortcut holds an escape character.
    pub fn is_printable(&self) -> (clean: bool)
        ensures
            clean == self@.printable(),
    {
        if !is_printable(self.name.as_str()) {
            return false;
        }
        let mut at: usize = 0;
        while at < self.keys_vector.len()
            invariant
                printable(self@.name),
                at <= self.keys_vector@.len(),
                forall|i: int| 0 <= i < at ==> (#[trigger] self@.entries[i]).printable(),
            decreases self.keys_vector@.len() - at,
        {
            if !self.keys_vector[at].is_printable() {
                assert(!self@.entries[at as int].printable());
                return false;
            }
            at += 1;
        }
        true
    }

    /// The table that shows this category: its name as a title over both
    /// columns, then one row for each shortcut, in order.
    pub fn get_category_table(&self) -> (table: Table)
        requires
            self@.printable(),
        ensures
            table_titles(table) == Some(self@.titles()),
            table_rows(table) == self@.rows(),
    {
        let mut table = Table::new();
        let titles = Row::new(vec![Cell::new(self.name.as_str()).with_hspan(2)]);
        assert(row_cells(titles) == self@.titles());
        table.set_titles(titles);
        let mut at: usize = 0;
        while at < self.keys_vector.len()
            invariant
                self@.printable(),
                at <= self.keys_vector@.len(),
                table_titles(table) == Some(self@.titles()),
                table_rows(table) == self@.rows().take(at as int),
            decreases self.keys_vector@.len() - at,
        {
            assert(self@.entries[at as int].printable());
            table.add_row(self.keys_vector[at].get_row());
            assert(self@.rows().take(at + 1) == self@.rows().take(at as int).push(
                self@.rows()[at as int],
            ));
            at += 1;
        }
        assert(self@.rows().take(at as int) == self@.rows());
        table
    }
}

} // verus!
