//! The catalog: every category of shortcuts, in display order.

use crate::category::{CategoryView, ShortcutsCategory};
use crate::shortcut::{Shortcut, ShortcutView};
use crate::table::{table_rows, table_titles};
use prettytable::Table;
use vstd::prelude::*;

verus! {

/// The entry with the given texts.
pub open spec fn entry(keys: &str, description: &str) -> ShortcutView {
    ShortcutView { keys: keys@, description: description@ }
}

/// The shortcuts for changing text.
pub open spec fn editing_category() -> CategoryView {
    CategoryView {
        name: "Editing"@,
        entries: seq![
            entry("di(", "Delete content between parenthesis"),
            entry("ci(", "Delete old and insert new content between parenthesis"),
            entry("cw", "Delete word and active insert mode (change word)"),
            entry("dw", "Delete word"),
            entry(
                "caw",
                "Delete whole word and activate insert mode (change word, cursor position doesn't matter)",
            ),
            entry("daw", "Delete whole word (cursor position doesn't matter)"),
            entry("ct)", "Delete content til symbol ')' and active insert mode"),
            entry("dt)", "Delete content til symbol ')'"),
            entry("a", "Append after cursor"),
            entry("A", "Append from end of the current line"),
            entry("i", "Append before cursor"),
            entry("o", "Insert next line after current line"),
            entry("O", "Insert next line before current line"),
            entry("S", "Delete whole line and insert"),
            entry("C", "Delete content until the end of the line and insert"),
            entry("cl", "Delete current letter and insert (change letter)"),
        ],
    }
}

/// The shortcuts for moving the cursor.
pub open spec fn cursor_movement_category() -> CategoryView {
    CategoryView {
        name: "Cursor movement"@,
        entries: seq![
            entry("zz", "Center cursor on screen"),
            entry("b", "Jump backwards to the start of a word"),
            entry("w", "Jump forwards to the start of a word"),
            entry("e", "Jump forwards to the end of a word"),
            entry("Ctlr + u", "Move back 1/2 a screen"),
            entry("Ctlr + d", "Move forward 1/2 a screen"),
            entry("0", "Start of the line"),
            entry("^", "Start of the line after whitespaces and tabs"),
            entry("$", "End of the line"),
            entry("gg", "First line of the document"),
            entry("G", "Last line of the document"),
            entry("f(", "Find symbol '(' forward"),
            entry("F(", "Find symbol '(' backward"),
        ],
    }
}

/// The shortcuts for leaving the editor.
pub open spec fn exiting_category() -> CategoryView {
    CategoryView {
        name: "Exiting"@,
        entries: seq![entry("ZZ", "Save and quit"), entry("ZQ", "Quit without changes")],
    }
}

/// The whole catalog: a constant.
pub open spec fn catalog() -> Seq<CategoryView> {
    seq![editing_category(), cursor_movement_category(), exiting_category()]
}

/// Every category of `catalog` has a name, and every entry both its texts.
pub open spec fn categories_well_formed(catalog: Seq<CategoryView>) -> bool {
    forall|i: int| 0 <= i < catalog.len() ==> (#[trigger] catalog[i]).well_formed()
}

/// No text of `catalog` holds an escape character.
pub open spec fn categories_printable(catalog: Seq<CategoryView>) -> bool {
    forall|i: int| 0 <= i < catalog.len() ==> (#[trigger] catalog[i]).printable()
}

/// The catalog of shortcut categories.
#[derive(Debug, PartialEq, Eq)]
pub struct Categories {
    pub categories: Vec<ShortcutsCategory>,
}

impl View for Categories {
    type V = Seq<CategoryView>;

    open spec fn view(&self) -> Seq<CategoryView> {
        self.categories@.map_values(|category: ShortcutsCategory| category@)
    }
}

impl Clone for Categories {
    /// A copy with the same categories in the same order.
    fn clone(&self) -> (copy: Categories)
        ensures
            copy@ == self@,
    {
        let mut categories: Vec<ShortcutsCategory> = Vec::new();
        let mut at: usize = 0;
        while at < self.categories.len()
            invariant
                at <= self.categories@.len(),
                categories@.len() == at,
                forall|i: int| 0 <= i < at ==> (#[trigger] categories@[i])@ == self.categories@[i]@,
            decreases self.categories@.len() - at,
        {
            categories.push(self.categories[at].clone());
            at += 1;
        }
        let copy = Categories { categories };
        assert(copy@ == self@);
        copy
    }
}

impl Categories {
    /// Builds the catalog. Every call returns the same value: [`catalog`].
    pub fn new() -> (built: Categories)
        ensures
            built@ == catalog(),
            categories_well_formed(built@),
            categories_printable(built@),
    {
        proof {
            lemma_catalog_texts();
        }
        let editing = ShortcutsCategory::new(
            "Editing",
            vec![
                Shortcut::new("di(", "Delete content between parenthesis"),
                Shortcut::new("ci(", "Delete old and insert new content between parenthesis"),
                Shortcut::new("cw", "Delete word and active insert mode (change word)"),
                Shortcut::new("dw", "Delete word"),
                Shortcut::new(
                    "caw",
                    "Delete whole word and activate insert mode (change word, cursor position doesn't matter)",
                ),
                Shortcut::new("daw", "Delete whole word (cursor position doesn't matter)"),
                Shortcut::new("ct)", "Delete content til symbol ')' and active insert mode"),
                Shortcut::new("dt)", "Delete content til symbol ')'"),
                Shortcut::new("a", "Append after cursor"),
                Shortcut::new("A", "Append from end of the current line"),
                Shortcut::new("i", "Append before cursor"),
                Shortcut::new("o", "Insert next line after current line"),
                Shortcut::new("O", "Insert next line before current line"),
                Shortcut::new("S", "Delete whole line and insert"),
                Shortcut::new("C", "Delete content until the end of the line and insert"),
                Shortcut::new("cl", "Delete current letter and insert (change letter)"),
            ],
        );
        assert(editing@.entries == editing_category().entries);
        let cursor_movement = ShortcutsCategory::new(
            "Cursor movement",
            vec![
                Shortcut::new("zz", "Center cursor on screen"),
                Shortcut::new("b", "Jump backwards to the start of a word"),
                Shortcut::new("w", "Jump forwards to the start of a word"),
                Shortcut::new("e", "Jump forwards to the end of a word"),
                Shortcut::new("Ctlr + u", "Move back 1/2 a screen"),
                Shortcut::new("Ctlr + d", "Move forward 1/2 a screen"),
                Shortcut::new("0", "Start of the line"),
                Shortcut::new("^", "Start of the line after whitespaces and tabs"),
                Shortcut::new("$", "End of the line"),
                Shortcut::new("gg", "First line of the document"),
                Shortcut::new("G", "Last line of the document"),
                Shortcut::new("f(", "Find symbol '(' forward"),
                Shortcut::new("F(", "Find symbol '(' backward"),
            ],
        );
        assert(cursor_movement@.entries == cursor_movement_category().entries);
        let exiting = ShortcutsCategory::new(
            "Exiting",
            vec![
                Shortcut::new("ZZ", "Save and quit"),
                Shortcut::new("ZQ", "Quit without changes"),
            ],
        );
        assert(exiting@.entries == exiting_category().entries);
        let built = Categories { categories: vec![editing, cursor_movement, exiting] };
        assert(built@ == catalog());
        built
    }

    /// Whether no text of the catalog holds an escape character.
    pub fn is_printable(&self) -> (clean: bool)
        ensures
            clean == categories_printable(self@),
    {
        let mut at: usize = 0;
        while at < self.categories.len()
            invariant
                at <= self.categories@.len(),
                forall|i: int| 0 <= i < at ==> (#[trigger] self@[i]).printable(),
            decreases self.categories@.len() - at,
        {
            if !self.categories[at].is_printable() {
                assert(!self@[at as int].printable());
                return false;
            }
            at += 1;
        }
        true
    }

    /// The tables that show the catalog, one for each category, in order.
    pub fn get_tables(&self) -> (tables: Vec<Table>)
        requires
            categories_printable(self@),
        ensures
            tables@.len() == self@.len(),
            forall|i: int|
                0 <= i < self@.len() ==> table_titles(#[trigger] tables@[i]) == Some(
                    self@[i].titles(),
                ) && table_rows(tables@[i]) == self@[i].rows(),
    {
        let mut tables: Vec<Table> = Vec::new();
        let mut at: usize = 0;
        while at < self.categories.len()
            invariant
                categories_printable(self@),
                at <= self.categories@.len(),
                tables@.len() == at,
                forall|i: int|
                    0 <= i < at ==> table_titles(#[trigger] tables@[i]) == Some(self@[i].titles())
                        && table_rows(tables@[i]) == self@[i].rows(),
            decreases self.categories@.len() - at,
        {
            assert(self@[at as int].printable());
            tables.push(self.categories[at].get_category_table());
            at += 1;
        }
        tables
    }
}

/// The editing category has a name, its entries have both their texts, and
/// none of these holds an escape character.
proof fn lemma_editing_category_texts()
    ensures
        editing_category().well_formed(),
        editing_category().printable(),
{
    reveal_strlit("Editing");
    reveal_strlit("di(");
    reveal_strlit("Delete content between parenthesis");
    reveal_strlit("ci(");
    reveal_strlit("Delete old and insert new content between parenthesis");
    reveal_strlit("cw");
    reveal_strlit("Delete word and active insert mode (change word)");
    reveal_strlit("dw");
    reveal_strlit("Delete word");
    reveal_strlit("caw");
    reveal_strlit(
        "Delete whole word and activate insert mode (change word, cursor position doesn't matter)",
    );
    reveal_strlit("daw");
    reveal_strlit("Delete whole word (cursor position doesn't matter)");
    reveal_strlit("ct)");
    reveal_strlit("Delete content til symbol ')' and active insert mode");
    reveal_strlit("dt)");
    reveal_strlit("Delete content til symbol ')'");
    reveal_strlit("a");
    reveal_strlit("Append after cursor");
    reveal_strlit("A");
    reveal_strlit("Append from end of the current line");
    reveal_strlit("i");
    reveal_strlit("Append before cursor");
    reveal_strlit("o");
    reveal_strlit("Insert next line after current line");
    reveal_strlit("O");
    reveal_strlit("Insert next line before current line");
    reveal_strlit("S");
    reveal_strlit("Delete whole line and insert");
    reveal_strlit("C");
    reveal_strlit("Delete content until the end of the line and insert");
    reveal_strlit("cl");
    reveal_strlit("Delete current letter and insert (change letter)");
}

/// The cursor movement category has a name, its entries have both their texts, and
/// none of these holds an escape character.
proof fn lemma_cursor_movement_category_texts()
    ensures
        cursor_movement_category().well_formed(),
        cursor_movement_category().printable(),
{
    reveal_strlit("Cursor movement");
    reveal_strlit("zz");
    reveal_strlit("Center cursor on screen");
    reveal_strlit("b");
    reveal_strlit("Jump backwards to the start of a word");
    reveal_strlit("w");
    reveal_strlit("Jump forwards to the start of a word");
    reveal_strlit("e");
    reveal_strlit("Jump forwards to the end of a word");
    reveal_strlit("Ctlr + u");
    reveal_strlit("Move back 1/2 a screen");
    reveal_strlit("Ctlr + d");
    reveal_strlit("Move forward 1/2 a screen");
    reveal_strlit("0");
    reveal_strlit("Start of the line");
    reveal_strlit("^");
    reveal_strlit("Start of the line after whitespaces and tabs");
    reveal_strlit("$");
    reveal_strlit("End of the line");
    reveal_strlit("gg");
    reveal_strlit("First line of the document");
    reveal_strlit("G");
    reveal_strlit("Last line of the document");
    reveal_strlit("f(");
    reveal_strlit("Find symbol '(' forward");
    reveal_strlit("F(");
    reveal_strlit("Find symbol '(' backward");
}

/// The exiting category has a name, its entries have both their texts, and
/// none of these holds an escape character.
proof fn lemma_exiting_category_texts()
    ensures
        exiting_category().well_formed(),
        exiting_category().printable(),
{
    reveal_strlit("Exiting");
    reveal_strlit("ZZ");
    reveal_strlit("Save and quit");
    reveal_strlit("ZQ");
    reveal_strlit("Quit without changes");
}

/// The catalog is well formed and printable.
pub proof fn lemma_catalog_texts()
    ensures
        categories_well_formed(catalog()),
        categories_printable(catalog()),
{
    lemma_editing_category_texts();
    lemma_cursor_movement_category_texts();
    lemma_exiting_category_texts();
}

} // verus!
