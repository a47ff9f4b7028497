//! The table types of `prettytable`, with what is assumed of them.
//!
//! Nothing here is proved. Each item states what the source of
//! `prettytable` shows of one of its types or functions.

use crate::text::{printable, single_line};
use prettytable::{Cell, Row, Table};
use vstd::prelude::*;

verus! {

/// `prettytable::Cell`: a text with a horizontal span and a style.
#[verifier::external_type_specification]
#[verifier::external_body]
pub struct ExCell(Cell);

/// `prettytable::Row`: a sequence of cells.
#[verifier::external_type_specification]
#[verifier::external_body]
pub struct ExRow(Row);

/// `prettytable::Table`: an optional title row and a sequence of rows.
#[verifier::external_type_specification]
#[verifier::external_body]
pub struct ExTable(Table);

/// The text of a cell, as `Cell::get_content` returns it.
pub uninterp spec fn cell_text(cell: Cell) -> Seq<char>;

/// The number of columns a cell spans, as `Cell::get_hspan` returns it.
pub uninterp spec fn cell_span(cell: Cell) -> nat;

/// The cells of a row in order, each as its text and its span.
pub uninterp spec fn row_cells(row: Row) -> Seq<(Seq<char>, nat)>;

/// The title row of a table, if one is set.
pub uninterp spec fn table_titles(table: Table) -> Option<Seq<(Seq<char>, nat)>>;

/// The rows of a table below its titles, in order.
pub uninterp spec fn table_rows(table: Table) -> Seq<Seq<(Seq<char>, nat)>>;

/// What a cell made by `Cell::new` holds of a text with line feeds in it:
/// the lines that `str::lines` finds, joined again by single line feeds.
pub uninterp spec fn rejoined_lines(text: Seq<char>) -> Seq<char>;

/// The text of a cell made from `text`: `text` itself when it is a single
/// line, and otherwise its lines joined again.
pub open spec fn stored_text(text: Seq<char>) -> Seq<char> {
    if single_line(text) {
        text
    } else {
        rejoined_lines(text)
    }
}

/// Trusted: `Cell::new` makes a cell that spans one column and holds the
/// lines of `string`. A text without a line feed is one line, or none when
/// it is empty, and is held unchanged; see [`stored_text`].
///
/// `Cell::new` measures each line and panics where the characters inside
/// terminal escape sequences outnumber the display width of the line.
/// Without an escape character there is no such sequence, and that is what
/// the precondition asks for.
pub assume_specification[ Cell::new ](string: &str) -> (cell: Cell)
    requires
        printable(string@),
    ensures
        cell_text(cell) == (if single_line(string@) {
            string@
        } else {
            rejoined_lines(string@)
        }),
        cell_span(cell) == 1,
;

/// Trusted: `Cell::with_hspan` sets the span and keeps the text. A span of
/// zero is stored as one.
pub assume_specification[ Cell::with_hspan ](cell: Cell, hspan: usize) -> (spanned: Cell)
    ensures
        cell_text(spanned) == cell_text(cell),
        cell_span(spanned) == (if hspan == 0 {
            1
        } else {
            hspan as nat
        }),
;

/// Trusted: `Row::new` makes a row of the given cells, in their order.
pub assume_specification[ Row::new ](cells: Vec<Cell>) -> (row: Row)
    ensures
        row_cells(row) == cells@.map_values(|cell: Cell| (cell_text(cell), cell_span(cell))),
;

/// Trusted: `Table::new` makes a table without titles and without rows.
pub assume_specification[ Table::new ]() -> (table: Table)
    ensures
        table_titles(table) == None::<Seq<(Seq<char>, nat)>>,
        table_rows(table) == Seq::<Seq<(Seq<char>, nat)>>::empty(),
;

/// Trusted: `Table::set_titles` replaces the title row and keeps the rows.
pub assume_specification[ Table::set_titles ](table: &mut Table, titles: Row)
    ensures
        table_titles(*final(table)) == Some(row_cells(titles)),
        table_rows(*final(table)) == table_rows(*old(table)),
;

/// Trusted: `Table::add_row` appends `row` below the rows there are, keeps
/// the titles, and returns a reference to the row inside the table: what
/// the caller writes through it is what the table ends up holding.
pub assume_specification[ Table::add_row ](table: &mut Table, row: Row) -> (added: &mut Row)
    ensures
        *added == row,
        table_titles(*final(table)) == table_titles(*old(table)),
        table_rows(*final(table)) == table_rows(*old(table)).push(row_cells(*final(added))),
;

} // verus!
