use nvsc::{Categories, Shortcut, ShortcutsCategory};
use prettytable::{Cell, Row, Table};

fn expected_table(name: &str, entries: &[(&str, &str)]) -> Table {
    let mut table = Table::new();
    table.set_titles(Row::new(vec![Cell::new(name).with_hspan(2)]));
    for (keys, description) in entries {
        table.add_row(Row::new(vec![Cell::new(keys), Cell::new(description)]));
    }
    table
}

#[test]
fn get_row_has_keys_then_description() {
    let row = Shortcut::new("ZZ", "Save and quit").get_row();
    assert_eq!(row.len(), 2);
    assert_eq!(row.get_cell(0).unwrap().get_content(), "ZZ");
    assert_eq!(row.get_cell(1).unwrap().get_content(), "Save and quit");
}

#[test]
fn get_row_cells_span_one_column() {
    let row = Shortcut::new("ZZ", "Save and quit").get_row();
    assert_eq!(row.get_cell(0).unwrap().get_hspan(), 1);
    assert_eq!(row.get_cell(1).unwrap().get_hspan(), 1);
}

#[test]
fn get_row_equals_a_row_of_two_plain_cells() {
    let row = Shortcut::new("f(", "Find symbol '(' forward").get_row();
    assert_eq!(row, Row::new(vec![Cell::new("f("), Cell::new("Find symbol '(' forward")]));
}

#[test]
fn get_row_keeps_the_lines_of_a_text() {
    let row = Shortcut::new("gq", "Reformat\r\nthe paragraph\n").get_row();
    assert_eq!(row.get_cell(1).unwrap().get_content(), "Reformat\nthe paragraph");
}

#[test]
fn get_row_of_empty_texts() {
    let row = Shortcut::new("", "").get_row();
    assert_eq!(row.len(), 2);
    assert_eq!(row.get_cell(0).unwrap().get_content(), "");
    assert_eq!(row.get_cell(1).unwrap().get_content(), "");
}

#[test]
fn get_category_table_has_one_row_for_each_shortcut() {
    let catalog = Categories::new();
    let table = catalog.categories[2].get_category_table();
    assert_eq!(table.len(), 2);
    let first = table.get_row(0).unwrap();
    assert_eq!(first.get_cell(0).unwrap().get_content(), "ZZ");
    assert_eq!(first.get_cell(1).unwrap().get_content(), "Save and quit");
    let second = table.get_row(1).unwrap();
    assert_eq!(second.get_cell(0).unwrap().get_content(), "ZQ");
    assert_eq!(second.get_cell(1).unwrap().get_content(), "Quit without changes");
}

#[test]
fn get_category_table_equals_the_expected_table() {
    let catalog = Categories::new();
    let table = catalog.categories[2].get_category_table();
    let expected = expected_table(
        "Exiting",
        &[("ZZ", "Save and quit"), ("ZQ", "Quit without changes")],
    );
    assert_eq!(table, expected);
}

#[test]
fn get_category_table_title_spans_both_columns() {
    let category =
        ShortcutsCategory::new("Exiting", vec![Shortcut::new("ZZ", "Save and quit")]);
    let table = category.get_category_table();
    let mut narrow = Table::new();
    narrow.set_titles(Row::new(vec![Cell::new("Exiting")]));
    narrow.add_row(Row::new(vec![Cell::new("ZZ"), Cell::new("Save and quit")]));
    assert_ne!(table, narrow);
    let mut wide = Table::new();
    wide.set_titles(Row::new(vec![Cell::new("Exiting").with_hspan(2)]));
    wide.add_row(Row::new(vec![Cell::new("ZZ"), Cell::new("Save and quit")]));
    assert_eq!(table, wide);
}

#[test]
fn get_category_table_prints_title_and_rows() {
    let category = ShortcutsCategory::new(
        "Exiting",
        vec![Shortcut::new("ZZ", "Save and quit"), Shortcut::new("ZQ", "Quit without changes")],
    );
    let printed = category.get_category_table().to_string();
    let lines: Vec<&str> = printed.lines().collect();
    assert_eq!(
        lines,
        vec![
            "+----+----------------------+",
            "| Exiting                   |",
            "+====+======================+",
            "| ZZ | Save and quit        |",
            "+----+----------------------+",
            "| ZQ | Quit without changes |",
            "+----+----------------------+",
        ]
    );
}

#[test]
fn get_category_table_of_an_empty_category_has_only_titles() {
    let table = ShortcutsCategory::new("Empty", Vec::new()).get_category_table();
    assert!(table.is_empty());
    assert_eq!(table, expected_table("Empty", &[]));
}

#[test]
fn get_category_table_after_filtering() {
    let mut category = Categories::new().categories.remove(0);
    category.filter_out_by_query("parenthesis");
    let expected = expected_table(
        "Editing",
        &[
            ("di(", "Delete content between parenthesis"),
            ("ci(", "Delete old and insert new content between parenthesis"),
        ],
    );
    assert_eq!(category.get_category_table(), expected);
}

#[test]
fn get_tables_gives_one_table_for_each_category_in_order() {
    let catalog = Categories::new();
    let tables = catalog.get_tables();
    assert_eq!(tables.len(), 3);
    let sizes: Vec<usize> = tables.iter().map(|table| table.len()).collect();
    assert_eq!(sizes, vec![16, 13, 2]);
    for (table, category) in tables.iter().zip(&catalog.categories) {
        assert_eq!(*table, category.get_category_table());
    }
    assert_eq!(tables[1].get_row(4).unwrap().get_cell(0).unwrap().get_content(), "Ctlr + u");
}

#[test]
fn get_tables_of_a_selection() {
    let tables = Categories::new().select(Some("quit")).get_tables();
    assert_eq!(tables.len(), 1);
    let expected = expected_table(
        "Exiting",
        &[("ZZ", "Save and quit"), ("ZQ", "Quit without changes")],
    );
    assert_eq!(tables[0], expected);
}

#[test]
fn get_tables_of_an_empty_selection() {
    let tables = Categories::new().select(Some("xyzzy")).get_tables();
    assert!(tables.is_empty());
}
