use nvsc::{Categories, Shortcut, ShortcutsCategory};

fn names(catalog: &Categories) -> Vec<&str> {
    catalog.categories.iter().map(|category| category.name.as_str()).collect()
}

fn keys(category: &ShortcutsCategory) -> Vec<&str> {
    category.keys_vector.iter().map(|shortcut| shortcut.keys.as_str()).collect()
}

#[test]
fn shortcut_new_copies_both_texts() {
    let shortcut = Shortcut::new("dw", "Delete word");
    assert_eq!(shortcut.keys, "dw");
    assert_eq!(shortcut.description, "Delete word");
}

#[test]
fn shortcut_new_accepts_empty_texts() {
    let shortcut = Shortcut::new("", "");
    assert_eq!(shortcut.keys, "");
    assert_eq!(shortcut.description, "");
}

#[test]
fn shortcuts_are_equal_by_value() {
    assert_eq!(Shortcut::new("dw", "Delete word"), Shortcut::new("dw", "Delete word"));
    assert_ne!(Shortcut::new("dw", "Delete word"), Shortcut::new("cw", "Delete word"));
    assert_ne!(Shortcut::new("dw", "Delete word"), Shortcut::new("dw", "Delete"));
}

#[test]
fn category_new_keeps_name_and_order() {
    let category = ShortcutsCategory::new(
        "Exiting",
        vec![Shortcut::new("ZZ", "Save and quit"), Shortcut::new("ZQ", "Quit without changes")],
    );
    assert_eq!(category.name, "Exiting");
    assert_eq!(keys(&category), vec!["ZZ", "ZQ"]);
    assert_eq!(category.keys_vector[1].description, "Quit without changes");
}

#[test]
fn category_new_accepts_no_shortcuts() {
    let category = ShortcutsCategory::new("Empty", Vec::new());
    assert_eq!(category.name, "Empty");
    assert!(category.keys_vector.is_empty());
}

#[test]
fn catalog_has_its_three_categories_in_order() {
    let catalog = Categories::new();
    assert_eq!(names(&catalog), vec!["Editing", "Cursor movement", "Exiting"]);
}

#[test]
fn catalog_categories_have_their_sizes() {
    let catalog = Categories::new();
    let sizes: Vec<usize> =
        catalog.categories.iter().map(|category| category.keys_vector.len()).collect();
    assert_eq!(sizes, vec![16, 13, 2]);
}

#[test]
fn catalog_editing_keys_in_order() {
    let catalog = Categories::new();
    assert_eq!(
        keys(&catalog.categories[0]),
        vec![
            "di(", "ci(", "cw", "dw", "caw", "daw", "ct)", "dt)", "a", "A", "i", "o", "O", "S",
            "C", "cl"
        ]
    );
}

#[test]
fn catalog_cursor_movement_keys_in_order() {
    let catalog = Categories::new();
    assert_eq!(
        keys(&catalog.categories[1]),
        vec!["zz", "b", "w", "e", "Ctlr + u", "Ctlr + d", "0", "^", "$", "gg", "G", "f(", "F("]
    );
}

#[test]
fn catalog_exiting_entries() {
    let catalog = Categories::new();
    assert_eq!(
        catalog.categories[2].keys_vector,
        vec![Shortcut::new("ZZ", "Save and quit"), Shortcut::new("ZQ", "Quit without changes")]
    );
}

#[test]
fn catalog_descriptions_are_exact() {
    let catalog = Categories::new();
    let editing = &catalog.categories[0].keys_vector;
    assert_eq!(editing[0].description, "Delete content between parenthesis");
    assert_eq!(
        editing[4].description,
        "Delete whole word and activate insert mode (change word, cursor position doesn't matter)"
    );
    assert_eq!(editing[15].description, "Delete current letter and insert (change letter)");
    let movement = &catalog.categories[1].keys_vector;
    assert_eq!(movement[4].description, "Move back 1/2 a screen");
    assert_eq!(movement[12].description, "Find symbol '(' backward");
}

#[test]
fn two_builds_are_identical() {
    assert_eq!(Categories::new(), Categories::new());
}

#[test]
fn a_build_is_not_changed_by_filtering_another() {
    let mut filtered = Categories::new();
    filtered.filter_by_query("quit");
    assert_eq!(filtered.categories.len(), 1);
    assert_eq!(Categories::new().categories.len(), 3);
}

#[test]
fn catalog_texts_are_present() {
    let catalog = Categories::new();
    for category in &catalog.categories {
        assert!(!category.name.is_empty());
        assert!(!category.keys_vector.is_empty());
        for shortcut in &category.keys_vector {
            assert!(!shortcut.keys.is_empty());
            assert!(!shortcut.description.is_empty());
        }
    }
}

#[test]
fn catalog_is_printable() {
    assert!(Categories::new().is_printable());
}

#[test]
fn escape_in_any_text_is_not_printable() {
    assert!(!Shortcut::new("\u{1b}", "Escape").is_printable());
    assert!(!Shortcut::new("Esc", "Leave \u{1b} mode").is_printable());
    assert!(Shortcut::new("Esc", "Leave insert mode").is_printable());
    let named = ShortcutsCategory::new("\u{1b}[1mModes", vec![Shortcut::new("i", "Insert")]);
    assert!(!named.is_printable());
    let holding = ShortcutsCategory::new(
        "Modes",
        vec![Shortcut::new("i", "Insert"), Shortcut::new("v", "\u{1b}")],
    );
    assert!(!holding.is_printable());
    let mut catalog = Categories::new();
    catalog.categories.push(holding);
    assert!(!catalog.is_printable());
}

#[test]
fn a_clone_equals_its_source_and_is_independent() {
    let catalog = Categories::new();
    let copy = catalog.clone();
    assert_eq!(copy, catalog);
    let mut copy = copy;
    copy.filter_by_query("quit");
    assert_eq!(copy.categories.len(), 1);
    assert_eq!(catalog, Categories::new());
    let shortcut = Shortcut::new("dw", "Delete word");
    assert_eq!(shortcut.clone(), shortcut);
    let category = ShortcutsCategory::new("One", vec![shortcut]);
    let mut twin = category.clone();
    twin.filter_out_by_query("xyzzy");
    assert!(twin.keys_vector.is_empty());
    assert_eq!(category.keys_vector.len(), 1);
}
