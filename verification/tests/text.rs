use nvsc::text::{chars_of, contains, is_printable};

fn chars(text: &str) -> Vec<char> {
    text.chars().collect()
}

#[test]
fn chars_of_keeps_every_character_in_order() {
    assert_eq!(chars_of("Ctlr + u"), vec!['C', 't', 'l', 'r', ' ', '+', ' ', 'u']);
    assert_eq!(chars_of(""), Vec::<char>::new());
    assert_eq!(chars_of("é∀"), vec!['é', '∀']);
}

#[test]
fn contains_finds_a_run_in_the_middle() {
    assert!(contains(&chars("save and quit"), &chars("and")));
}

#[test]
fn contains_finds_a_run_at_the_start_and_at_the_end() {
    assert!(contains(&chars("save and quit"), &chars("save")));
    assert!(contains(&chars("save and quit"), &chars("quit")));
    assert!(contains(&chars("save and quit"), &chars("t")));
}

#[test]
fn contains_the_whole_haystack() {
    assert!(contains(&chars("quit"), &chars("quit")));
}

#[test]
fn contains_rejects_what_is_absent() {
    assert!(!contains(&chars("save and quit"), &chars("xyzzy")));
    assert!(!contains(&chars("save and quit"), &chars("quits")));
    assert!(!contains(&chars("save and quit"), &chars("sand")));
}

#[test]
fn contains_rejects_a_needle_longer_than_the_haystack() {
    assert!(!contains(&chars("zz"), &chars("zzz")));
    assert!(!contains(&chars(""), &chars("z")));
}

#[test]
fn contains_wants_a_contiguous_run_not_a_scattered_one() {
    assert!(!contains(&chars("abcabd"), &chars("abb")));
    assert!(contains(&chars("aab"), &chars("ab")));
    assert!(contains(&chars("abababc"), &chars("ababc")));
}

#[test]
fn contains_the_empty_needle_everywhere() {
    assert!(contains(&chars("save"), &chars("")));
    assert!(contains(&chars(""), &chars("")));
}

#[test]
fn contains_tells_letter_case_apart() {
    assert!(!contains(&chars("Save and quit"), &chars("save")));
    assert!(!contains(&chars("save and quit"), &chars("QUIT")));
}

#[test]
fn is_printable_accepts_text_without_escape() {
    assert!(is_printable("Delete content til symbol ')'"));
    assert!(is_printable(""));
    assert!(is_printable("two\nlines"));
}

#[test]
fn is_printable_rejects_an_escape_character() {
    assert!(!is_printable("\u{1b}[31mred\u{1b}[0m"));
    assert!(!is_printable("tail\u{1b}"));
}
