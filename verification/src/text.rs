//! Text matching: case folding and substring search over characters.

use vstd::prelude::*;

verus! {

/// What `str::to_lowercase` returns for a text that is not empty. It
/// follows the Unicode tables of the standard library and depends on the
/// text alone; nothing more is known of it here.
pub uninterp spec fn unicode_lowercase(text: Seq<char>) -> Seq<char>;

/// The lowercase form of a text. The empty text is its own lowercase form.
pub open spec fn lowercase(text: Seq<char>) -> Seq<char> {
    if text.len() == 0 {
        text
    } else {
        unicode_lowercase(text)
    }
}

/// Trusted: `str::to_lowercase` returns the lowercase form of its argument,
/// which is a function of the argument alone, and for the empty text the
/// empty text.
pub assume_specification[ str::to_lowercase ](s: &str) -> (folded: String)
    ensures
        folded@ == (if s@.len() == 0 {
            s@
        } else {
            unicode_lowercase(s@)
        }),
;

/// The escape character, which opens a terminal control sequence.
pub const ESCAPE: char = '\u{1b}';

/// A text that a table cell can take: it holds no escape character, so no
/// part of it is a terminal control sequence.
pub open spec fn printable(text: Seq<char>) -> bool {
    !text.contains(ESCAPE)
}

/// A text without a line feed.
pub open spec fn single_line(text: Seq<char>) -> bool {
    !text.contains('\n')
}

/// `needle` occurs in `haystack` starting at index `at`.
pub open spec fn occurs_at(needle: Seq<char>, haystack: Seq<char>, at: int) -> bool {
    &&& 0 <= at
    &&& at + needle.len() <= haystack.len()
    &&& haystack.subrange(at, at + needle.len()) == needle
}

/// `needle` occurs somewhere in `haystack` as a contiguous run of characters.
pub open spec fn is_substring(needle: Seq<char>, haystack: Seq<char>) -> bool {
    exists|at: int| occurs_at(needle, haystack, at)
}

/// `haystack` contains `needle` once both are folded to lowercase.
pub open spec fn contains_folded(haystack: Seq<char>, needle: Seq<char>) -> bool {
    is_substring(lowercase(needle), lowercase(haystack))
}

/// The characters of `s`, in order.
pub fn chars_of(s: &str) -> (v: Vec<char>)
    ensures
        v@ == s@,
{
    let mut v: Vec<char> = Vec::new();
    for c in it: s.chars()
        invariant
            v@ == it.seq().take(it.index() as int),
    {
        v.push(c);
    }
    v
}

/// Whether `text` holds no escape character.
pub fn is_printable(text: &str) -> (clean: bool)
    ensures
        clean == printable(text@),
{
    let chars = chars_of(text);
    let mut at: usize = 0;
    while at < chars.len()
        invariant
            chars@ == text@,
            at <= chars@.len(),
            forall|k: int| 0 <= k < at ==> chars@[k] != ESCAPE,
        decreases chars@.len() - at,
    {
        if chars[at] == ESCAPE {
            return false;
        }
        at += 1;
    }
    true
}

/// Whether `needle` is found in `haystack` at index `at`.
fn found_at(haystack: &[char], needle: &[char], at: usize) -> (found: bool)
    requires
        at + needle@.len() <= haystack@.len(),
    ensures
        found == occurs_at(needle@, haystack@, at as int),
{
    let width: usize = needle.len();
    let bound: usize = haystack.len();
    let mut j: usize = 0;
    while j < width
        invariant
            width == needle@.len(),
            bound == haystack@.len(),
            j <= width,
            at + width <= bound,
            forall|k: int| 0 <= k < j ==> haystack@[at + k] == needle@[k],
        decreases width - j,
    {
        if haystack[at + j] != needle[j] {
            assert(haystack@.subrange(at as int, at + width)[j as int] != needle@[j as int]);
            return false;
        }
        j += 1;
    }
    assert(haystack@.subrange(at as int, at + width) == needle@);
    true
}

/// Substring search: whether `needle` occurs anywhere in `haystack`.
///
/// The empty needle occurs in every haystack.
pub fn contains(haystack: &[char], needle: &[char]) -> (found: bool)
    ensures
        found == is_substring(needle@, haystack@),
{
    if needle.len() > haystack.len() {
        return false;
    }
    let last: usize = haystack.len() - needle.len();
    let mut at: usize = 0;
    loop
        invariant
            last == haystack@.len() - needle@.len(),
            at <= last,
            forall|k: int| 0 <= k < at ==> !occurs_at(needle@, haystack@, k),
        decreases last - at,
    {
        if found_at(haystack, needle, at) {
            return true;
        }
        if at == last {
            return false;
        }
        at += 1;
    }
}

} // verus!
