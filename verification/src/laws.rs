//! What holds of every selection, whatever the catalog and the query.
//!
//! The laws are stated over [`selection`], the function by which
//! [`Categories::select`](crate::catalog::Categories::select) says what it
//! returns.

use crate::catalog::{categories_printable, categories_well_formed};
use crate::category::CategoryView;
use crate::query::{effective, filtered, selection};
use crate::shortcut::ShortcutView;
use crate::text::{lowercase, occurs_at};
use vstd::prelude::*;

verus! {

/// `picks` names positions of `whole` in strictly increasing order, and
/// `part` holds, item by item, what stands at them.
pub open spec fn picks_from<A>(picks: Seq<int>, part: Seq<A>, whole: Seq<A>) -> bool {
    &&& picks.len() == part.len()
    &&& forall|i: int|
        0 <= i < picks.len() ==> 0 <= #[trigger] picks[i] < whole.len() && part[i]
            == whole[picks[i]]
    &&& forall|i: int, j: int|
        0 <= i < j < picks.len() ==> #[trigger] picks[i] < #[trigger] picks[j]
}

/// `part` is `whole` with some items left out: nothing added, nothing
/// repeated, nothing moved.
pub open spec fn is_subsequence<A>(part: Seq<A>, whole: Seq<A>) -> bool {
    exists|picks: Seq<int>| picks_from(picks, part, whole)
}

/// `picks` names categories of `whole` in strictly increasing order, and
/// each category of `part` has the name of the one picked for it and a
/// subsequence of its entries.
pub open spec fn categories_from(
    picks: Seq<int>,
    part: Seq<CategoryView>,
    whole: Seq<CategoryView>,
) -> bool {
    &&& picks.len() == part.len()
    &&& forall|i: int|
        0 <= i < picks.len() ==> {
            &&& 0 <= #[trigger] picks[i] < whole.len()
            &&& part[i].name == whole[picks[i]].name
            &&& is_subsequence(part[i].entries, whole[picks[i]].entries)
        }
    &&& forall|i: int, j: int|
        0 <= i < j < picks.len() ==> #[trigger] picks[i] < #[trigger] picks[j]
}

/// The categories of `part` follow the order of `whole`, and so do the
/// entries within each of them.
pub open spec fn order_preserved(part: Seq<CategoryView>, whole: Seq<CategoryView>) -> bool {
    exists|picks: Seq<int>| categories_from(picks, part, whole)
}

/// No category of `catalog` is empty.
pub open spec fn no_empty_category(catalog: Seq<CategoryView>) -> bool {
    forall|i: int| 0 <= i < catalog.len() ==> (#[trigger] catalog[i]).entries.len() > 0
}

/// Order preservation: whatever the catalog and the query, the categories
/// selected are categories of the catalog in the order they have there, and
/// the entries of each are entries of that category in the order they have
/// there.
pub proof fn lemma_selection_preserves_order(catalog: Seq<CategoryView>, query: Option<Seq<char>>)
    ensures
        order_preserved(selection(catalog, query), catalog),
{
    if effective(query) {
        let text = query->Some_0;
        let shrink = |category: CategoryView| category.filtered(text);
        let inhabited = |category: CategoryView| category.entries.len() > 0;
        let shrunk = catalog.map_values(shrink);
        lemma_filter_is_subsequence(shrunk, inhabited);
        let picks = choose|picks: Seq<int>| picks_from(picks, shrunk.filter(inhabited), shrunk);
        let chosen = filtered(catalog, text);
        assert forall|i: int| 0 <= i < picks.len() implies is_subsequence(
            chosen[i].entries,
            catalog[#[trigger] picks[i]].entries,
        ) by {
            lemma_filter_is_subsequence(
                catalog[picks[i]].entries,
                |entry: ShortcutView| entry.matches(text),
            );
        }
        assert(categories_from(picks, chosen, catalog));
    } else {
        let picks = Seq::new(catalog.len(), |i: int| i);
        assert forall|i: int| 0 <= i < picks.len() implies is_subsequence(
            catalog[i].entries,
            catalog[#[trigger] picks[i]].entries,
        ) by {
            lemma_subsequence_of_itself(catalog[i].entries);
        }
        assert(categories_from(picks, catalog, catalog));
    }
}

/// Without a query, or with an empty one, the selection is the catalog.
pub proof fn lemma_selection_without_query(catalog: Seq<CategoryView>)
    ensures
        selection(catalog, None) == catalog,
        selection(catalog, Some(Seq::<char>::empty())) == catalog,
{
}

/// Containment: whatever the query, every entry selected by it has a
/// description whose lowercase form contains the lowercase form of the
/// query.
pub proof fn lemma_selection_matches(catalog: Seq<CategoryView>, query: Seq<char>)
    ensures
        forall|i: int, j: int|
            #![trigger selection(catalog, Some(query))[i].entries[j]]
            0 <= i < selection(catalog, Some(query)).len() && 0 <= j < selection(
                catalog,
                Some(query),
            )[i].entries.len() ==> selection(catalog, Some(query))[i].entries[j].matches(query),
{
    let chosen = selection(catalog, Some(query));
    let matching = |entry: ShortcutView| entry.matches(query);
    assert forall|i: int, j: int|
        0 <= i < chosen.len() && 0 <= j < chosen[i].entries.len() implies (
    #[trigger] chosen[i].entries[j]).matches(query) by {
        if query.len() > 0 {
            let from = lemma_filtered_origin(catalog, query, i);
            catalog[from].entries.lemma_filter_pred(matching, j);
        } else {
            assert(query == Seq::<char>::empty());
            lemma_empty_query_matches(chosen[i].entries[j]);
        }
    }
}

/// Completeness: whatever the query, every entry of the catalog whose
/// description contains it, letter case set aside, is selected, under the
/// name of its category. Under a query that filters, that category is
/// selected restricted to its matches.
pub proof fn lemma_selection_complete(catalog: Seq<CategoryView>, query: Seq<char>)
    ensures
        forall|i: int, j: int|
            #![trigger catalog[i].entries[j]]
            0 <= i < catalog.len() && 0 <= j < catalog[i].entries.len()
                && catalog[i].entries[j].matches(query) ==> exists|k: int|
                {
                    &&& 0 <= k < selection(catalog, Some(query)).len()
                    &&& (#[trigger] selection(catalog, Some(query))[k]).name == catalog[i].name
                    &&& selection(catalog, Some(query))[k].entries.contains(catalog[i].entries[j])
                    &&& query.len() > 0 ==> selection(catalog, Some(query))[k]
                        == catalog[i].filtered(query)
                },
{
    let chosen = selection(catalog, Some(query));
    let shrink = |category: CategoryView| category.filtered(query);
    let inhabited = |category: CategoryView| category.entries.len() > 0;
    let matching = |entry: ShortcutView| entry.matches(query);
    let shrunk = catalog.map_values(shrink);
    assert forall|i: int, j: int|
        0 <= i < catalog.len() && 0 <= j < catalog[i].entries.len() && (
        #[trigger] catalog[i].entries[j]).matches(query) implies exists|k: int|
        {
            &&& 0 <= k < chosen.len()
            &&& (#[trigger] chosen[k]).name == catalog[i].name
            &&& chosen[k].entries.contains(catalog[i].entries[j])
            &&& query.len() > 0 ==> chosen[k] == catalog[i].filtered(query)
        } by {
        if query.len() > 0 {
            catalog[i].entries.lemma_filter_contains(matching, j);
            assert(inhabited(shrunk[i]));
            shrunk.lemma_filter_contains(inhabited, i);
            let k = choose|k: int| 0 <= k < chosen.len() && chosen[k] == shrunk[i];
            assert(chosen[k].name == catalog[i].name);
        } else {
            assert(chosen[i].name == catalog[i].name);
        }
    }
}

/// Elision of empty categories: no category selected is empty, provided
/// that the query filters or that the catalog had no empty category to
/// begin with. (Without a query the catalog is handed on as it is.)
pub proof fn lemma_selection_has_no_empty_category(
    catalog: Seq<CategoryView>,
    query: Option<Seq<char>>,
)
    requires
        effective(query) || no_empty_category(catalog),
    ensures
        no_empty_category(selection(catalog, query)),
{
    if effective(query) {
        let text = query->Some_0;
        let chosen = filtered(catalog, text);
        let shrink = |category: CategoryView| category.filtered(text);
        let inhabited = |category: CategoryView| category.entries.len() > 0;
        assert forall|i: int| 0 <= i < chosen.len() implies (#[trigger] chosen[i]).entries.len()
            > 0 by {
            catalog.map_values(shrink).lemma_filter_pred(inhabited, i);
        }
    }
}

/// Filtering keeps a well-formed catalog well formed.
pub proof fn lemma_filtered_well_formed(catalog: Seq<CategoryView>, query: Seq<char>)
    ensures
        categories_well_formed(catalog) ==> categories_well_formed(filtered(catalog, query)),
{
    let chosen = filtered(catalog, query);
    if categories_well_formed(catalog) {
        assert forall|i: int| 0 <= i < chosen.len() implies (
        #[trigger] chosen[i]).well_formed() by {
            let from = lemma_filtered_origin(catalog, query, i);
            lemma_filtered_category_well_formed(catalog[from], query);
        }
    }
}

/// Filtering keeps a printable catalog printable.
pub proof fn lemma_filtered_printable(catalog: Seq<CategoryView>, query: Seq<char>)
    ensures
        categories_printable(catalog) ==> categories_printable(filtered(catalog, query)),
{
    let chosen = filtered(catalog, query);
    if categories_printable(catalog) {
        assert forall|i: int| 0 <= i < chosen.len() implies (
        #[trigger] chosen[i]).printable() by {
            let from = lemma_filtered_origin(catalog, query, i);
            lemma_filtered_category_printable(catalog[from], query);
        }
    }
}

/// Selecting from a well-formed catalog gives a well-formed catalog.
pub proof fn lemma_selection_well_formed(catalog: Seq<CategoryView>, query: Option<Seq<char>>)
    requires
        categories_well_formed(catalog),
    ensures
        categories_well_formed(selection(catalog, query)),
{
    if effective(query) {
        lemma_filtered_well_formed(catalog, query->Some_0);
    }
}

/// Selecting from a printable catalog gives a printable catalog.
pub proof fn lemma_selection_printable(catalog: Seq<CategoryView>, query: Option<Seq<char>>)
    requires
        categories_printable(catalog),
    ensures
        categories_printable(selection(catalog, query)),
{
    if effective(query) {
        lemma_filtered_printable(catalog, query->Some_0);
    }
}

/// Every sequence is a subsequence of itself.
pub proof fn lemma_subsequence_of_itself<A>(whole: Seq<A>)
    ensures
        is_subsequence(whole, whole),
{
    let picks = Seq::new(whole.len(), |i: int| i);
    assert(picks_from(picks, whole, whole));
}

/// Filtering leaves a subsequence: what is kept stands in its old order.
pub proof fn lemma_filter_is_subsequence<A>(whole: Seq<A>, keep: spec_fn(A) -> bool)
    ensures
        is_subsequence(whole.filter(keep), whole),
    decreases whole.len(),
{
    reveal(Seq::filter);
    if whole.len() == 0 {
        assert(picks_from(Seq::<int>::empty(), whole.filter(keep), whole));
    } else {
        let front = whole.drop_last();
        lemma_filter_is_subsequence(front, keep);
        let front_picks = choose|picks: Seq<int>| picks_from(picks, front.filter(keep), front);
        if keep(whole.last()) {
            let picks = front_picks.push(whole.len() - 1);
            assert(picks_from(picks, whole.filter(keep), whole));
        } else {
            assert(picks_from(front_picks, whole.filter(keep), whole));
        }
    }
}

/// The empty query matches every entry.
pub proof fn lemma_empty_query_matches(entry: ShortcutView)
    ensures
        entry.matches(Seq::<char>::empty()),
{
    let needle = lowercase(Seq::<char>::empty());
    let haystack = lowercase(entry.description);
    assert(haystack.subrange(0, 0) == needle);
    assert(occurs_at(needle, haystack, 0));
}

/// Every category of a filtered catalog is a category of the catalog
/// restricted to its matches. Returns the position of that category.
pub proof fn lemma_filtered_origin(
    catalog: Seq<CategoryView>,
    query: Seq<char>,
    i: int,
) -> (from: int)
    requires
        0 <= i < filtered(catalog, query).len(),
    ensures
        0 <= from < catalog.len(),
        filtered(catalog, query)[i] == catalog[from].filtered(query),
{
    let shrink = |category: CategoryView| category.filtered(query);
    let inhabited = |category: CategoryView| category.entries.len() > 0;
    let shrunk = catalog.map_values(shrink);
    let kept = filtered(catalog, query)[i];
    assert(shrunk.filter(inhabited).contains(kept));
    shrunk.lemma_filter_contains_rev(inhabited, kept);
    choose|from: int| 0 <= from < shrunk.len() && shrunk[from] == kept
}

/// Filtering keeps a well-formed category well formed.
pub proof fn lemma_filtered_category_well_formed(category: CategoryView, query: Seq<char>)
    ensures
        category.well_formed() ==> category.filtered(query).well_formed(),
{
    let matching = |entry: ShortcutView| entry.matches(query);
    let kept = category.filtered(query).entries;
    assert forall|j: int| category.well_formed() && 0 <= j < kept.len() implies (
    #[trigger] kept[j]).well_formed() by {
        assert(category.entries.filter(matching).contains(kept[j]));
        category.entries.lemma_filter_contains_rev(matching, kept[j]);
    }
}

/// Filtering keeps a printable category printable.
pub proof fn lemma_filtered_category_printable(category: CategoryView, query: Seq<char>)
    ensures
        category.printable() ==> category.filtered(query).printable(),
{
    let matching = |entry: ShortcutView| entry.matches(query);
    let kept = category.filtered(query).entries;
    assert forall|j: int| category.printable() && 0 <= j < kept.len() implies (
    #[trigger] kept[j]).printable() by {
        assert(category.entries.filter(matching).contains(kept[j]));
        category.entries.lemma_filter_contains_rev(matching, kept[j]);
    }
}

} // verus!
