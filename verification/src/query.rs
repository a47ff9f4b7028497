//! Selecting from the catalog: everything, or what matches a query.

use crate::catalog::{categories_printable, categories_well_formed, Categories};
use crate::category::{CategoryView, ShortcutsCategory};
use crate::laws::{lemma_filtered_printable, lemma_filtered_well_formed};
use vstd::prelude::*;

verus! {

/// A query that is present and not empty. Only such a query filters.
pub open spec fn effective(query: Option<Seq<char>>) -> bool {
    query matches Some(text) && text.len() > 0
}

/// The categories of `catalog` restricted to the entries that match `query`,
/// without the categories that this leaves empty, in the order they had.
pub open spec fn filtered(catalog: Seq<CategoryView>, query: Seq<char>) -> Seq<CategoryView> {
    catalog.map_values(|category: CategoryView| category.filtered(query)).filter(
        |category: CategoryView| category.entries.len() > 0,
    )
}

/// What a query selects from `catalog`: everything when the query is absent
/// or empty, and otherwise the matching part.
pub open spec fn selection(catalog: Seq<CategoryView>, query: Option<Seq<char>>) -> Seq<
    CategoryView,
> {
    if effective(query) {
        filtered(catalog, query->Some_0)
    } else {
        catalog
    }
}

/// The view of an optional query text.
pub open spec fn query_view(query: Option<&str>) -> Option<Seq<char>> {
    match query {
        Some(text) => Some(text@),
        None => None,
    }
}

/// Whether `query` is present and not empty, so that it filters.
pub fn is_effective(query: Option<&str>) -> (gate: bool)
    ensures
        gate == effective(query_view(query)),
{
    match query {
        Some(text) => !text.is_empty(),
        None => false,
    }
}

impl Categories {
    /// What `query` selects from the catalog, as a catalog of its own: a
    /// copy of all of it when the query is absent or empty; otherwise the
    /// shortcuts whose description contains the query, letter case set
    /// aside, under their categories, without the categories where nothing
    /// matches. The catalog itself stays as it is.
    pub fn select(&self, query: Option<&str>) -> (chosen: Categories)
        ensures
            chosen@ == selection(self@, query_view(query)),
            !effective(query_view(query)) ==> chosen@ == self@,
            categories_well_formed(self@) ==> categories_well_formed(chosen@),
            categories_printable(self@) ==> categories_printable(chosen@),
    {
        let mut chosen = self.clone();
        if is_effective(query) {
            chosen.filter_by_query(query.unwrap());
        }
        chosen
    }

    /// Restricts every category to the shortcuts whose description contains
    /// `query`, letter case set aside, and drops the categories that this
    /// leaves empty. What stays keeps its order.
    pub fn filter_by_query(&mut self, query: &str)
        ensures
            final(self)@ == filtered(old(self)@, query@),
            categories_well_formed(old(self)@) ==> categories_well_formed(final(self)@),
            categories_printable(old(self)@) ==> categories_printable(final(self)@),
    {
        let ghost view = |category: ShortcutsCategory| category@;
        let ghost before = self.categories@;
        let ghost seen: int = 0;
        let mut at: usize = 0;
        proof {
            lemma_filtered_empty(query@);
            assert(before.take(0).map_values(view) == Seq::<CategoryView>::empty());
            assert(self.categories@.take(0).map_values(view) == Seq::<CategoryView>::empty());
        }
        while at < self.categories.len()
            invariant
                view == |category: ShortcutsCategory| category@,
                0 <= at <= self.categories@.len(),
                0 <= seen <= before.len(),
                before.len() - seen == self.categories@.len() - at,
                self.categories@.take(at as int).map_values(view) == filtered(
                    before.take(seen).map_values(view),
                    query@,
                ),
                self.categories@.skip(at as int) == before.skip(seen),
            decreases self.categories@.len() - at,
        {
            let ghost current = self.categories@;
            proof {
                assert(current[at as int] == before[seen]) by {
                    assert(current.skip(at as int)[0] == before.skip(seen)[0]);
                }
                assert(current.skip(at + 1) == current.skip(at as int).skip(1));
                assert(before.skip(seen + 1) == before.skip(seen).skip(1));
                assert(before.take(seen + 1).map_values(view) == before.take(seen).map_values(
                    view,
                ).push(before[seen]@));
                lemma_filtered_push(before.take(seen).map_values(view), before[seen]@, query@);
            }
            self.categories[at].filter_out_by_query(query);
            let ghost shrunk = self.categories@;
            assert(shrunk == current.update(at as int, shrunk[at as int]));
            assert(shrunk[at as int]@ == before[seen]@.filtered(query@));
            if self.categories[at].keys_vector.is_empty() {
                self.categories.remove(at);
                assert(self.categories@.take(at as int) == current.take(at as int));
                assert(self.categories@.skip(at as int) == current.skip(at + 1));
            } else {
                assert(shrunk.take(at + 1) == current.take(at as int).push(shrunk[at as int]));
                assert(shrunk.skip(at + 1) == current.skip(at + 1));
                assert(shrunk.take(at + 1).map_values(view) == current.take(at as int).map_values(
                    view,
                ).push(shrunk[at as int]@));
                at += 1;
            }
            proof {
                seen = seen + 1;
            }
        }
        proof {
            assert(self.categories@.take(at as int) == self.categories@);
            assert(before.take(seen) == before);
            lemma_filtered_well_formed(old(self)@, query@);
            lemma_filtered_printable(old(self)@, query@);
        }
    }
}

/// Nothing is selected from an empty catalog.
proof fn lemma_filtered_empty(query: Seq<char>)
    ensures
        filtered(Seq::<CategoryView>::empty(), query) == Seq::<CategoryView>::empty(),
{
    reveal(Seq::filter);
    let shrink = |category: CategoryView| category.filtered(query);
    assert(Seq::<CategoryView>::empty().map_values(shrink) == Seq::<CategoryView>::empty());
}

/// Filtering a catalog with one more category at its end: the category
/// follows the rest, restricted to its matches, unless none is left.
proof fn lemma_filtered_push(catalog: Seq<CategoryView>, last: CategoryView, query: Seq<char>)
    ensures
        filtered(catalog.push(last), query) == if last.filtered(query).entries.len() > 0 {
            filtered(catalog, query).push(last.filtered(query))
        } else {
            filtered(catalog, query)
        },
{
    let shrink = |category: CategoryView| category.filtered(query);
    let inhabited = |category: CategoryView| category.entries.len() > 0;
    assert(catalog.push(last).map_values(shrink) == catalog.map_values(shrink).push(shrink(last)));
    catalog.map_values(shrink).lemma_filter_push(shrink(last), inhabited);
}

} // verus!
