//! Properties of the verification engine that span several steps.

use vstd::prelude::*;
use crate::engine::{cache_after_page, found_after, marked_invalid, marked_valid, next_cursor, scan};
use crate::ident::is_well_known;

verus! {

/// Marking NSIDs valid never withdraws a validity.
proof fn lemma_marked_valid_keeps(cache: Map<Seq<char>, bool>, ns: Seq<Seq<char>>, k: Seq<char>)
    requires
        cache.get(k) == Some(true),
    ensures
        marked_valid(cache, ns).get(k) == Some(true),
    decreases ns.len(),
{
    if ns.len() > 0 {
        lemma_marked_valid_keeps(cache, ns.drop_last(), k);
    }
}

/// Cache monotonicity: once an NSID is cached valid, no page reply of any
/// check makes it invalid (and a delegation reply leaves the cache alone).
pub proof fn lemma_validity_is_kept(
    cache: Map<Seq<char>, bool>,
    target: Seq<char>,
    found: bool,
    pv: Option<(Seq<Seq<char>>, Option<Seq<char>>)>,
    k: Seq<char>,
)
    requires
        cache.get(k) == Some(true),
    ensures
        cache_after_page(cache, target, found, pv).get(k) == Some(true),
{
    let marked = match pv {
        Some((ns, _)) => marked_valid(cache, ns),
        None => cache,
    };
    if let Some((ns, _)) = pv {
        lemma_marked_valid_keeps(cache, ns, k);
    }
    assert(marked.get(k) == Some(true));
    if next_cursor(pv) is None && !found_after(target, found, pv) {
        assert(marked_invalid(marked, target).get(k) == Some(true));
    }
}

/// Short-circuits of a batch: walking it from position `i`, every NSID passed
/// over lies in the reserved namespace or in the cache, the NSID at which the
/// walk stops for a check (the only one that leads to network requests) lies
/// in neither, NSIDs of the reserved namespace never enter the outcome, and
/// what enters it comes from the cache.
pub proof fn lemma_batch_short_circuits(
    items: Seq<Seq<char>>,
    i: int,
    outcome: Map<Seq<char>, bool>,
    cache: Map<Seq<char>, bool>,
)
    requires
        0 <= i <= items.len(),
    ensures
        ({
            let (j, o) = scan(items, i, outcome, cache);
            &&& i <= j <= items.len()
            &&& forall|m: int| i <= m < j ==> is_well_known(#[trigger] items[m]) || cache.contains_key(
                items[m],
            )
            &&& j < items.len() ==> !is_well_known(items[j]) && !cache.contains_key(items[j])
            &&& forall|k: Seq<char>| is_well_known(k) ==> #[trigger] o.get(k) == outcome.get(k)
            &&& forall|k: Seq<char>| #[trigger]
                o.contains_key(k) ==> (o.get(k) == outcome.get(k) || o.get(k) == cache.get(k))
        }),
    decreases items.len() - i,
{
    if i < items.len() {
        if is_well_known(items[i]) {
            lemma_batch_short_circuits(items, i + 1, outcome, cache);
        } else if cache.contains_key(items[i]) {
            let next = outcome.insert(items[i], cache[items[i]]);
            lemma_batch_short_circuits(items, i + 1, next, cache);
            let (j, o) = scan(items, i + 1, next, cache);
            assert forall|k: Seq<char>| #[trigger]
                o.contains_key(k) implies (o.get(k) == outcome.get(k) || o.get(k) == cache.get(
                k,
            )) by {
                if o.get(k) != next.get(k) {
                } else if k == items[i] {
                    assert(next.get(k) == cache.get(k));
                } else {
                    assert(next.get(k) == outcome.get(k));
                }
            }
            assert forall|k: Seq<char>| is_well_known(k) implies #[trigger] o.get(k) == outcome.get(
                k,
            ) by {
                assert(k != items[i]);
                assert(next.get(k) == outcome.get(k));
            }
        }
    }
}

/// How many pages a listing fetches when the replies come in this order: it
/// goes on while a page carries a cursor and stops after the first that does
/// not (or that failed).
pub open spec fn pages_fetched(
    target: Seq<char>,
    found: bool,
    pages: Seq<Option<(Seq<Seq<char>>, Option<Seq<char>>)>>,
) -> nat
    decreases pages.len(),
{
    if pages.len() == 0 {
        0
    } else if next_cursor(pages[0]) is Some {
        1 + pages_fetched(target, found_after(target, found, pages[0]), pages.drop_first())
    } else {
        1
    }
}

/// Pagination termination: given pages that each carry a cursor but the
/// last, the listing fetches exactly as many pages as there are, and none
/// past the page without a cursor.
pub proof fn lemma_pagination_stops(
    target: Seq<char>,
    found: bool,
    pages: Seq<Option<(Seq<Seq<char>>, Option<Seq<char>>)>>,
    more: Seq<Option<(Seq<Seq<char>>, Option<Seq<char>>)>>,
)
    requires
        pages.len() > 0,
        forall|i: int| 0 <= i < pages.len() - 1 ==> (#[trigger] pages[i] matches Some((_, c)) && c is Some),
        pages.last() matches Some((_, c)) && c is None,
    ensures
        pages_fetched(target, found, pages) == pages.len(),
        pages_fetched(target, found, pages + more) == pages.len(),
    decreases pages.len(),
{
    if pages.len() > 1 {
        let rest = pages.drop_first();
        assert forall|i: int| 0 <= i < rest.len() - 1 implies (#[trigger] rest[i] matches Some((_, c))
            && c is Some) by {
            assert(rest[i] == pages[i + 1]);
        }
        lemma_pagination_stops(target, found_after(target, found, pages[0]), rest, more);
        assert((pages + more).drop_first() =~= rest + more);
        assert((pages + more)[0] == pages[0]);
    } else {
        assert((pages + more)[0] == pages[0]);
    }
}

} // verus!
