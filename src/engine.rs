//! The verification engine, as state machines: a check of one NSID, and a
//! batch of checks sharing one verdict cache.
//!
//! The caller performs each request a machine hands out (a DNS TXT query, a
//! page of schema records) and hands the reply back; the machines decide
//! everything else.

use vstd::prelude::*;
use crate::atproto::{get_lexicon_nsids, nsid_texts, page_nsids, string_texts, FoundLexica, RecordPage};
use crate::dns::{answers_did, get_txt_did, lexicon_address, nsid_address, DnsAnswer};
use crate::error::AppError;
use crate::ident::{is_well_known, Did, Nsid};
use crate::verdicts::{verdict_of, Cache, Outcome, Verdict};

verus! {

/// What the caller is asked to do next.
#[derive(Debug)]
pub enum Request {
    /// Query the TXT records at this DNS name and hand back the answers.
    QueryTxt(String),
    /// Fetch the page of the account's schema records that starts at the
    /// cursor (the first page where there is none) and hand it back.
    ListSchemas(Did, Option<String>),
    /// Nothing more: the check is finished.
    Done,
}

/// Where a check of one NSID stands.
#[derive(Debug)]
pub enum Phase {
    /// Waiting for the answers to the delegation TXT query.
    Resolving,
    /// Listing the delegated account's schema records.
    Listing {
        did: Did,
        /// Where the page to fetch starts; `None` for the first page.
        cursor: Option<String>,
        /// Whether the NSID was among the records seen so far.
        found: bool,
    },
    /// Decided.
    Finished(Verdict),
}

/// The texts of an optional string.
pub open spec fn opt_text(o: Option<String>) -> Option<Seq<char>> {
    match o {
        Some(s) => Some(s@),
        None => None,
    }
}

/// What a reply to a page request says: the NSIDs on the page and the cursor
/// of the next one; nothing where the request failed or a record's address
/// does not name an NSID.
pub open spec fn page_view(reply: Result<RecordPage, AppError>) -> Option<(Seq<Seq<char>>, Option<Seq<char>>)> {
    match reply {
        Ok(p) => match page_nsids(string_texts(p.uris@)) {
            Some(ns) => Some((ns, opt_text(p.cursor))),
            None => None,
        },
        Err(_) => None,
    }
}

/// The cursor of the page to fetch after this one, if the listing goes on.
pub open spec fn next_cursor(pv: Option<(Seq<Seq<char>>, Option<Seq<char>>)>) -> Option<Seq<char>> {
    match pv {
        Some((_, c)) => c,
        None => None,
    }
}

/// Whether the target has been seen, once this page is taken into account.
pub open spec fn found_after(
    target: Seq<char>,
    found: bool,
    pv: Option<(Seq<Seq<char>>, Option<Seq<char>>)>,
) -> bool {
    found || match pv {
        Some((ns, _)) => ns.contains(target),
        None => false,
    }
}

/// The cache with every listed NSID marked valid, in order.
pub open spec fn marked_valid(cache: Map<Seq<char>, bool>, ns: Seq<Seq<char>>) -> Map<Seq<char>, bool>
    decreases ns.len(),
{
    if ns.len() == 0 {
        cache
    } else {
        marked_valid(cache, ns.drop_last()).insert(ns.last(), true)
    }
}

/// The cache with `k` marked invalid, unless it is known valid.
pub open spec fn marked_invalid(cache: Map<Seq<char>, bool>, k: Seq<char>) -> Map<Seq<char>, bool> {
    if cache.get(k) == Some(true) {
        cache
    } else {
        cache.insert(k, false)
    }
}

/// The cache after a page reply: each NSID on the page marked valid, and the
/// target marked invalid when the listing ends without it.
pub open spec fn cache_after_page(
    cache: Map<Seq<char>, bool>,
    target: Seq<char>,
    found: bool,
    pv: Option<(Seq<Seq<char>>, Option<Seq<char>>)>,
) -> Map<Seq<char>, bool> {
    let marked = match pv {
        Some((ns, _)) => marked_valid(cache, ns),
        None => cache,
    };
    if next_cursor(pv) is None && !found_after(target, found, pv) {
        marked_invalid(marked, target)
    } else {
        marked
    }
}

/// The check of one NSID, assumed absent from the cache.
#[derive(Debug)]
pub struct CollectionCheck {
    pub nsid: Nsid,
    pub phase: Phase,
}

impl CollectionCheck {
    /// A check of `nsid`, about to resolve its delegation.
    pub fn new(nsid: Nsid) -> (r: CollectionCheck)
        ensures
            r.nsid@ == nsid@,
            r.phase is Resolving,
    {
        CollectionCheck { nsid, phase: Phase::Resolving }
    }

    /// The request that the check waits on.
    pub fn pending(&self) -> (r: Request)
        ensures
            self.phase is Resolving ==> (r matches Request::QueryTxt(a) && a@ == lexicon_address(
                self.nsid@,
            )),
            self.phase matches Phase::Listing { did, cursor, .. } ==> (r matches Request::ListSchemas(
                d,
                c,
            ) && d@ == did@ && opt_text(c) == opt_text(cursor)),
            self.phase is Finished ==> r is Done,
    {
        match &self.phase {
            Phase::Resolving => Request::QueryTxt(nsid_address(self.nsid.as_str())),
            Phase::Listing { did, cursor, .. } => {
                let c = match cursor {
                    Some(s) => Some(s.clone()),
                    None => None,
                };
                Request::ListSchemas(did.clone(), c)
            },
            Phase::Finished(_) => Request::Done,
        }
    }

    /// The verdict, once the check is finished.
    pub fn verdict(&self) -> (r: Option<Verdict>)
        ensures
            r == (match self.phase {
                Phase::Finished(v) => Some(v),
                _ => None,
            }),
    {
        match &self.phase {
            Phase::Finished(v) => Some(*v),
            _ => None,
        }
    }

    /// Takes the answers to the delegation TXT query (or the failure of the
    /// query). Without a delegated account the NSID is invalid; with one, the
    /// listing of its schema records starts from the first page. A reply
    /// that the check does not wait on changes nothing.
    pub fn on_txt(&mut self, reply: Result<Vec<DnsAnswer>, AppError>)
        ensures
            final(self).nsid@ == old(self).nsid@,
            !(old(self).phase is Resolving) ==> final(self).phase == old(self).phase,
            old(self).phase is Resolving ==> match reply {
                Ok(answers) => match answers_did(answers@) {
                    Some(d) => final(self).phase matches Phase::Listing { did, cursor, found } && did@
                        == d && cursor is None && !found,
                    None => final(self).phase == Phase::Finished(Verdict::Invalid),
                },
                Err(_) => final(self).phase == Phase::Finished(Verdict::Invalid),
            },
    {
        match &self.phase {
            Phase::Resolving => {},
            _ => {
                return;
            },
        }
        match reply {
            Ok(answers) => {
                let address = nsid_address(self.nsid.as_str());
                match get_txt_did(address.as_str(), &answers) {
                    Ok(did) => {
                        self.phase = Phase::Listing { did, cursor: None, found: false };
                    },
                    Err(_) => {
                        self.phase = Phase::Finished(Verdict::Invalid);
                    },
                }
            },
            Err(_) => {
                self.phase = Phase::Finished(Verdict::Invalid);
            },
        }
    }
}

impl CollectionCheck {
    /// Takes the reply to a page request. Every NSID on the page is marked
    /// valid in the cache. Where the page has a cursor the listing goes on
    /// from it; otherwise, or where the request failed, the check ends: valid
    /// if the NSID was seen, else invalid and so marked in the cache. A reply
    /// that the check does not wait on changes nothing.
    pub fn on_page(&mut self, cache: &mut Cache, reply: Result<RecordPage, AppError>)
        ensures
            final(self).nsid@ == old(self).nsid@,
            !(old(self).phase is Listing) ==> final(self).phase == old(self).phase && final(cache)@
                == old(cache)@,
            old(self).phase matches Phase::Listing { did, found, .. } ==> ({
                let pv = page_view(reply);
                let now_found = found_after(old(self).nsid@, found, pv);
                &&& final(cache)@ == cache_after_page(old(cache)@, old(self).nsid@, found, pv)
                &&& match next_cursor(pv) {
                    Some(c) => final(self).phase matches Phase::Listing {
                        did: d2,
                        cursor: c2,
                        found: f2,
                    } && d2@ == did@ && opt_text(c2) == Some(c) && f2 == now_found,
                    None => final(self).phase == Phase::Finished(verdict_of(now_found)),
                }
            }),
    {
        let (did, was_found) = match &self.phase {
            Phase::Listing { did, found, .. } => (did.clone(), *found),
            _ => {
                return;
            },
        };
        let ghost pv = page_view(reply);
        let ghost target = self.nsid@;
        let ghost cache0 = cache@;
        let mut found = was_found;
        let parsed = match reply {
            Ok(page) => get_lexicon_nsids(page),
            Err(e) => Err(e),
        };
        match parsed {
            Ok(FoundLexica { lexica, cursor }) => {
                let ghost ns = nsid_texts(lexica@);
                let mut i: usize = 0;
                while i < lexica.len()
                    invariant
                        i <= lexica.len(),
                        ns == nsid_texts(lexica@),
                        target == self.nsid@,
                        cache@ == marked_valid(cache0, ns.subrange(0, i as int)),
                        found == (was_found || ns.subrange(0, i as int).contains(target)),
                    decreases lexica.len() - i,
                {
                    let ghost before = ns.subrange(0, i as int);
                    cache.mark_valid(lexica[i].clone());
                    if lexica[i].same_as(&self.nsid) {
                        found = true;
                    }
                    proof {
                        let after = ns.subrange(0, i + 1);
                        assert(after.drop_last() =~= before);
                        assert(after.last() == lexica@[i as int]@);
                        if after.contains(target) && !before.contains(target) {
                            let j = choose|j: int| 0 <= j < after.len() && after[j] == target;
                            assert(j == i);
                        }
                        if before.contains(target) {
                            let j = choose|j: int| 0 <= j < before.len() && before[j] == target;
                            assert(after[j] == target);
                        }
                    }
                    i = i + 1;
                }
                proof {
                    assert(ns.subrange(0, ns.len() as int) =~= ns);
                }
                match cursor {
                    Some(c) => {
                        self.phase = Phase::Listing { did, cursor: Some(c), found };
                        return;
                    },
                    None => {},
                }
            },
            Err(_) => {},
        }
        if found {
            self.phase = Phase::Finished(Verdict::Valid);
        } else {
            cache.mark_invalid(self.nsid.clone());
            self.phase = Phase::Finished(Verdict::Invalid);
        }
    }
}

/// Walks the batch from position `i`: NSIDs of the reserved namespace are
/// skipped, those in the cache take their cached verdict into the outcome. It
/// stops at the first NSID that needs a check (its position and the outcome
/// so far), or at the end.
pub open spec fn scan(
    items: Seq<Seq<char>>,
    i: int,
    outcome: Map<Seq<char>, bool>,
    cache: Map<Seq<char>, bool>,
) -> (int, Map<Seq<char>, bool>)
    decreases items.len() - i,
{
    if i < 0 || i >= items.len() {
        (i, outcome)
    } else if is_well_known(items[i]) {
        scan(items, i + 1, outcome, cache)
    } else if cache.contains_key(items[i]) {
        scan(items, i + 1, outcome.insert(items[i], cache[items[i]]), cache)
    } else {
        (i, outcome)
    }
}

/// A batch of checks over a list of NSIDs, in list order, with one outcome.
#[derive(Debug)]
pub struct BatchCheck {
    /// The NSIDs to check.
    pub collections: Vec<Nsid>,
    /// The position of the first NSID not yet taken up.
    pub next: usize,
    /// The verdicts so far.
    pub outcome: Outcome,
}

impl BatchCheck {
    pub fn new(collections: Vec<Nsid>) -> (r: BatchCheck)
        ensures
            r.collections@ == collections@,
            r.next == 0,
            r.outcome@ == Map::<Seq<char>, bool>::empty(),
    {
        BatchCheck { collections, next: 0, outcome: Outcome::new() }
    }

    /// Takes up NSIDs until one needs a check, and returns that check; none
    /// once the list is exhausted. NSIDs of the reserved namespace are
    /// skipped and left out of the outcome; NSIDs in the cache take their
    /// cached verdict, with no check.
    pub fn next_check(&mut self, cache: &Cache) -> (r: Option<CollectionCheck>)
        requires
            old(self).next <= old(self).collections.len(),
        ensures
            ({
                let items = nsid_texts(old(self).collections@);
                let stop = scan(items, old(self).next as int, old(self).outcome@, cache@);
                let j = stop.0;
                &&& final(self).collections@ == old(self).collections@
                &&& final(self).outcome@ == stop.1
                &&& j >= items.len() ==> r is None && final(self).next == items.len()
                &&& j < items.len() ==> (r matches Some(c) && c.nsid@ == items[j] && c.phase is Resolving
                    && final(self).next == j + 1)
            }),
    {
        let ghost items = nsid_texts(self.collections@);
        let ghost target = scan(items, self.next as int, self.outcome@, cache@);
        while self.next < self.collections.len()
            invariant
                self.collections@ == old(self).collections@,
                items == nsid_texts(self.collections@),
                self.next <= self.collections.len(),
                scan(items, self.next as int, self.outcome@, cache@) == target,
                target == scan(
                    nsid_texts(old(self).collections@),
                    old(self).next as int,
                    old(self).outcome@,
                    cache@,
                ),
            decreases self.collections.len() - self.next,
        {
            let i = self.next;
            self.next = i + 1;
            proof {
                assert(items[i as int] == self.collections@[i as int]@);
            }
            if self.collections[i].is_well_known() {
                continue;
            }
            match cache.cached_verdict(&self.collections[i]) {
                Some(Verdict::Valid) => {
                    let n = self.collections[i].clone();
                    self.outcome.mark_valid(n);
                },
                Some(Verdict::Invalid) => {
                    let n = self.collections[i].clone();
                    self.outcome.mark_invalid(n);
                },
                None => {
                    return Some(CollectionCheck::new(self.collections[i].clone()));
                },
            }
        }
        None
    }

    /// Takes a finished check's verdict into the outcome; an unfinished
    /// check changes nothing.
    pub fn record(&mut self, check: CollectionCheck)
        ensures
            final(self).collections@ == old(self).collections@,
            final(self).next == old(self).next,
            final(self).outcome@ == (match check.phase {
                Phase::Finished(v) => old(self).outcome@.insert(check.nsid@, v == Verdict::Valid),
                _ => old(self).outcome@,
            }),
    {
        match check.phase {
            Phase::Finished(Verdict::Valid) => self.outcome.mark_valid(check.nsid),
            Phase::Finished(Verdict::Invalid) => self.outcome.mark_invalid(check.nsid),
            _ => {},
        }
    }

    /// The outcome of the batch.
    pub fn into_outcome(self) -> (r: Outcome)
        ensures
            r@ == self.outcome@,
    {
        self.outcome
    }
}

} // verus!
