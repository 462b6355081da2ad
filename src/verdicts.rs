//! Verdicts, the cross-check verdict cache, and the outcome of a batch.

use vstd::prelude::*;
use vstd::string::*;
use crate::ident::Nsid;
use crate::text::{
    lemma_text_lt_irreflexive, lemma_text_lt_total,
    lemma_text_lt_transitive, text_less, text_lt,
};

verus! {

/// Whether an NSID is authoritatively published.
#[derive(Debug, Clone, Copy, PartialEq, Eq, Structural)]
pub enum Verdict {
    Valid,
    Invalid,
}

pub open spec fn verdict_of(valid: bool) -> Verdict {
    if valid {
        Verdict::Valid
    } else {
        Verdict::Invalid
    }
}

/// The mapping that a list of (key, value) entries describes; a later entry
/// for a key overrides an earlier one.
pub open spec fn entries_map(s: Seq<(Seq<char>, bool)>) -> Map<Seq<char>, bool>
    decreases s.len(),
{
    if s.len() == 0 {
        Map::empty()
    } else {
        entries_map(s.drop_last()).insert(s.last().0, s.last().1)
    }
}

/// The entries, with each NSID seen as its text.
pub open spec fn entry_views(s: Seq<(Nsid, bool)>) -> Seq<(Seq<char>, bool)> {
    s.map_values(|e: (Nsid, bool)| (e.0@, e.1))
}

proof fn lemma_entries_map_last(s: Seq<(Seq<char>, bool)>, k: Seq<char>, j: int)
    requires
        0 <= j < s.len(),
        s[j].0 == k,
        forall|l: int| j < l < s.len() ==> s[l].0 != k,
    ensures
        entries_map(s).contains_key(k),
        entries_map(s)[k] == s[j].1,
    decreases s.len(),
{
    if j < s.len() - 1 {
        lemma_entries_map_last(s.drop_last(), k, j);
    }
}

proof fn lemma_entries_map_absent(s: Seq<(Seq<char>, bool)>, k: Seq<char>)
    requires
        forall|l: int| 0 <= l < s.len() ==> s[l].0 != k,
    ensures
        !entries_map(s).contains_key(k),
    decreases s.len(),
{
    if s.len() > 0 {
        lemma_entries_map_absent(s.drop_last(), k);
    }
}

/// Keys that appear once each describe the mapping from each key to its value.
proof fn lemma_entries_map_unique(s: Seq<(Seq<char>, bool)>)
    requires
        forall|i: int, j: int| 0 <= i < j < s.len() ==> s[i].0 != s[j].0,
    ensures
        forall|k: Seq<char>| #[trigger]
            entries_map(s).contains_key(k) <==> exists|i: int| 0 <= i < s.len() && s[i].0 == k,
        forall|i: int| 0 <= i < s.len() ==> #[trigger] entries_map(s)[s[i].0] == s[i].1,
{
    assert forall|k: Seq<char>| #[trigger]
        entries_map(s).contains_key(k) <==> exists|i: int| 0 <= i < s.len() && s[i].0 == k by {
        if exists|i: int| 0 <= i < s.len() && s[i].0 == k {
            let i = choose|i: int| 0 <= i < s.len() && s[i].0 == k;
            lemma_entries_map_last(s, k, i);
        } else {
            lemma_entries_map_absent(s, k);
        }
    }
    assert forall|i: int| 0 <= i < s.len() implies #[trigger] entries_map(s)[s[i].0] == s[i].1 by {
        lemma_entries_map_last(s, s[i].0, i);
    }
}

/// What is known of NSIDs across the checks of a run: valid once a schema
/// record was seen for it, invalid once its delegated account was found to
/// lack one.
#[derive(Debug)]
pub struct Cache {
    known_valid: Vec<(Nsid, bool)>,
}

impl View for Cache {
    type V = Map<Seq<char>, bool>;

    closed spec fn view(&self) -> Map<Seq<char>, bool> {
        entries_map(entry_views(self.known_valid@))
    }
}

impl Cache {
    pub fn new() -> (r: Cache)
        ensures
            r@ == Map::<Seq<char>, bool>::empty(),
    {
        Cache { known_valid: Vec::new() }
    }

    /// The cached verdict for `nsid`, if any.
    pub fn cached_verdict(&self, nsid: &Nsid) -> (r: Option<Verdict>)
        ensures
            r == (if self@.contains_key(nsid@) {
                Some(verdict_of(self@[nsid@]))
            } else {
                None
            }),
    {
        let ghost s = entry_views(self.known_valid@);
        let mut k: usize = self.known_valid.len();
        while k > 0
            invariant
                k <= self.known_valid.len(),
                s == entry_views(self.known_valid@),
                forall|l: int| k <= l < s.len() ==> s[l].0 != nsid@,
            decreases k,
        {
            let entry = &self.known_valid[k - 1];
            if entry.0.same_as(nsid) {
                proof {
                    lemma_entries_map_last(s, nsid@, k - 1);
                }
                return if entry.1 {
                    Some(Verdict::Valid)
                } else {
                    Some(Verdict::Invalid)
                };
            }
            k = k - 1;
        }
        proof {
            lemma_entries_map_absent(s, nsid@);
        }
        None
    }

    /// Records that `nsid` is valid.
    pub fn mark_valid(&mut self, nsid: Nsid)
        ensures
            final(self)@ == old(self)@.insert(nsid@, true),
    {
        let ghost old_entries = self.known_valid@;
        self.known_valid.push((nsid, true));
        proof {
            assert(entry_views(self.known_valid@).drop_last() =~= entry_views(old_entries));
        }
    }

    /// Records that `nsid` is invalid, unless it is already known valid: a
    /// validity once established is never withdrawn.
    pub fn mark_invalid(&mut self, nsid: Nsid)
        ensures
            final(self)@ == (if old(self)@.get(nsid@) == Some(true) {
                old(self)@
            } else {
                old(self)@.insert(nsid@, false)
            }),
    {
        if self.cached_verdict(&nsid) == Some(Verdict::Valid) {
            return;
        }
        let ghost old_entries = self.known_valid@;
        self.known_valid.push((nsid, false));
        proof {
            assert(entry_views(self.known_valid@).drop_last() =~= entry_views(old_entries));
        }
    }
}

impl Default for Cache {
    fn default() -> (r: Cache)
        ensures
            r@ == Map::<Seq<char>, bool>::empty(),
    {
        Cache::new()
    }
}

/// Entries whose keys strictly increase in lexicographic order.
pub open spec fn strictly_sorted(s: Seq<(Seq<char>, bool)>) -> bool {
    forall|i: int, j: int| 0 <= i < j < s.len() ==> text_lt(s[i].0, s[j].0)
}

proof fn lemma_sorted_unique(s: Seq<(Seq<char>, bool)>)
    requires
        strictly_sorted(s),
    ensures
        forall|i: int, j: int| 0 <= i < j < s.len() ==> s[i].0 != s[j].0,
{
    assert forall|i: int, j: int| 0 <= i < j < s.len() implies s[i].0 != s[j].0 by {
        lemma_text_lt_irreflexive(s[i].0);
    }
}

/// The verdicts of one batch, one per NSID checked, kept in alphabetical
/// order of the NSIDs.
#[derive(Debug)]
pub struct Outcome {
    validity: Vec<(Nsid, bool)>,
}

impl View for Outcome {
    type V = Map<Seq<char>, bool>;

    closed spec fn view(&self) -> Map<Seq<char>, bool> {
        entries_map(entry_views(self.validity@))
    }
}

impl Outcome {
    /// The verdicts in the order they are reported.
    pub closed spec fn entries(&self) -> Seq<(Seq<char>, bool)> {
        entry_views(self.validity@)
    }

    #[verifier::type_invariant]
    spec fn inv(self) -> bool {
        strictly_sorted(entry_views(self.validity@))
    }

    pub fn new() -> (r: Outcome)
        ensures
            r@ == Map::<Seq<char>, bool>::empty(),
    {
        let r = Outcome { validity: Vec::new() };
        proof {
            assert(entry_views(r.validity@) =~= Seq::<(Seq<char>, bool)>::empty());
        }
        r
    }

    /// Records the verdict for `nsid`, replacing an earlier one.
    fn record(&mut self, nsid: Nsid, valid: bool)
        ensures
            final(self)@ == old(self)@.insert(nsid@, valid),
    {
        let mut taken = Outcome::new();
        std::mem::swap(self, &mut taken);
        *self = taken.recorded(nsid, valid);
    }

    /// This outcome with the verdict for `nsid` recorded.
    fn recorded(self, nsid: Nsid, valid: bool) -> (r: Outcome)
        ensures
            r@ == self@.insert(nsid@, valid),
    {
        proof {
            use_type_invariant(&self);
        }
        let ghost old_views = entry_views(self.validity@);
        let mut validity = self.validity;
        let ghost k = nsid@;
        let len = validity.len();
        let mut p: usize = 0;
        let mut stop = false;
        while !stop && p < len
            invariant
                len == validity.len(),
                k == nsid@,
                p <= len,
                old_views == entry_views(validity@),
                strictly_sorted(old_views),
                forall|i: int| 0 <= i < p ==> text_lt(old_views[i].0, k),
                stop ==> p < len && !text_lt(old_views[p as int].0, k),
            decreases len - p + (if stop { 0int } else { 1int }),
        {
            proof {
                assert(old_views[p as int].0 == validity@[p as int].0@);
            }
            if text_less(validity[p].0.as_str(), nsid.as_str()) {
                p = p + 1;
            } else {
                stop = true;
            }
        }
        let ghost old_entries = validity@;
        let found = p < len && validity[p].0.same_as(&nsid);
        proof {
            lemma_sorted_unique(old_views);
            lemma_entries_map_unique(old_views);
        }
        if found {
            validity.set(p, (nsid, valid));
        } else {
            validity.insert(p, (nsid, valid));
        }
        proof {
            let t = entry_views(validity@);
            if found {
                assert(t =~= old_views.update(p as int, (k, valid)));
            } else {
                assert(t =~= old_views.insert(p as int, (k, valid)));
                if p < len {
                    assert(old_views[p as int].0 == old_entries[p as int].0@);
                    lemma_text_lt_total(k, old_views[p as int].0);
                }
                assert forall|j: int| p < j < t.len() implies text_lt(k, t[j].0) by {
                    if j > p + 1 {
                        lemma_text_lt_transitive(k, old_views[p as int].0, t[j].0);
                    }
                }
                assert forall|i: int, j: int| 0 <= i < j < t.len() implies text_lt(
                    t[i].0,
                    t[j].0,
                ) by {
                    if i < p && j > p {
                        lemma_text_lt_transitive(t[i].0, k, t[j].0);
                    } else if i > p {
                        assert(t[i] == old_views[i - 1] && t[j] == old_views[j - 1]);
                    }
                }
            }
            assert(strictly_sorted(t));
            lemma_sorted_unique(t);
            lemma_entries_map_unique(t);
            assert(entries_map(t) =~= entries_map(old_views).insert(k, valid)) by {
                assert forall|key: Seq<char>| #[trigger]
                    entries_map(old_views).insert(k, valid).contains_key(key) implies
                    entries_map(t).contains_key(key) by {
                    if key != k {
                        let i = choose|i: int| 0 <= i < old_views.len() && old_views[i].0 == key;
                        if found || i < p {
                            assert(t[i].0 == key);
                        } else {
                            assert(t[i + 1].0 == key);
                        }
                    } else {
                        assert(t[p as int].0 == key);
                    }
                }
                assert forall|key: Seq<char>| #[trigger]
                    entries_map(t).contains_key(key) implies
                    entries_map(old_views).insert(k, valid).contains_key(key)
                    && entries_map(t)[key] == entries_map(old_views).insert(k, valid)[key] by {
                    let i = choose|i: int| 0 <= i < t.len() && t[i].0 == key;
                    if key != k {
                        if found || i < p {
                            assert(old_views[i].0 == key);
                            assert(entries_map(t)[t[i].0] == t[i].1);
                        } else {
                            assert(old_views[i - 1].0 == key);
                            assert(entries_map(t)[t[i].0] == t[i].1);
                        }
                    } else {
                        assert(entries_map(t)[t[p as int].0] == t[p as int].1);
                    }
                }
            }
        }
        Outcome { validity }
    }

    /// Records that `nsid` was found valid.
    pub fn mark_valid(&mut self, nsid: Nsid)
        ensures
            final(self)@ == old(self)@.insert(nsid@, true),
    {
        self.record(nsid, true);
    }

    /// Records that `nsid` was found invalid.
    pub fn mark_invalid(&mut self, nsid: Nsid)
        ensures
            final(self)@ == old(self)@.insert(nsid@, false),
    {
        self.record(nsid, false);
    }

    /// The verdicts, alphabetical by NSID, one entry per NSID.
    pub fn ordered_results(&self) -> (r: Vec<(Nsid, bool)>)
        ensures
            entry_views(r@) == self.entries(),
            strictly_sorted(entry_views(r@)),
            entries_map(entry_views(r@)) == self@,
    {
        proof {
            use_type_invariant(self);
        }
        let mut r: Vec<(Nsid, bool)> = Vec::new();
        let mut i: usize = 0;
        while i < self.validity.len()
            invariant
                i <= self.validity.len(),
                entry_views(r@) == entry_views(self.validity@).subrange(0, i as int),
            decreases self.validity.len() - i,
        {
            let e = &self.validity[i];
            let ghost before = r@;
            r.push((e.0.clone(), e.1));
            proof {
                assert(entry_views(r@) =~= entry_views(before).push((e.0@, e.1)));
                assert(entry_views(r@) =~= entry_views(self.validity@).subrange(0, i + 1));
            }
            i = i + 1;
        }
        proof {
            assert(entry_views(r@) =~= entry_views(self.validity@));
        }
        r
    }
}

/// The mark printed after a valid NSID.
pub open spec fn valid_mark() -> Seq<char> {
    seq!['\u{2705}']
}

/// The mark printed after an invalid NSID.
pub open spec fn invalid_mark() -> Seq<char> {
    seq!['\u{274c}']
}

/// The report of a list of verdicts: one line per entry, the NSID, a tab and
/// its mark.
pub open spec fn report_text(s: Seq<(Seq<char>, bool)>) -> Seq<char>
    decreases s.len(),
{
    if s.len() == 0 {
        Seq::empty()
    } else {
        report_text(s.drop_last()) + s.last().0 + seq!['\t'] + (if s.last().1 {
            valid_mark()
        } else {
            invalid_mark()
        }) + seq!['\n']
    }
}

impl Outcome {
    /// The verdicts as text, one line per NSID in alphabetical order.
    pub fn report(&self) -> (r: String)
        ensures
            r@ == report_text(self.entries()),
    {
        let mut r = String::new();
        let mut i: usize = 0;
        while i < self.validity.len()
            invariant
                i <= self.validity.len(),
                r@ == report_text(entry_views(self.validity@).subrange(0, i as int)),
            decreases self.validity.len() - i,
        {
            let ghost before = entry_views(self.validity@).subrange(0, i as int);
            let e = &self.validity[i];
            r.append(e.0.as_str());
            r.append("\t");
            if e.1 {
                r.append("\u{2705}");
            } else {
                r.append("\u{274c}");
            }
            r.append("\n");
            proof {
                reveal_strlit("\t");
                reveal_strlit("\n");
                reveal_strlit("\u{2705}");
                reveal_strlit("\u{274c}");
                let after = entry_views(self.validity@).subrange(0, i + 1);
                assert(after.drop_last() =~= before);
                assert(after.last() == (e.0@, e.1));
                assert(r@ =~= report_text(after));
            }
            i = i + 1;
        }
        proof {
            assert(entry_views(self.validity@).subrange(0, self.validity.len() as int)
                =~= entry_views(self.validity@));
        }
        r
    }
}

impl Default for Outcome {
    fn default() -> (r: Outcome)
        ensures
            r@ == Map::<Seq<char>, bool>::empty(),
    {
        Outcome::new()
    }
}

} // verus!
