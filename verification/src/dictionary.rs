//! The word dictionary: an immutable entry list with exact lookup and
//! ranked prefix suggestion, plus a small mutable recency log that
//! boosts recently used words.
//!
//! Exact lookup returns the first-inserted entry for a word; suggestion
//! gathers every entry sharing the prefix, boosts the frequency of
//! recently used words, and ranks the result with a stable descending
//! sort.

use crate::ranking;
use crate::ranking::Cand;
use crate::ranking::ExCand;
use crate::ranking::cand_lt;
use crate::ranking::cands_view;
use crate::ranking::clone_string;
use crate::ranking::exc_view;
use crate::ranking::sort_ranked;
use crate::ranking::spec_sort_ranked;
use crate::text::str_eq;
use vstd::prelude::*;
use vstd::string::StrSliceExecFns;
use vstd::string::StringExecFns;

verus! {

/// How many words the recency log holds at most.
pub const MAX_RECENTS: usize = 50;

/// The fixed bonus added, for ranking only, to the frequency of a word
/// found in the recency log.
pub const RECENCY_BONUS: u64 = 50;

/// One dictionary entry. The word `tamil` need not be unique across
/// entries; exact lookup returns the first-inserted match.
#[derive(Debug)]
pub struct DictEntry {
    pub tamil: String,
    pub translit: String,
    pub en: String,
    pub freq: u32,
    pub category: String,
}

pub struct Dictionary {
    entries: Vec<DictEntry>,
    recents: Vec<String>,
}

/// The views of a sequence of strings.
pub open spec fn views_of(v: Seq<String>) -> Seq<Seq<char>> {
    Seq::new(v.len(), |i: int| v[i]@)
}

/// The first entry whose word equals `word`, in insertion order.
pub open spec fn spec_first_match(entries: Seq<DictEntry>, word: Seq<char>) -> Option<DictEntry>
    decreases entries.len(),
{
    if entries.len() == 0 {
        None
    } else if entries.first().tamil@ == word {
        Some(entries.first())
    } else {
        spec_first_match(entries.drop_first(), word)
    }
}

/// The recency log after recording `w`: any earlier occurrence of `w` is
/// removed, `w` moves to the front, and the oldest word is evicted when
/// the log would exceed its capacity.
pub open spec fn spec_record_usage(recents: Seq<Seq<char>>, w: Seq<char>) -> Seq<Seq<char>> {
    let pushed = seq![w] + spec_remove_all(recents, w);
    if pushed.len() > MAX_RECENTS {
        pushed.drop_last()
    } else {
        pushed
    }
}

/// `recents` with every occurrence of `w` removed, order kept.
pub open spec fn spec_remove_all(recents: Seq<Seq<char>>, w: Seq<char>) -> Seq<Seq<char>>
    decreases recents.len(),
{
    if recents.len() == 0 {
        recents
    } else {
        spec_remove_all(recents.drop_last(), w) + (if recents.last() == w {
            Seq::<Seq<char>>::empty()
        } else {
            seq![recents.last()]
        })
    }
}

/// The frequency used for ranking: the stored frequency plus the bonus
/// when the word is in the recency log.
pub open spec fn spec_boost(e: DictEntry, recents: Seq<Seq<char>>) -> int {
    e.freq + (if recents.contains(e.tamil@) {
        RECENCY_BONUS as int
    } else {
        0int
    })
}

/// The suggestion candidates for `prefix`: every entry sharing the
/// prefix, in insertion order, each carrying its boosted frequency and
/// its position in that order.
pub open spec fn spec_cands(
    entries: Seq<DictEntry>,
    recents: Seq<Seq<char>>,
    prefix: Seq<char>,
) -> Seq<Cand>
    decreases entries.len(),
{
    if entries.len() == 0 {
        Seq::<Cand>::empty()
    } else {
        let rest = spec_cands(entries.drop_last(), recents, prefix);
        if prefix.is_prefix_of(entries.last().tamil@) {
            rest.push(
                Cand {
                    word: entries.last().tamil@,
                    key: spec_boost(entries.last(), recents),
                    pos: rest.len() as int,
                },
            )
        } else {
            rest
        }
    }
}

/// The candidates in their final order: stably sorted by descending
/// boosted frequency, ties kept in traversal order.
pub open spec fn spec_ranking(
    entries: Seq<DictEntry>,
    recents: Seq<Seq<char>>,
    prefix: Seq<char>,
) -> Seq<Cand> {
    spec_sort_ranked(spec_cands(entries, recents, prefix))
}

/// What `suggest` returns: nothing for an empty prefix, else the ranked
/// words cut down to `limit`.
pub open spec fn spec_suggest(
    entries: Seq<DictEntry>,
    recents: Seq<Seq<char>>,
    prefix: Seq<char>,
    limit: int,
) -> Seq<Seq<char>> {
    if prefix.len() == 0 {
        Seq::<Seq<char>>::empty()
    } else {
        let ranked = spec_ranking(entries, recents, prefix);
        Seq::new(
            (if limit < ranked.len() {
                limit
            } else {
                ranked.len() as int
            }) as nat,
            |i: int| ranked[i].word,
        )
    }
}

/// Compare a prefix against a word character by character.
pub fn is_prefix_exec(p: &str, w: &str) -> (r: bool)
    ensures
        r == p@.is_prefix_of(w@),
{
    let pn = p.unicode_len();
    let wn = w.unicode_len();
    if pn > wn {
        return false;
    }
    let mut i: usize = 0;
    while i < pn
        invariant
            pn == p@.len(),
            wn == w@.len(),
            pn <= wn,
            i <= pn,
            forall|j: int| 0 <= j < i ==> p@[j] == w@[j],
        decreases pn - i,
    {
        if p.get_char(i) != w.get_char(i) {
            assert(p@ != w@.subrange(0, pn as int));
            return false;
        }
        i = i + 1;
    }
    assert(p@ =~= w@.subrange(0, pn as int));
    true
}

/// Whether `w` is one of the strings in `recents`.
fn recents_contains(recents: &Vec<String>, w: &str) -> (r: bool)
    ensures
        r == views_of(recents@).contains(w@),
{
    let n = recents.len();
    let mut i: usize = 0;
    while i < n
        invariant
            n == recents@.len(),
            i <= n,
            forall|j: int| 0 <= j < i ==> #[trigger] views_of(recents@)[j] != w@,
        decreases n - i,
    {
        if str_eq(recents[i].as_str(), w) {
            assert(views_of(recents@)[i as int] == w@);
            return true;
        }
        assert(views_of(recents@)[i as int] == recents@[i as int]@);
        i = i + 1;
    }
    assert(forall|j: int| 0 <= j < views_of(recents@).len() ==> #[trigger] views_of(recents@)[j]
        != w@);
    false
}

impl Dictionary {
    /// The entry list, in insertion order.
    pub closed spec fn spec_entries(&self) -> Seq<DictEntry> {
        self.entries@
    }

    /// The recency log, most recent first.
    pub closed spec fn spec_recents(&self) -> Seq<Seq<char>> {
        views_of(self.recents@)
    }

    /// A dictionary over an already loaded entry list, with an empty
    /// recency log.
    pub fn new(entries: Vec<DictEntry>) -> (d: Dictionary)
        ensures
            d.spec_entries() == entries@,
            d.spec_recents() == Seq::<Seq<char>>::empty(),
    {
        let d = Dictionary { entries, recents: Vec::new() };
        assert(views_of(d.recents@) =~= Seq::<Seq<char>>::empty());
        d
    }

    /// Exact lookup: the first-inserted entry for `word`, if any.
    pub fn lookup<'a>(&'a self, word: &str) -> (r: Option<&'a DictEntry>)
        ensures
            r matches Some(e) ==> spec_first_match(self.spec_entries(), word@) == Some(*e),
            r is None ==> spec_first_match(self.spec_entries(), word@) is None,
    {
        let n = self.entries.len();
        let mut i: usize = 0;
        assert(self.entries@.skip(0) =~= self.entries@);
        while i < n
            invariant
                n == self.entries@.len(),
                i <= n,
                spec_first_match(self.entries@, word@) == spec_first_match(
                    self.entries@.skip(i as int),
                    word@,
                ),
            decreases n - i,
        {
            let ghost pre = self.entries@.skip(i as int);
            assert(pre.first() == self.entries@[i as int]);
            if str_eq(self.entries[i].tamil.as_str(), word) {
                return Some(&self.entries[i]);
            }
            assert(pre.drop_first() =~= self.entries@.skip(i as int + 1));
            i = i + 1;
        }
        assert(self.entries@.skip(n as int) =~= Seq::<DictEntry>::empty());
        None
    }

    /// Whether `word` has an entry.
    pub fn contains(&self, word: &str) -> (r: bool)
        ensures
            r == (spec_first_match(self.spec_entries(), word@) is Some),
    {
        self.lookup(word).is_some()
    }

    /// The translation of `word`, from its first-inserted entry.
    pub fn translate(&self, word: &str) -> (r: Option<String>)
        ensures
            r matches Some(s) ==> spec_first_match(self.spec_entries(), word@) matches Some(e)
                && s@ == e.en@,
            r is None ==> spec_first_match(self.spec_entries(), word@) is None,
    {
        match self.lookup(word) {
            Some(e) => Some(clone_string(&e.en)),
            None => None,
        }
    }

    /// The transliteration of `word`, from its first-inserted entry.
    pub fn transliterate(&self, word: &str) -> (r: Option<String>)
        ensures
            r matches Some(s) ==> spec_first_match(self.spec_entries(), word@) matches Some(e)
                && s@ == e.translit@,
            r is None ==> spec_first_match(self.spec_entries(), word@) is None,
    {
        match self.lookup(word) {
            Some(e) => Some(clone_string(&e.translit)),
            None => None,
        }
    }

    /// The number of entries, saturating at the largest reportable
    /// count.
    pub fn word_count(&self) -> (r: u32)
        ensures
            r as nat == vstd::math::min(self.spec_entries().len() as int, u32::MAX as int),
    {
        let n = self.entries.len();
        if n > u32::MAX as usize {
            u32::MAX
        } else {
            n as u32
        }
    }

    /// Record that `word` was used: move it to the front of the recency
    /// log, evicting the oldest word on overflow. The entry list is
    /// untouched.
    pub fn record_usage(&mut self, word: &str)
        ensures
            final(self).spec_entries() == old(self).spec_entries(),
            final(self).spec_recents() == spec_record_usage(old(self).spec_recents(), word@),
    {
        let ghost rv = views_of(self.recents@);
        let mut kept: Vec<String> = Vec::new();
        kept.push(String::from_str(word));
        assert(views_of(kept@) =~= seq![word@] + spec_remove_all(rv.take(0), word@));
        let n = self.recents.len();
        let mut i: usize = 0;
        while i < n
            invariant
                n == self.recents@.len(),
                i <= n,
                rv == views_of(self.recents@),
                views_of(kept@) == seq![word@] + spec_remove_all(rv.take(i as int), word@),
            decreases n - i,
        {
            assert(rv[i as int] == self.recents@[i as int]@);
            let ghost kv = views_of(kept@);
            if !str_eq(self.recents[i].as_str(), word) {
                let s = clone_string(&self.recents[i]);
                kept.push(s);
                assert(views_of(kept@) =~= kv.push(rv[i as int]));
            }
            proof {
                assert(rv.take(i + 1).drop_last() =~= rv.take(i as int));
                assert(rv.take(i + 1).last() == rv[i as int]);
                assert(views_of(kept@) =~= seq![word@] + spec_remove_all(
                    rv.take(i + 1),
                    word@,
                ));
            }
            i = i + 1;
        }
        assert(rv.take(n as int) =~= rv);
        if kept.len() > MAX_RECENTS {
            let ghost kv = views_of(kept@);
            kept.pop();
            assert(views_of(kept@) =~= kv.drop_last());
        }
        self.recents = kept;
    }

    /// Ranked prefix search: every word sharing `prefix`, stably sorted
    /// by frequency boosted with the recency bonus, cut down to `limit`
    /// results. An empty prefix gives no suggestions, by design.
    pub fn suggest(&self, prefix: &str, limit: usize) -> (r: Vec<String>)
        ensures
            views_of(r@) == spec_suggest(
                self.spec_entries(),
                self.spec_recents(),
                prefix@,
                limit as int,
            ),
            r@.len() <= limit,
            prefix@.len() == 0 ==> r@.len() == 0,
            forall|i: int| 0 <= i < r@.len() ==> prefix@.is_prefix_of(#[trigger] r@[i]@),
    {
        let ghost entries = self.entries@;
        let ghost recs = views_of(self.recents@);
        if prefix.is_empty() {
            let r = Vec::<String>::new();
            assert(views_of(r@) =~= Seq::<Seq<char>>::empty());
            return r;
        }

        // Gather the candidates in insertion order.
        let n = self.entries.len();
        let mut cands: Vec<ExCand> = Vec::new();
        let mut i: usize = 0;
        assert(cands_view(cands@) =~= spec_cands(entries.take(0), recs, prefix@));
        while i < n
            invariant
                n == self.entries@.len(),
                i <= n,
                entries == self.entries@,
                recs == views_of(self.recents@),
                cands_view(cands@) == spec_cands(entries.take(i as int), recs, prefix@),
            decreases n - i,
        {
            let e = &self.entries[i];
            let ghost cv = cands_view(cands@);
            if is_prefix_exec(prefix, e.tamil.as_str()) {
                let key: u64 = if recents_contains(&self.recents, e.tamil.as_str()) {
                    e.freq as u64 + RECENCY_BONUS
                } else {
                    e.freq as u64
                };
                let pos = cands.len();
                let word = clone_string(&e.tamil);
                cands.push(ExCand { word, key, pos });
                assert(cands_view(cands@) =~= cv.push(
                    Cand {
                        word: entries[i as int].tamil@,
                        key: spec_boost(entries[i as int], recs),
                        pos: cv.len() as int,
                    },
                ));
            }
            proof {
                assert(entries.take(i + 1).drop_last() =~= entries.take(i as int));
                assert(entries.take(i + 1).last() == entries[i as int]);
            }
            i = i + 1;
        }
        assert(entries.take(n as int) =~= entries);
        let ghost all_cands = spec_cands(entries, recs, prefix@);

        // Rank them.
        let sorted = sort_ranked(cands);
        let ghost ranked = spec_sort_ranked(all_cands);

        // Keep the first `limit` words.
        let m = sorted.len();
        let count = if limit < m {
            limit
        } else {
            m
        };
        let mut out: Vec<String> = Vec::new();
        let mut k: usize = 0;
        while k < count
            invariant
                count <= sorted@.len(),
                k <= count,
                cands_view(sorted@) == ranked,
                out@.len() == k,
                forall|j: int| 0 <= j < k ==> #[trigger] out@[j]@ == ranked[j].word,
            decreases count - k,
        {
            assert(ranked[k as int] == exc_view(sorted@[k as int]));
            let word = clone_string(&sorted[k].word);
            out.push(word);
            k = k + 1;
        }
        assert(views_of(out@) =~= spec_suggest(entries, recs, prefix@, limit as int));

        // Every suggested word extends the prefix, because every
        // candidate does.
        proof {
            lemma_cands_shape(entries, recs, prefix@);
            assert forall|j: int| 0 <= j < out@.len() implies prefix@.is_prefix_of(
                #[trigger] out@[j]@,
            ) by {
                assert(ranked.contains(ranked[j]));
                ranking::lemma_sort_ranked_contains(all_cands, ranked[j]);
                let q = choose|q: int| 0 <= q < all_cands.len() && all_cands[q] == ranked[j];
                assert(prefix@.is_prefix_of(all_cands[q].word));
            }
        }
        out
    }
}

/// Every candidate's position is its index, and every candidate's word
/// extends the prefix.
pub proof fn lemma_cands_shape(entries: Seq<DictEntry>, recents: Seq<Seq<char>>, prefix: Seq<char>)
    ensures
        spec_cands(entries, recents, prefix).len() <= entries.len(),
        forall|i: int|
            0 <= i < spec_cands(entries, recents, prefix).len() ==> (#[trigger] spec_cands(
                entries,
                recents,
                prefix,
            )[i]).pos == i && prefix.is_prefix_of(
                spec_cands(entries, recents, prefix)[i].word,
            ),
    decreases entries.len(),
{
    if entries.len() > 0 {
        lemma_cands_shape(entries.drop_last(), recents, prefix);
    }
}

/// Exact lookup is the left inverse of insertion: looking up the word of
/// any entry in the list finds an entry, and its word equals the one
/// looked up (the first-inserted entry wins on duplicates).
pub proof fn lemma_lookup_left_inverse(entries: Seq<DictEntry>, i: int)
    requires
        0 <= i < entries.len(),
    ensures
        spec_first_match(entries, entries[i].tamil@) matches Some(e) && e.tamil@
            == entries[i].tamil@,
    decreases entries.len(),
{
    if entries.first().tamil@ == entries[i].tamil@ {
    } else {
        lemma_lookup_left_inverse(entries.drop_first(), i - 1);
    }
}

/// Removing a word from the recency log introduces nothing new.
proof fn lemma_remove_all_subset(recents: Seq<Seq<char>>, w: Seq<char>, u: Seq<char>)
    requires
        spec_remove_all(recents, w).contains(u),
    ensures
        recents.contains(u),
        u != w,
    decreases recents.len(),
{
    if recents.len() > 0 {
        let rest = spec_remove_all(recents.drop_last(), w);
        let whole = spec_remove_all(recents, w);
        let j = choose|j: int| 0 <= j < whole.len() && whole[j] == u;
        if j < rest.len() {
            assert(rest[j] == u);
            assert(rest.contains(u));
            lemma_remove_all_subset(recents.drop_last(), w, u);
            let k = choose|k: int|
                0 <= k < recents.drop_last().len() && recents.drop_last()[k] == u;
            assert(recents[k] == u);
        } else {
            assert(recents.last() != w && u == recents.last());
            assert(recents[recents.len() - 1] == u);
        }
    }
}

/// After recording `w`, the log contains `w`.
proof fn lemma_record_usage_contains(recents: Seq<Seq<char>>, w: Seq<char>)
    ensures
        spec_record_usage(recents, w).contains(w),
{
    let pushed = seq![w] + spec_remove_all(recents, w);
    assert(pushed[0] == w);
    let result = spec_record_usage(recents, w);
    if pushed.len() > MAX_RECENTS {
        assert(result[0] == w);
    } else {
        assert(result[0] == w);
    }
}

/// After recording `w`, every other word of the log was already there.
proof fn lemma_record_usage_subset(recents: Seq<Seq<char>>, w: Seq<char>, u: Seq<char>)
    requires
        u != w,
        spec_record_usage(recents, w).contains(u),
    ensures
        recents.contains(u),
{
    let pushed = seq![w] + spec_remove_all(recents, w);
    let result = spec_record_usage(recents, w);
    let j = choose|j: int| 0 <= j < result.len() && result[j] == u;
    assert(pushed[j] == u);
    assert(j > 0);
    assert(spec_remove_all(recents, w)[j - 1] == u);
    assert(spec_remove_all(recents, w).contains(u));
    lemma_remove_all_subset(recents, w, u);
}

/// Recording `w` relates the two candidate sequences pointwise: words
/// and positions coincide, occurrences of `w` keep or raise their key,
/// all other candidates keep or lower theirs.
proof fn lemma_cands_pairwise(
    entries: Seq<DictEntry>,
    recents: Seq<Seq<char>>,
    w: Seq<char>,
    prefix: Seq<char>,
)
    ensures
        ({
            let c1 = spec_cands(entries, recents, prefix);
            let c2 = spec_cands(entries, spec_record_usage(recents, w), prefix);
            let delta: int = if recents.contains(w) {
                0
            } else {
                RECENCY_BONUS as int
            };
            &&& c2.len() == c1.len()
            &&& forall|q: int|
                0 <= q < c1.len() ==> {
                    &&& (#[trigger] c2[q]).word == c1[q].word
                    &&& c2[q].pos == c1[q].pos
                    &&& (c1[q].word == w ==> c2[q].key == c1[q].key + delta)
                    &&& (c1[q].word != w ==> c2[q].key <= c1[q].key)
                }
        }),
    decreases entries.len(),
{
    let r2 = spec_record_usage(recents, w);
    let delta: int = if recents.contains(w) {
        0
    } else {
        RECENCY_BONUS as int
    };
    if entries.len() > 0 {
        lemma_cands_pairwise(entries.drop_last(), recents, w, prefix);
        let e = entries.last();
        if prefix.is_prefix_of(e.tamil@) {
            if e.tamil@ == w {
                lemma_record_usage_contains(recents, w);
                assert(spec_boost(e, r2) == spec_boost(e, recents) + delta);
            } else {
                if r2.contains(e.tamil@) {
                    lemma_record_usage_subset(recents, w, e.tamil@);
                }
                assert(spec_boost(e, r2) <= spec_boost(e, recents));
            }
        }
    }
}

/// Recency boost is monotonic: recording a word `w` can only move each
/// occurrence of `w` to an equal or better place in the ranking for any
/// prefix it matches, never a worse one. The occurrence is identified by
/// its traversal position `p`, which recording does not change.
pub proof fn lemma_recency_boost_monotonic(
    entries: Seq<DictEntry>,
    recents: Seq<Seq<char>>,
    w: Seq<char>,
    prefix: Seq<char>,
    p: int,
    j1: int,
    j2: int,
)
    requires
        ({
            let s1 = spec_ranking(entries, recents, prefix);
            &&& 0 <= j1 < s1.len()
            &&& s1[j1].pos == p
            &&& s1[j1].word == w
        }),
        ({
            let s2 = spec_ranking(entries, spec_record_usage(recents, w), prefix);
            &&& 0 <= j2 < s2.len()
            &&& s2[j2].pos == p
        }),
    ensures
        j2 <= j1,
{
    let r2 = spec_record_usage(recents, w);
    let c1 = spec_cands(entries, recents, prefix);
    let c2 = spec_cands(entries, r2, prefix);
    let s1 = spec_sort_ranked(c1);
    let s2 = spec_sort_ranked(c2);
    lemma_cands_shape(entries, recents, prefix);
    lemma_cands_shape(entries, r2, prefix);
    lemma_cands_pairwise(entries, recents, w, prefix);
    ranking::lemma_sort_ranked_sorted(c1);
    ranking::lemma_sort_ranked_sorted(c2);

    // Positions are pairwise distinct in both rankings.
    assert forall|i: int, k: int|
        0 <= i < k < s1.len() implies (#[trigger] s1[i]).pos != (#[trigger] s1[k]).pos by {
        let q = s1[i].pos;
        let fq = |x: Cand| x.pos == q;
        if s1[k].pos == q {
            ranking::lemma_two_indices_filter(s1, fq, i, k);
            ranking::lemma_sort_ranked_filter_len(c1, fq);
            ranking::lemma_pos_index_filter(c1, q, fq);
        }
    }
    assert forall|i: int, k: int|
        0 <= i < k < s2.len() implies (#[trigger] s2[i]).pos != (#[trigger] s2[k]).pos by {
        let q = s2[i].pos;
        let fq = |x: Cand| x.pos == q;
        if s2[k].pos == q {
            ranking::lemma_two_indices_filter(s2, fq, i, k);
            ranking::lemma_sort_ranked_filter_len(c2, fq);
            ranking::lemma_pos_index_filter(c2, q, fq);
        }
    }

    // The ranked elements at position `p` are the candidates at index
    // `p`.
    assert(s1.contains(s1[j1]));
    ranking::lemma_sort_ranked_contains(c1, s1[j1]);
    let q1 = choose|q: int| 0 <= q < c1.len() && c1[q] == s1[j1];
    assert(q1 == p);
    let e1 = c1[p];
    assert(s1[j1] == e1);

    assert(s2.contains(s2[j2]));
    ranking::lemma_sort_ranked_contains(c2, s2[j2]);
    let q2 = choose|q: int| 0 <= q < c2.len() && c2[q] == s2[j2];
    assert(q2 == p);
    let e2 = c2[p];
    assert(s2[j2] == e2);

    // Each index equals the number of candidates ranked strictly ahead.
    let f1 = |x: Cand| cand_lt(x, e1);
    let f2 = |x: Cand| cand_lt(x, e2);
    ranking::lemma_sorted_index_is_count(s1, j1, f1);
    ranking::lemma_sorted_index_is_count(s2, j2, f2);
    ranking::lemma_sort_ranked_filter_len(c1, f1);
    ranking::lemma_sort_ranked_filter_len(c2, f2);

    // Anything ahead of `w`'s occurrence after recording was already
    // ahead of it before.
    let delta: int = if recents.contains(w) {
        0
    } else {
        RECENCY_BONUS as int
    };
    assert forall|q: int| 0 <= q < c2.len() implies f2(#[trigger] c2[q]) ==> f1(
        #[trigger] c1[q],
    ) by {
        if cand_lt(c2[q], e2) {
            assert(c1[q].word == w ==> c2[q].key == c1[q].key + delta);
            assert(c1[q].word != w ==> c2[q].key <= c1[q].key);
            assert(e2.key == e1.key + delta);
            assert(cand_lt(c1[q], e1));
        }
    }
    ranking::lemma_filter_len_pointwise(c1, c2, f1, f2);
}

} // verus!
