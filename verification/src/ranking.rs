//! Ranking of suggestion candidates: a stable descending sort by boosted
//! frequency.
//!
//! A candidate carries its word, its boosted frequency `key`, and `pos`,
//! its place in the traversal that collected the candidates. Candidates
//! are ordered by descending key, with `pos` breaking ties, so the order
//! is strict and total over candidates with distinct positions and the
//! sorted sequence is uniquely determined: a stable sort.

use vstd::multiset::Multiset;
use vstd::prelude::*;

verus! {

/// The mathematical form of one suggestion candidate.
pub struct Cand {
    pub word: Seq<char>,
    pub key: int,
    pub pos: int,
}

/// One suggestion candidate as the sorting code handles it.
pub(crate) struct ExCand {
    pub word: String,
    pub key: u64,
    pub pos: usize,
}

pub(crate) open spec fn exc_view(x: ExCand) -> Cand {
    Cand { word: x.word@, key: x.key as int, pos: x.pos as int }
}

pub(crate) open spec fn cands_view(v: Seq<ExCand>) -> Seq<Cand> {
    Seq::new(v.len(), |i: int| exc_view(v[i]))
}

/// `a` is ranked strictly ahead of `b`: a larger key wins, and an equal
/// key falls back to the earlier traversal position.
pub open spec fn cand_lt(a: Cand, b: Cand) -> bool {
    a.key > b.key || (a.key == b.key && a.pos < b.pos)
}

/// Insert `c` into a ranked sequence, ahead of the first element it
/// outranks.
pub open spec fn spec_insert_ranked(s: Seq<Cand>, c: Cand) -> Seq<Cand>
    decreases s.len(),
{
    if s.len() == 0 {
        seq![c]
    } else if cand_lt(c, s.first()) {
        seq![c] + s
    } else {
        seq![s.first()] + spec_insert_ranked(s.drop_first(), c)
    }
}

/// Insertion sort over the ranking order.
pub open spec fn spec_sort_ranked(s: Seq<Cand>) -> Seq<Cand>
    decreases s.len(),
{
    if s.len() == 0 {
        s
    } else {
        spec_insert_ranked(spec_sort_ranked(s.drop_last()), s.last())
    }
}

/// No element is ranked strictly ahead of an earlier one.
pub open spec fn ranked_sorted(s: Seq<Cand>) -> bool {
    forall|i: int, j: int| 0 <= i < j < s.len() ==> !cand_lt(#[trigger] s[j], #[trigger] s[i])
}

pub proof fn lemma_insert_ranked_multiset(s: Seq<Cand>, c: Cand)
    ensures
        spec_insert_ranked(s, c).to_multiset() == s.to_multiset().insert(c),
    decreases s.len(),
{
    broadcast use vstd::seq_lib::group_to_multiset_ensures;

    if s.len() == 0 {
        assert(spec_insert_ranked(s, c) =~= Seq::<Cand>::empty().push(c));
        assert(spec_insert_ranked(s, c).to_multiset() =~= s.to_multiset().insert(c));
    } else if cand_lt(c, s.first()) {
        vstd::seq_lib::lemma_multiset_commutative(seq![c], s);
        assert(seq![c].to_multiset() =~= Multiset::<Cand>::empty().insert(c));
        assert(spec_insert_ranked(s, c).to_multiset() =~= s.to_multiset().insert(c));
    } else {
        lemma_insert_ranked_multiset(s.drop_first(), c);
        vstd::seq_lib::lemma_multiset_commutative(seq![s.first()], spec_insert_ranked(s.drop_first(), c));
        vstd::seq_lib::lemma_multiset_commutative(seq![s.first()], s.drop_first());
        assert(seq![s.first()] + s.drop_first() =~= s);
        assert(seq![s.first()].to_multiset() =~= Multiset::<Cand>::empty().insert(s.first()));
        assert(spec_insert_ranked(s, c).to_multiset() =~= s.to_multiset().insert(c));
    }
}

pub proof fn lemma_sort_ranked_multiset(s: Seq<Cand>)
    ensures
        spec_sort_ranked(s).to_multiset() == s.to_multiset(),
    decreases s.len(),
{
    broadcast use vstd::seq_lib::group_to_multiset_ensures;

    if s.len() > 0 {
        lemma_sort_ranked_multiset(s.drop_last());
        lemma_insert_ranked_multiset(spec_sort_ranked(s.drop_last()), s.last());
        assert(s =~= s.drop_last().push(s.last()));
    }
}

/// Everything in the sorted sequence came from the input.
pub proof fn lemma_sort_ranked_contains(s: Seq<Cand>, x: Cand)
    requires
        spec_sort_ranked(s).contains(x),
    ensures
        s.contains(x),
{
    broadcast use vstd::seq_lib::group_to_multiset_ensures;

    lemma_sort_ranked_multiset(s);
    assert(spec_sort_ranked(s).to_multiset().count(x) > 0);
    assert(s.to_multiset().count(x) > 0);
}

pub proof fn lemma_insert_ranked_sorted(s: Seq<Cand>, c: Cand)
    requires
        ranked_sorted(s),
    ensures
        ranked_sorted(spec_insert_ranked(s, c)),
    decreases s.len(),
{
    broadcast use vstd::seq_lib::group_to_multiset_ensures;

    if s.len() == 0 {
    } else if cand_lt(c, s.first()) {
        let out = seq![c] + s;
        assert forall|i: int, j: int| 0 <= i < j < out.len() implies !cand_lt(
            #[trigger] out[j],
            #[trigger] out[i],
        ) by {
            if i == 0 {
                assert(!cand_lt(s[j - 1], s[0]) || j == 1);
            }
        }
    } else {
        let rest = spec_insert_ranked(s.drop_first(), c);
        assert(ranked_sorted(s.drop_first())) by {
            assert(forall|i: int, j: int|
                0 <= i < j < s.drop_first().len() ==> !cand_lt(
                    #[trigger] s.drop_first()[j],
                    #[trigger] s.drop_first()[i],
                ));
        }
        lemma_insert_ranked_sorted(s.drop_first(), c);
        lemma_insert_ranked_multiset(s.drop_first(), c);
        let out = seq![s.first()] + rest;
        assert forall|i: int, j: int| 0 <= i < j < out.len() implies !cand_lt(
            #[trigger] out[j],
            #[trigger] out[i],
        ) by {
            if i == 0 {
                // out[j] is either c or an element of s; neither outranks s[0].
                assert(rest.contains(rest[j - 1]));
                assert(rest.to_multiset().count(rest[j - 1]) > 0);
                if rest[j - 1] != c {
                    assert(s.drop_first().to_multiset().count(rest[j - 1]) > 0);
                    assert(s.drop_first().contains(rest[j - 1]));
                    let k = choose|k: int|
                        0 <= k < s.drop_first().len() && s.drop_first()[k] == rest[j - 1];
                    assert(s[k + 1] == rest[j - 1]);
                    assert(!cand_lt(s[k + 1], s[0]));
                }
            } else {
                assert(!cand_lt(rest[j - 1], rest[i - 1]));
            }
        }
    }
}

pub proof fn lemma_sort_ranked_sorted(s: Seq<Cand>)
    ensures
        ranked_sorted(spec_sort_ranked(s)),
    decreases s.len(),
{
    if s.len() > 0 {
        lemma_sort_ranked_sorted(s.drop_last());
        lemma_insert_ranked_sorted(spec_sort_ranked(s.drop_last()), s.last());
    }
}

/// Where the first `j` elements do not rank behind `c` and the element at
/// `j` (if any) does, insertion lands exactly at `j`.
pub proof fn lemma_insert_ranked_at(s: Seq<Cand>, c: Cand, j: int)
    requires
        0 <= j <= s.len(),
        forall|k: int| 0 <= k < j ==> !cand_lt(c, #[trigger] s[k]),
        j < s.len() ==> cand_lt(c, s[j]),
    ensures
        spec_insert_ranked(s, c) == s.take(j) + seq![c] + s.skip(j),
    decreases s.len(),
{
    if s.len() == 0 {
        assert(spec_insert_ranked(s, c) =~= s.take(j) + seq![c] + s.skip(j));
    } else if cand_lt(c, s.first()) {
        assert(j == 0);
        assert(spec_insert_ranked(s, c) =~= s.take(0) + seq![c] + s.skip(0));
    } else {
        assert(j >= 1);
        assert(forall|k: int|
            0 <= k < j - 1 ==> !cand_lt(c, #[trigger] s.drop_first()[k]));
        assert(j - 1 < s.drop_first().len() ==> cand_lt(c, s.drop_first()[j - 1]));
        lemma_insert_ranked_at(s.drop_first(), c, j - 1);
        assert(spec_insert_ranked(s, c) =~= s.take(j) + seq![c] + s.skip(j));
    }
}

/// The count of a one-element sequence.
pub proof fn lemma_filter_singleton(c: Cand, f: spec_fn(Cand) -> bool)
    ensures
        seq![c].filter(f).len() == (if f(c) {
            1int
        } else {
            0int
        }),
{
    reveal(Seq::filter);
    assert(seq![c].drop_last() =~= Seq::<Cand>::empty());
    assert(seq![c].last() == c);
    assert(Seq::<Cand>::empty().filter(f) =~= Seq::<Cand>::empty());
}

/// The number of elements satisfying `f` is unchanged by insertion,
/// except for the inserted element itself.
pub proof fn lemma_insert_ranked_filter_len(s: Seq<Cand>, c: Cand, f: spec_fn(Cand) -> bool)
    ensures
        spec_insert_ranked(s, c).filter(f).len() == s.filter(f).len() + (if f(c) {
            1int
        } else {
            0int
        }),
    decreases s.len(),
{
    lemma_filter_singleton(c, f);
    if s.len() == 0 {
        assert(spec_insert_ranked(s, c) =~= seq![c]);
        assert(s.filter(f) =~= s) by {
            reveal(Seq::filter);
        }
    } else if cand_lt(c, s.first()) {
        Seq::filter_distributes_over_add(seq![c], s, f);
    } else {
        lemma_insert_ranked_filter_len(s.drop_first(), c, f);
        lemma_filter_singleton(s.first(), f);
        Seq::filter_distributes_over_add(seq![s.first()], spec_insert_ranked(s.drop_first(), c), f);
        Seq::filter_distributes_over_add(seq![s.first()], s.drop_first(), f);
        assert(seq![s.first()] + s.drop_first() =~= s);
    }
}

/// Sorting does not change how many elements satisfy `f`.
pub proof fn lemma_sort_ranked_filter_len(s: Seq<Cand>, f: spec_fn(Cand) -> bool)
    ensures
        spec_sort_ranked(s).filter(f).len() == s.filter(f).len(),
    decreases s.len(),
{
    reveal(Seq::filter);
    if s.len() > 0 {
        lemma_sort_ranked_filter_len(s.drop_last(), f);
        lemma_insert_ranked_filter_len(spec_sort_ranked(s.drop_last()), s.last(), f);
    }
}

pub proof fn lemma_filter_all_true(s: Seq<Cand>, f: spec_fn(Cand) -> bool)
    requires
        forall|i: int| 0 <= i < s.len() ==> f(#[trigger] s[i]),
    ensures
        s.filter(f) == s,
    decreases s.len(),
{
    reveal(Seq::filter);
    if s.len() > 0 {
        lemma_filter_all_true(s.drop_last(), f);
        assert(s.filter(f) =~= s);
    }
}

pub proof fn lemma_filter_all_false(s: Seq<Cand>, f: spec_fn(Cand) -> bool)
    requires
        forall|i: int| 0 <= i < s.len() ==> !f(#[trigger] s[i]),
    ensures
        s.filter(f).len() == 0,
    decreases s.len(),
{
    reveal(Seq::filter);
    if s.len() > 0 {
        lemma_filter_all_false(s.drop_last(), f);
    }
}

/// Two positions holding the same `pos` value force a count of at least
/// two.
pub proof fn lemma_two_indices_filter(s: Seq<Cand>, f: spec_fn(Cand) -> bool, i: int, j: int)
    requires
        0 <= i < j < s.len(),
        f(s[i]),
        f(s[j]),
    ensures
        s.filter(f).len() >= 2,
{
    reveal(Seq::filter);
    let a = s.take(i);
    let b = s.subrange(i, j);
    let c = s.skip(j);
    assert(s =~= a + b + c);
    Seq::filter_distributes_over_add(a + b, c, f);
    Seq::filter_distributes_over_add(a, b, f);
    lemma_filter_first_counts(b, f);
    lemma_filter_first_counts(c, f);
    broadcast use vstd::seq_lib::group_seq_properties;

    assert(b.len() > 0 && b[0] == s[i]);
    assert(c.len() > 0 && c[0] == s[j]);
}

/// A sequence whose first element satisfies `f` has a positive count.
pub proof fn lemma_filter_first_counts(s: Seq<Cand>, f: spec_fn(Cand) -> bool)
    requires
        s.len() > 0,
        f(s.first()),
    ensures
        s.filter(f).len() >= 1,
    decreases s.len(),
{
    reveal(Seq::filter);
    if s.len() == 1 {
        assert(s.drop_last() =~= Seq::<Cand>::empty());
    } else {
        assert(s.drop_last().first() == s.first());
        lemma_filter_first_counts(s.drop_last(), f);
    }
}

/// In a sorted sequence with pairwise distinct positions, an element's
/// index equals the number of elements ranked strictly ahead of it.
pub proof fn lemma_sorted_index_is_count(s: Seq<Cand>, j: int, f: spec_fn(Cand) -> bool)
    requires
        ranked_sorted(s),
        0 <= j < s.len(),
        forall|i: int, k: int|
            0 <= i < k < s.len() ==> (#[trigger] s[i]).pos != (#[trigger] s[k]).pos,
        forall|x: Cand| #[trigger] f(x) == cand_lt(x, s[j]),
    ensures
        s.filter(f).len() == j,
{
    let e = s[j];
    let a = s.take(j);
    let b = s.skip(j);
    assert(s =~= a + b);
    Seq::filter_distributes_over_add(a, b, f);
    assert forall|i: int| 0 <= i < a.len() implies f(#[trigger] a[i]) by {
        assert(a[i] == s[i]);
        assert(!cand_lt(s[j], s[i]));
        assert(s[i].pos != s[j].pos);
    }
    lemma_filter_all_true(a, f);
    assert forall|i: int| 0 <= i < b.len() implies !f(#[trigger] b[i]) by {
        assert(b[i] == s[j + i]);
        if i > 0 {
            assert(!cand_lt(s[j + i], s[j]));
        }
    }
    lemma_filter_all_false(b, f);
}

/// Where `pos` equals the index throughout, exactly one element carries
/// any in-range `pos` value.
pub proof fn lemma_pos_index_filter(c: Seq<Cand>, q: int, f: spec_fn(Cand) -> bool)
    requires
        forall|i: int| 0 <= i < c.len() ==> (#[trigger] c[i]).pos == i,
        forall|x: Cand| #[trigger] f(x) == (x.pos == q),
    ensures
        c.filter(f).len() == (if 0 <= q < c.len() {
            1int
        } else {
            0int
        }),
    decreases c.len(),
{
    reveal(Seq::filter);
    if c.len() > 0 {
        assert(forall|i: int|
            0 <= i < c.drop_last().len() ==> (#[trigger] c.drop_last()[i]).pos == i);
        lemma_pos_index_filter(c.drop_last(), q, f);
        assert(c.last().pos == c.len() - 1);
    }
}

/// Pointwise comparison of counts over two sequences of equal length.
pub proof fn lemma_filter_len_pointwise(
    s1: Seq<Cand>,
    s2: Seq<Cand>,
    f1: spec_fn(Cand) -> bool,
    f2: spec_fn(Cand) -> bool,
)
    requires
        s1.len() == s2.len(),
        forall|q: int| 0 <= q < s2.len() ==> f2(#[trigger] s2[q]) ==> f1(#[trigger] s1[q]),
    ensures
        s2.filter(f2).len() <= s1.filter(f1).len(),
    decreases s1.len(),
{
    reveal(Seq::filter);
    if s1.len() > 0 {
        assert(forall|q: int|
            0 <= q < s2.drop_last().len() ==> f2(#[trigger] s2.drop_last()[q]) ==> f1(
                #[trigger] s1.drop_last()[q],
            ));
        lemma_filter_len_pointwise(s1.drop_last(), s2.drop_last(), f1, f2);
        assert(f2(s2.last()) ==> f1(s1.last()));
    }
}

/// Insert a candidate into a ranked vector, keeping it sorted in the
/// stable descending order.
pub(crate) fn insert_ranked(v: &mut Vec<ExCand>, c: ExCand)
    ensures
        cands_view(final(v)@) == spec_insert_ranked(cands_view(old(v)@), exc_view(c)),
{
    let ghost s = cands_view(old(v)@);
    let ghost cv = exc_view(c);
    let n = v.len();
    let mut j: usize = 0;
    while j < n && !(c.key > v[j].key || (c.key == v[j].key && c.pos < v[j].pos))
        invariant
            n == v@.len(),
            j <= n,
            v@ == old(v)@,
            s == cands_view(v@),
            cv == exc_view(c),
            forall|k: int| 0 <= k < j ==> !cand_lt(cv, #[trigger] s[k]),
        decreases n - j,
    {
        assert(s[j as int] == exc_view(v@[j as int]));
        j = j + 1;
    }
    proof {
        if j < n {
            assert(s[j as int] == exc_view(v@[j as int]));
            assert(cand_lt(cv, s[j as int]));
        }
        lemma_insert_ranked_at(s, cv, j as int);
    }
    v.insert(j, c);
    assert(cands_view(v@) =~= s.take(j as int) + seq![cv] + s.skip(j as int));
}

/// Sort candidates into the stable descending ranking order.
pub(crate) fn sort_ranked(mut v: Vec<ExCand>) -> (r: Vec<ExCand>)
    ensures
        cands_view(r@) == spec_sort_ranked(cands_view(v@)),
{
    let ghost all = cands_view(v@);
    let mut out: Vec<ExCand> = Vec::new();
    let mut i: usize = 0;
    let n = v.len();
    while i < n
        invariant
            n == all.len(),
            i <= n,
            v@.len() == n,
            cands_view(v@) == all,
            cands_view(out@) == spec_sort_ranked(all.take(i as int)),
        decreases n - i,
    {
        let c = ExCand {
            word: clone_string(&v[i].word),
            key: v[i].key,
            pos: v[i].pos,
        };
        assert(exc_view(c) == all[i as int]);
        insert_ranked(&mut out, c);
        proof {
            assert(all.take(i + 1).drop_last() =~= all.take(i as int));
            assert(all.take(i + 1).last() == all[i as int]);
        }
        i = i + 1;
    }
    assert(all.take(n as int) =~= all);
    out
}

/// A copy of a string with the same characters.
pub(crate) fn clone_string(s: &String) -> (r: String)
    ensures
        r@ == s@,
{
    s.clone()
}

} // verus!
