//! Bounds on the word totals of the records the engine produces.
use vstd::prelude::*;
use crate::types::ItemModel;
use crate::text::{word_count, lemma_word_count_bound};
use crate::stats::{added_of, deleted_of, sum_added, sum_deleted};
use crate::char_diff::{backtrace, char_diff_model, lcs_len};
use crate::segment_diff::{walk, walk_measure};
use crate::segment::total_len;

verus! {

/// Every record adds and deletes at most one word.
pub open spec fn unit_words(s: Seq<ItemModel>) -> bool {
    forall|q: int| 0 <= q < s.len() ==> added_of(#[trigger] s[q]) <= 1 && deleted_of(s[q]) <= 1
}

pub proof fn lemma_unit_sums(s: Seq<ItemModel>)
    requires
        unit_words(s),
    ensures
        sum_added(s) <= s.len(),
        sum_deleted(s) <= s.len(),
    decreases s.len(),
{
    if s.len() > 0 {
        let p = s.drop_last();
        assert(unit_words(p)) by {
            assert forall|q: int| 0 <= q < p.len() implies added_of(#[trigger] p[q]) <= 1
                && deleted_of(p[q]) <= 1 by {
                assert(p[q] == s[q]);
            }
        }
        lemma_unit_sums(p);
        assert(added_of(s[s.len() - 1]) <= 1);
    }
}

proof fn lemma_backtrace_unit(a: Seq<char>, b: Seq<char>, i: nat, j: nat, k: nat)
    ensures
        unit_words(backtrace(a, b, i, j, k)),
    decreases i + j,
{
    let bt = backtrace(a, b, i, j, k);
    if i > 0 || j > 0 {
        let (ni, nj): (nat, nat) = if i == 0 {
            (i, (j - 1) as nat)
        } else if j == 0 {
            ((i - 1) as nat, j)
        } else if a[i - 1] == b[j - 1] {
            ((i - 1) as nat, (j - 1) as nat)
        } else if lcs_len(a, b, (i - 1) as nat, j) > lcs_len(a, b, i, (j - 1) as nat) {
            ((i - 1) as nat, j)
        } else {
            (i, (j - 1) as nat)
        };
        lemma_backtrace_unit(a, b, ni, nj, k + 1);
        let rest = backtrace(a, b, ni, nj, k + 1);
        let x = bt[0];
        assert(bt == seq![x] + rest);
        lemma_word_count_bound(x.content);
        assert forall|q: int| 0 <= q < bt.len() implies added_of(#[trigger] bt[q]) <= 1
            && deleted_of(bt[q]) <= 1 by {
            if q > 0 {
                assert(bt[q] == rest[q - 1]);
            }
        }
    }
}

/// Character-level records add and delete at most one word each.
pub proof fn lemma_char_diff_sums(a: Seq<char>, b: Seq<char>)
    ensures
        sum_added(char_diff_model(a, b)) <= char_diff_model(a, b).len(),
        sum_deleted(char_diff_model(a, b)) <= char_diff_model(a, b).len(),
{
    let bt = backtrace(a, b, a.len(), b.len(), 0);
    lemma_backtrace_unit(a, b, a.len(), b.len(), 0);
    let rv = bt.reverse();
    assert forall|q: int| 0 <= q < rv.len() implies added_of(#[trigger] rv[q]) <= 1 && deleted_of(
        rv[q],
    ) <= 1 by {
        assert(rv[q] == bt[bt.len() - 1 - q]);
    }
    lemma_unit_sums(rv);
}

proof fn lemma_sums_prepend(x: ItemModel, rest: Seq<ItemModel>)
    ensures
        sum_added(seq![x] + rest) == added_of(x) + sum_added(rest),
        sum_deleted(seq![x] + rest) == deleted_of(x) + sum_deleted(rest),
    decreases rest.len(),
{
    let s = seq![x] + rest;
    if rest.len() > 0 {
        assert(s.drop_last() =~= seq![x] + rest.drop_last());
        assert(s.last() == rest.last());
        lemma_sums_prepend(x, rest.drop_last());
        assert(sum_added(rest) == sum_added(rest.drop_last()) + added_of(rest.last()));
        assert(sum_deleted(rest) == sum_deleted(rest.drop_last()) + deleted_of(rest.last()));
    } else {
        assert(s.drop_last() =~= Seq::<ItemModel>::empty());
        assert(s.last() == x);
    }
    assert(sum_added(s) == sum_added(s.drop_last()) + added_of(s.last()));
    assert(sum_deleted(s) == sum_deleted(s.drop_last()) + deleted_of(s.last()));
}

proof fn lemma_total_len_prepend(y: Seq<char>, rest: Seq<Seq<char>>)
    ensures
        total_len(seq![y] + rest) == y.len() + total_len(rest),
    decreases rest.len(),
{
    let s = seq![y] + rest;
    if rest.len() > 0 {
        assert(s.drop_last() =~= seq![y] + rest.drop_last());
        assert(s.last() == rest.last());
        lemma_total_len_prepend(y, rest.drop_last());
        assert(total_len(rest) == total_len(rest.drop_last()) + rest.last().len());
    } else {
        assert(s.drop_last() =~= Seq::<Seq<char>>::empty());
        assert(s.last() == y);
    }
    assert(total_len(s) == total_len(s.drop_last()) + s.last().len());
}

proof fn lemma_total_len_tail(r: Seq<Seq<char>>, ri: nat)
    requires
        ri < r.len(),
    ensures
        total_len(r.subrange(ri as int, r.len() as int)) == r[ri as int].len() + total_len(
            r.subrange((ri + 1) as int, r.len() as int),
        ),
{
    assert(r.subrange(ri as int, r.len() as int) =~= seq![r[ri as int]] + r.subrange(
        (ri + 1) as int,
        r.len() as int,
    ));
    lemma_total_len_prepend(r[ri as int], r.subrange((ri + 1) as int, r.len() as int));
}

proof fn lemma_walk_sums(l: Seq<Seq<char>>, r: Seq<Seq<char>>, li: nat, ri: nat, k: nat)
    requires
        li <= l.len(),
        ri <= r.len(),
    ensures
        sum_added(walk(l, r, li, ri, k)) <= total_len(r.subrange(ri as int, r.len() as int)),
        sum_deleted(walk(l, r, li, ri, k)) <= total_len(l.subrange(li as int, l.len() as int)),
    decreases walk_measure(l, r, li, ri),
{
    let w = walk(l, r, li, ri, k);
    if li >= l.len() && ri >= r.len() {
    } else if li >= l.len() {
        lemma_walk_sums(l, r, li, ri + 1, k + 1);
        lemma_sums_prepend(w[0], walk(l, r, li, ri + 1, k + 1));
        lemma_total_len_tail(r, ri);
        lemma_word_count_bound(r[ri as int]);
    } else if ri >= r.len() {
        lemma_walk_sums(l, r, li + 1, ri, k + 1);
        lemma_sums_prepend(w[0], walk(l, r, li + 1, ri, k + 1));
        lemma_total_len_tail(l, li);
        lemma_word_count_bound(l[li as int]);
    } else {
        lemma_walk_sums(l, r, li + 1, ri + 1, k + 1);
        lemma_sums_prepend(w[0], walk(l, r, li + 1, ri + 1, k + 1));
        lemma_total_len_tail(l, li);
        lemma_total_len_tail(r, ri);
        lemma_word_count_bound(l[li as int]);
        lemma_word_count_bound(r[ri as int]);
    }
}

/// The walk adds no more words than the right segments hold characters, and
/// deletes no more than the left ones do.
pub proof fn lemma_segment_diff_sums(l: Seq<Seq<char>>, r: Seq<Seq<char>>)
    ensures
        sum_added(walk(l, r, 0, 0, 0)) <= total_len(r),
        sum_deleted(walk(l, r, 0, 0, 0)) <= total_len(l),
{
    lemma_walk_sums(l, r, 0, 0, 0);
    assert(r.subrange(0, r.len() as int) =~= r);
    assert(l.subrange(0, l.len() as int) =~= l);
}

} // verus!
