//! Properties that hold of every comparison and every stream.
use vstd::prelude::*;
use vstd::arithmetic::div_mod::{lemma_fundamental_div_mod, lemma_mod_pos_bound};
use crate::types::{DiffItem, DiffOptions, DiffStats, DiffType, ItemModel, items_view, decimal, item_id};
use crate::text::word_count;
use crate::segment::lines;
use crate::char_diff::{backtrace, char_diff_model, char_item};
use crate::segment_diff::{walk, walk_measure, segment_diff_model};
use crate::stats::{count_of, sum_added, sum_changed_bytes, sum_deleted, added_of, deleted_of};
use crate::engine::{
    chunk_count, chunk_plan, diff_model, lemma_chunk_start, min_nat, preprocess_model, result_of,
    splits,
};

verus! {

/// Every record is Equal.
pub open spec fn all_equal(m: Seq<ItemModel>) -> bool {
    forall|q: int| 0 <= q < m.len() ==> (#[trigger] m[q]).kind == DiffType::Equal
}

proof fn lemma_backtrace_same(a: Seq<char>, i: nat, k: nat)
    ensures
        all_equal(backtrace(a, a, i, i, k)),
    decreases i,
{
    if i > 0 {
        lemma_backtrace_same(a, (i - 1) as nat, k + 1);
        let bt = backtrace(a, a, i, i, k);
        let rest = backtrace(a, a, (i - 1) as nat, (i - 1) as nat, k + 1);
        assert forall|q: int| 0 <= q < bt.len() implies (#[trigger] bt[q]).kind
            == DiffType::Equal by {
            if q > 0 {
                assert(bt[q] == rest[q - 1]);
            }
        }
    }
}

proof fn lemma_walk_same(s: Seq<Seq<char>>, i: nat, k: nat)
    requires
        i <= s.len(),
    ensures
        all_equal(walk(s, s, i, i, k)),
    decreases walk_measure(s, s, i, i),
{
    if i < s.len() {
        lemma_walk_same(s, i + 1, k + 1);
        let w = walk(s, s, i, i, k);
        let rest = walk(s, s, i + 1, i + 1, k + 1);
        assert forall|q: int| 0 <= q < w.len() implies (#[trigger] w[q]).kind
            == DiffType::Equal by {
            if q > 0 {
                assert(w[q] == rest[q - 1]);
            }
        }
    }
}

proof fn lemma_all_equal_sums(m: Seq<ItemModel>)
    requires
        all_equal(m),
    ensures
        sum_changed_bytes(m) == 0,
        count_of(m, DiffType::Add) == 0,
        count_of(m, DiffType::Remove) == 0,
        count_of(m, DiffType::Modify) == 0,
    decreases m.len(),
{
    if m.len() > 0 {
        let p = m.drop_last();
        assert(all_equal(p)) by {
            assert forall|q: int| 0 <= q < p.len() implies (#[trigger] p[q]).kind
                == DiffType::Equal by {
                assert(p[q] == m[q]);
            }
        }
        lemma_all_equal_sums(p);
        assert(m.last().kind == DiffType::Equal);
    }
}

/// Comparing a text with itself, under any options, gives only Equal
/// records, no changes, and 100% similarity (also for the empty text).
pub proof fn law_identical_inputs(o: DiffOptions, x: Seq<char>, items: Seq<DiffItem>, stats: DiffStats)
    requires
        result_of(o, x, x, items, stats),
    ensures
        forall|q: int| 0 <= q < items.len() ==> (#[trigger] items[q]).diff_type == DiffType::Equal,
        stats.total_changes == 0,
        stats.similarity.unchanged == stats.similarity.total,
{
    let m = diff_model(o, x, x);
    let p = preprocess_model(o, x);
    if splits(o) {
        let cjk = crate::text::has_cjk(x) || crate::text::has_cjk(x);
        lemma_walk_same(crate::segment::segments(p, cjk), 0, 0);
    } else {
        let bt = backtrace(p, p, p.len(), p.len(), 0);
        lemma_backtrace_same(p, p.len(), 0);
        assert forall|q: int| 0 <= q < m.len() implies (#[trigger] m[q]).kind
            == DiffType::Equal by {
            assert(m[q] == bt[bt.len() - 1 - q]);
        }
    }
    assert forall|q: int| 0 <= q < items.len() implies (#[trigger] items[q]).diff_type
        == DiffType::Equal by {
        assert(items_view(items)[q] == items[q]@);
    }
    lemma_all_equal_sums(m);
}

/// The words of a record's new text, for Add and Modify records.
pub open spec fn new_words(it: DiffItem) -> nat {
    if it.diff_type == DiffType::Add || it.diff_type == DiffType::Modify {
        word_count(it.content@)
    } else {
        0
    }
}

/// The words of a record's original text, for Remove and Modify records.
pub open spec fn original_words(it: DiffItem) -> nat {
    if it.diff_type == DiffType::Remove || it.diff_type == DiffType::Modify {
        match it.original_content {
            Some(o) => word_count(o@),
            None => 0,
        }
    } else {
        0
    }
}

pub open spec fn sum_new_words(items: Seq<DiffItem>) -> nat
    decreases items.len(),
{
    if items.len() == 0 {
        0
    } else {
        sum_new_words(items.drop_last()) + new_words(items.last())
    }
}

pub open spec fn sum_original_words(items: Seq<DiffItem>) -> nat
    decreases items.len(),
{
    if items.len() == 0 {
        0
    } else {
        sum_original_words(items.drop_last()) + original_words(items.last())
    }
}

/// The shape every record has: a range with `end >= start`; no original text on Add and Equal, one on Modify, and on Remove
/// an original equal to the content.
pub open spec fn record_ok(it: ItemModel) -> bool {
    &&& it.end >= it.start
    &&& (it.kind == DiffType::Add || it.kind == DiffType::Equal) ==> it.original is None
    &&& it.kind == DiffType::Modify ==> it.original is Some
    &&& it.kind == DiffType::Remove ==> it.original == Some(it.content)
}

pub open spec fn all_records_ok(m: Seq<ItemModel>) -> bool {
    forall|q: int| 0 <= q < m.len() ==> record_ok(#[trigger] m[q])
}

proof fn lemma_backtrace_ok(a: Seq<char>, b: Seq<char>, i: nat, j: nat, k: nat)
    ensures
        all_records_ok(backtrace(a, b, i, j, k)),
    decreases i + j,
{
    let bt = backtrace(a, b, i, j, k);
    if i == 0 && j == 0 {
    } else {
        let (ni, nj): (nat, nat) = if i == 0 {
            (i, (j - 1) as nat)
        } else if j == 0 {
            ((i - 1) as nat, j)
        } else if a[i - 1] == b[j - 1] {
            ((i - 1) as nat, (j - 1) as nat)
        } else if crate::char_diff::lcs_len(a, b, (i - 1) as nat, j) > crate::char_diff::lcs_len(
            a,
            b,
            i,
            (j - 1) as nat,
        ) {
            ((i - 1) as nat, j)
        } else {
            (i, (j - 1) as nat)
        };
        lemma_backtrace_ok(a, b, ni, nj, k + 1);
        let rest = backtrace(a, b, ni, nj, k + 1);
        assert(bt == seq![bt[0]] + rest);
        assert forall|q: int| 0 <= q < bt.len() implies record_ok(#[trigger] bt[q]) by {
            if q > 0 {
                assert(bt[q] == rest[q - 1]);
            }
        }
    }
}

proof fn lemma_walk_ok(l: Seq<Seq<char>>, r: Seq<Seq<char>>, li: nat, ri: nat, k: nat)
    requires
        li <= l.len(),
        ri <= r.len(),
    ensures
        all_records_ok(walk(l, r, li, ri, k)),
    decreases walk_measure(l, r, li, ri),
{
    let w = walk(l, r, li, ri, k);
    if li >= l.len() && ri >= r.len() {
    } else {
        let (nl, nr): (nat, nat) = if li >= l.len() {
            (li, ri + 1)
        } else if ri >= r.len() {
            (li + 1, ri)
        } else {
            (li + 1, ri + 1)
        };
        lemma_walk_ok(l, r, nl, nr, k + 1);
        let rest = walk(l, r, nl, nr, k + 1);
        assert forall|q: int| 0 <= q < w.len() implies record_ok(#[trigger] w[q]) by {
            if q > 0 {
                assert(w[q] == rest[q - 1]);
            }
        }
    }
}

/// Every record of every comparison has the shape of [`record_ok`].
pub proof fn law_records_well_formed(o: DiffOptions, left: Seq<char>, right: Seq<char>)
    ensures
        all_records_ok(diff_model(o, left, right)),
{
    let pl = preprocess_model(o, left);
    let pr = preprocess_model(o, right);
    if splits(o) {
        let cjk = crate::text::has_cjk(left) || crate::text::has_cjk(right);
        lemma_walk_ok(crate::segment::segments(pl, cjk), crate::segment::segments(pr, cjk), 0, 0, 0);
    } else {
        let bt = backtrace(pl, pr, pl.len(), pr.len(), 0);
        lemma_backtrace_ok(pl, pr, pl.len(), pr.len(), 0);
        let m = diff_model(o, left, right);
        assert forall|q: int| 0 <= q < m.len() implies record_ok(#[trigger] m[q]) by {
            assert(m[q] == bt[bt.len() - 1 - q]);
        }
    }
}

proof fn lemma_word_sums(items: Seq<DiffItem>)
    requires
        all_records_ok(items_view(items)),
    ensures
        sum_new_words(items) == sum_added(items_view(items)),
        sum_original_words(items) == sum_deleted(items_view(items)),
    decreases items.len(),
{
    if items.len() > 0 {
        let p = items.drop_last();
        assert(items_view(p) =~= items_view(items).drop_last());
        assert(all_records_ok(items_view(p))) by {
            assert forall|q: int| 0 <= q < items_view(p).len() implies record_ok(
                #[trigger] items_view(p)[q],
            ) by {
                assert(items_view(p)[q] == items_view(items)[q]);
            }
        }
        lemma_word_sums(p);
        let x = items.last();
        assert(items_view(items).last() == x@);
        assert(record_ok(items_view(items)[items.len() - 1]));
    }
}

/// `added_words` is the sum of the word counts of the content of all Add and
/// Modify records; `deleted_words` that of the original text of all Remove
/// and Modify records.
pub proof fn law_word_conservation(
    o: DiffOptions,
    left: Seq<char>,
    right: Seq<char>,
    items: Seq<DiffItem>,
    stats: DiffStats,
)
    requires
        result_of(o, left, right, items, stats),
    ensures
        stats.added_words == sum_new_words(items),
        stats.deleted_words == sum_original_words(items),
{
    law_records_well_formed(o, left, right);
    lemma_word_sums(items);
}

/// A stream over `c`-line windows has `ceil(t / c)` windows, `t` being the
/// line count of the longer text; they are numbered `0..n`, each carries the
/// total `n`, and their line ranges tile `[0, t)` in order, each at most `c`
/// lines long and none empty.
pub proof fn law_chunk_coverage(left: Seq<char>, right: Seq<char>, c: nat)
    requires
        c > 0,
    ensures
        ({
            let p = chunk_plan(left, right, c);
            let t = if lines(left).len() >= lines(right).len() {
                lines(left).len()
            } else {
                lines(right).len()
            };
            &&& p.len() * c >= t
            &&& p.len() > 0 ==> (p.len() - 1) * c < t
            &&& t > 0 ==> p.len() > 0
            &&& forall|i: int| 0 <= i < p.len() ==> (#[trigger] p[i]).index == i && p[i].total == p.len()
            &&& p.len() > 0 ==> p[0].start == 0 && p[p.len() - 1].end == t
            &&& forall|i: int| 0 <= i < p.len() - 1 ==> (#[trigger] p[i]).end == p[i + 1].start
            &&& forall|i: int|
                0 <= i < p.len() ==> (#[trigger] p[i]).start < p[i].end && p[i].end <= p[i].start + c
        }),
{
    let p = chunk_plan(left, right, c);
    let t = if lines(left).len() >= lines(right).len() {
        lines(left).len()
    } else {
        lines(right).len()
    };
    let n = p.len();
    assert(n == chunk_count(t, c));
    lemma_fundamental_div_mod(t as int, c as int);
    lemma_mod_pos_bound(t as int, c as int);
    let q = t / c;
    if t % c == 0 {
        assert(n * c == t) by (nonlinear_arith)
            requires
                n == q,
                t == c * q + 0,
        ;
    } else {
        assert(n * c == c * q + c) by (nonlinear_arith)
            requires
                n == q + 1,
        ;
        assert(n > 0);
    }
    if t > 0 && t % c == 0 {
        assert(q > 0) by (nonlinear_arith)
            requires
                t == c * q,
                t > 0,
                c > 0,
        ;
    }
    if n > 0 {
        lemma_chunk_start((n - 1) as nat, c, t);
        assert(p[n - 1].end == t) by {
            assert(((n - 1) + 1) * c == n * c) by (nonlinear_arith);
        }
        assert(p[0].start == 0);
    }
    assert forall|i: int| 0 <= i < p.len() - 1 implies (#[trigger] p[i]).end == p[i + 1].start by {
        lemma_chunk_start((i + 1) as nat, c, t);
    }
    assert forall|i: int| 0 <= i < p.len() implies (#[trigger] p[i]).start < p[i].end && p[i].end
        <= p[i].start + c by {
        lemma_chunk_start(i as nat, c, t);
        assert((i + 1) * c == i * c + c) by (nonlinear_arith);
    }
}

proof fn lemma_decimal_len(n: nat)
    ensures
        n < 10 ==> decimal(n).len() == 1,
        n >= 10 ==> decimal(n).len() >= 2,
    decreases n,
{
    if n >= 10 {
        lemma_decimal_len(n / 10);
    }
}

proof fn lemma_digit_injective(x: nat, y: nat)
    requires
        x < 10,
        y < 10,
        crate::types::digit_char(x) == crate::types::digit_char(y),
    ensures
        x == y,
{
    assert(crate::types::digit_char(x) as u32 == 48 + x);
    assert(crate::types::digit_char(y) as u32 == 48 + y);
}

/// Different numbers have different decimal notations.
pub proof fn lemma_decimal_injective(n: nat, m: nat)
    requires
        decimal(n) == decimal(m),
    ensures
        n == m,
    decreases n,
{
    lemma_decimal_len(n);
    lemma_decimal_len(m);
    if n >= 10 && m >= 10 {
        let dn = decimal(n);
        let dm = decimal(m);
        assert(dn.drop_last() =~= decimal(n / 10));
        assert(dm.drop_last() =~= decimal(m / 10));
        assert(dn.last() == dm.last());
        lemma_decimal_injective(n / 10, m / 10);
        lemma_digit_injective(n % 10, m % 10);
        lemma_fundamental_div_mod(n as int, 10);
        lemma_fundamental_div_mod(m as int, 10);
    } else if n < 10 && m < 10 {
        assert(decimal(n) == seq![crate::types::digit_char(n)]);
        assert(decimal(m) == seq![crate::types::digit_char(m)]);
        assert(decimal(n)[0] == crate::types::digit_char(n));
        assert(decimal(m)[0] == crate::types::digit_char(m));
        lemma_digit_injective(n, m);
    }
}

/// Different emission indices give different ids.
pub proof fn lemma_item_id_injective(n: nat, m: nat)
    requires
        item_id(n) == item_id(m),
    ensures
        n == m,
{
    let p = seq!['d', 'i', 'f', 'f', '-'];
    assert((p + decimal(n)).subrange(5, item_id(n).len() as int) =~= decimal(n));
    assert((p + decimal(m)).subrange(5, item_id(m).len() as int) =~= decimal(m));
    lemma_decimal_injective(n, m);
}

proof fn lemma_backtrace_ids(a: Seq<char>, b: Seq<char>, i: nat, j: nat, k: nat)
    ensures
        forall|q: int|
            0 <= q < backtrace(a, b, i, j, k).len() ==> (#[trigger] backtrace(a, b, i, j, k)[q]).id
                == item_id((k + q) as nat),
    decreases i + j,
{
    let bt = backtrace(a, b, i, j, k);
    if i == 0 && j == 0 {
    } else {
        let (ni, nj): (nat, nat) = if i == 0 {
            (i, (j - 1) as nat)
        } else if j == 0 {
            ((i - 1) as nat, j)
        } else if a[i - 1] == b[j - 1] {
            ((i - 1) as nat, (j - 1) as nat)
        } else if crate::char_diff::lcs_len(a, b, (i - 1) as nat, j) > crate::char_diff::lcs_len(
            a,
            b,
            i,
            (j - 1) as nat,
        ) {
            ((i - 1) as nat, j)
        } else {
            (i, (j - 1) as nat)
        };
        lemma_backtrace_ids(a, b, ni, nj, k + 1);
        let rest = backtrace(a, b, ni, nj, k + 1);
        assert forall|q: int| 0 <= q < bt.len() implies (#[trigger] bt[q]).id == item_id(
            (k + q) as nat,
        ) by {
            if q > 0 {
                assert(bt[q] == rest[q - 1]);
            }
        }
    }
}

proof fn lemma_walk_ids(l: Seq<Seq<char>>, r: Seq<Seq<char>>, li: nat, ri: nat, k: nat)
    requires
        li <= l.len(),
        ri <= r.len(),
    ensures
        forall|q: int|
            0 <= q < walk(l, r, li, ri, k).len() ==> (#[trigger] walk(l, r, li, ri, k)[q]).id
                == item_id((k + q) as nat),
    decreases walk_measure(l, r, li, ri),
{
    let w = walk(l, r, li, ri, k);
    if li >= l.len() && ri >= r.len() {
    } else {
        let (nl, nr): (nat, nat) = if li >= l.len() {
            (li, ri + 1)
        } else if ri >= r.len() {
            (li + 1, ri)
        } else {
            (li + 1, ri + 1)
        };
        lemma_walk_ids(l, r, nl, nr, k + 1);
        let rest = walk(l, r, nl, nr, k + 1);
        assert forall|q: int| 0 <= q < w.len() implies (#[trigger] w[q]).id == item_id(
            (k + q) as nat,
        ) by {
            if q > 0 {
                assert(w[q] == rest[q - 1]);
            }
        }
    }
}

/// The ids of the records of one comparison are pairwise different: each is
/// `diff-<n>` for the record's place `n` in emission order.
pub proof fn law_ids_unique(o: DiffOptions, left: Seq<char>, right: Seq<char>)
    ensures
        forall|q1: int, q2: int|
            0 <= q1 < diff_model(o, left, right).len() && 0 <= q2 < diff_model(o, left, right).len()
                && q1 != q2 ==> (#[trigger] diff_model(o, left, right)[q1]).id != (
            #[trigger] diff_model(o, left, right)[q2]).id,
{
    let m = diff_model(o, left, right);
    let pl = preprocess_model(o, left);
    let pr = preprocess_model(o, right);
    if splits(o) {
        let cjk = crate::text::has_cjk(left) || crate::text::has_cjk(right);
        lemma_walk_ids(crate::segment::segments(pl, cjk), crate::segment::segments(pr, cjk), 0, 0, 0);
        assert forall|q1: int, q2: int|
            0 <= q1 < m.len() && 0 <= q2 < m.len() && q1 != q2 implies (#[trigger] m[q1]).id != (
            #[trigger] m[q2]).id by {
            if m[q1].id == m[q2].id {
                lemma_item_id_injective(q1 as nat, q2 as nat);
            }
        }
    } else {
        let bt = backtrace(pl, pr, pl.len(), pr.len(), 0);
        lemma_backtrace_ids(pl, pr, pl.len(), pr.len(), 0);
        assert forall|q1: int, q2: int|
            0 <= q1 < m.len() && 0 <= q2 < m.len() && q1 != q2 implies (#[trigger] m[q1]).id != (
            #[trigger] m[q2]).id by {
            assert(m[q1] == bt[bt.len() - 1 - q1]);
            assert(m[q2] == bt[bt.len() - 1 - q2]);
            if m[q1].id == m[q2].id {
                lemma_item_id_injective((bt.len() - 1 - q1) as nat, (bt.len() - 1 - q2) as nat);
            }
        }
    }
}

} // verus!
