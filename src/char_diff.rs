//! Character-level difference by longest common subsequence.
use vstd::prelude::*;
use crate::types::{DiffItem, DiffType, ItemModel, Position, items_view, item_id, lemma_items_view_push, make_id, char_string};

verus! {

pub open spec fn max_nat(x: nat, y: nat) -> nat {
    if x >= y {
        x
    } else {
        y
    }
}

/// The length of a longest common subsequence of `a[..i]` and `b[..j]`.
pub open spec fn lcs_len(a: Seq<char>, b: Seq<char>, i: nat, j: nat) -> nat
    decreases i + j,
{
    if i == 0 || j == 0 {
        0
    } else if a[i - 1] == b[j - 1] {
        lcs_len(a, b, (i - 1) as nat, (j - 1) as nat) + 1
    } else {
        max_nat(lcs_len(a, b, (i - 1) as nat, j), lcs_len(a, b, i, (j - 1) as nat))
    }
}

pub proof fn lemma_lcs_bound(a: Seq<char>, b: Seq<char>, i: nat, j: nat)
    ensures
        lcs_len(a, b, i, j) <= i,
        lcs_len(a, b, i, j) <= j,
    decreases i + j,
{
    if i > 0 && j > 0 {
        lemma_lcs_bound(a, b, (i - 1) as nat, (j - 1) as nat);
        lemma_lcs_bound(a, b, (i - 1) as nat, j);
        lemma_lcs_bound(a, b, i, (j - 1) as nat);
    }
}

/// The record for one character at 1-based index `pos` of its side,
/// emitted `k`-th.
pub open spec fn char_item(k: nat, kind: DiffType, c: char, pos: nat) -> ItemModel {
    ItemModel {
        id: item_id(k),
        kind: kind,
        content: seq![c],
        original: if kind == DiffType::Remove {
            Some(seq![c])
        } else {
            None
        },
        line: Some(pos),
        start: (pos - 1) as nat,
        end: pos,
    }
}

/// The records that the backtrace from `(i, j)` emits, in emission order,
/// the first one numbered `k`. Ties between removing and adding go to adding.
pub open spec fn backtrace(a: Seq<char>, b: Seq<char>, i: nat, j: nat, k: nat) -> Seq<ItemModel>
    decreases i + j,
{
    if i == 0 && j == 0 {
        seq![]
    } else if i == 0 {
        seq![char_item(k, DiffType::Add, b[j - 1], j)] + backtrace(a, b, i, (j - 1) as nat, k + 1)
    } else if j == 0 {
        seq![char_item(k, DiffType::Remove, a[i - 1], i)] + backtrace(a, b, (i - 1) as nat, j, k + 1)
    } else if a[i - 1] == b[j - 1] {
        seq![char_item(k, DiffType::Equal, a[i - 1], i)] + backtrace(
            a,
            b,
            (i - 1) as nat,
            (j - 1) as nat,
            k + 1,
        )
    } else if lcs_len(a, b, (i - 1) as nat, j) > lcs_len(a, b, i, (j - 1) as nat) {
        seq![char_item(k, DiffType::Remove, a[i - 1], i)] + backtrace(a, b, (i - 1) as nat, j, k + 1)
    } else {
        seq![char_item(k, DiffType::Add, b[j - 1], j)] + backtrace(a, b, i, (j - 1) as nat, k + 1)
    }
}

/// The character-level records of `a` against `b`, left to right.
pub open spec fn char_diff_model(a: Seq<char>, b: Seq<char>) -> Seq<ItemModel> {
    backtrace(a, b, a.len(), b.len(), 0).reverse()
}

/// Row `r` of `t` holds `lcs_len(a, b, r + 1, q + 1)` at column `q`.
pub open spec fn table_ok(t: Seq<Vec<usize>>, a: Seq<char>, b: Seq<char>) -> bool {
    &&& t.len() == a.len()
    &&& forall|r: int| 0 <= r < a.len() ==> (#[trigger] t[r])@.len() == b.len()
    &&& forall|r: int, q: int|
        0 <= r < a.len() && 0 <= q < b.len() ==> #[trigger] t[r]@[q] == lcs_len(
            a,
            b,
            (r + 1) as nat,
            (q + 1) as nat,
        )
}

fn build_table(a: &Vec<char>, b: &Vec<char>) -> (t: Vec<Vec<usize>>)
    ensures
        table_ok(t@, a@, b@),
{
    let m = a.len();
    let n = b.len();
    let mut t: Vec<Vec<usize>> = Vec::new();
    let mut i: usize = 0;
    while i < m
        invariant
            i <= m,
            m == a.len(),
            n == b.len(),
            t.len() == i,
            forall|r: int| 0 <= r < i ==> (#[trigger] t@[r])@.len() == n,
            forall|r: int, q: int|
                0 <= r < i && 0 <= q < n ==> #[trigger] t@[r]@[q] == lcs_len(
                    a@,
                    b@,
                    (r + 1) as nat,
                    (q + 1) as nat,
                ),
        decreases m - i,
    {
        let mut row: Vec<usize> = Vec::new();
        let mut j: usize = 0;
        while j < n
            invariant
                i < m,
                j <= n,
                m == a.len(),
                n == b.len(),
                t.len() == i,
                forall|r: int| 0 <= r < i ==> (#[trigger] t@[r])@.len() == n,
                forall|r: int, q: int|
                    0 <= r < i && 0 <= q < n ==> #[trigger] t@[r]@[q] == lcs_len(
                        a@,
                        b@,
                        (r + 1) as nat,
                        (q + 1) as nat,
                    ),
                row.len() == j,
                forall|q: int|
                    0 <= q < j ==> #[trigger] row@[q] == lcs_len(
                        a@,
                        b@,
                        (i + 1) as nat,
                        (q + 1) as nat,
                    ),
            decreases n - j,
        {
            proof {
                lemma_lcs_bound(a@, b@, i as nat, j as nat);
            }
            let ghost ii = (i + 1) as nat;
            let ghost jj = (j + 1) as nat;
            assert(a@[ii - 1] == a@[i as int] && b@[jj - 1] == b@[j as int]);
            let v = if a[i] == b[j] {
                let diag = if i == 0 || j == 0 {
                    0
                } else {
                    t[i - 1][j - 1]
                };
                assert(diag == lcs_len(a@, b@, i as nat, j as nat));
                diag + 1
            } else {
                let up = if i == 0 {
                    0
                } else {
                    t[i - 1][j]
                };
                let left = if j == 0 {
                    0
                } else {
                    row[j - 1]
                };
                assert(up == lcs_len(a@, b@, i as nat, jj));
                assert(left == lcs_len(a@, b@, ii, j as nat));
                if up >= left {
                    up
                } else {
                    left
                }
            };
            assert(v == lcs_len(a@, b@, (i + 1) as nat, (j + 1) as nat));
            row.push(v);
            j = j + 1;
        }
        t.push(row);
        i = i + 1;
    }
    t
}

fn cell(t: &Vec<Vec<usize>>, a: &Vec<char>, b: &Vec<char>, i: usize, j: usize) -> (r: usize)
    requires
        table_ok(t@, a@, b@),
        i <= a.len(),
        j <= b.len(),
    ensures
        r == lcs_len(a@, b@, i as nat, j as nat),
{
    if i == 0 || j == 0 {
        0
    } else {
        t[i - 1][j - 1]
    }
}

fn char_record(k: usize, kind: DiffType, c: char, pos: usize) -> (r: DiffItem)
    requires
        pos >= 1,
    ensures
        r@ == char_item(k as nat, kind, c, pos as nat),
{
    let original = match kind {
        DiffType::Remove => Some(char_string(c)),
        _ => None,
    };
    DiffItem {
        id: make_id(k),
        diff_type: kind,
        content: char_string(c),
        original_content: original,
        line_number: Some(pos),
        position: Position { start: pos - 1, end: pos },
    }
}

proof fn lemma_append_step(pre: Seq<ItemModel>, x: ItemModel, rest: Seq<ItemModel>)
    ensures
        pre.push(x) + rest == pre + (seq![x] + rest),
{
    assert(pre.push(x) + rest =~= pre + (seq![x] + rest));
}

/// The records of the backtrace from `(a.len(), b.len())`, in emission order.
fn backtrace_items(a: &Vec<char>, b: &Vec<char>, t: &Vec<Vec<usize>>) -> (r: Vec<DiffItem>)
    requires
        table_ok(t@, a@, b@),
    ensures
        items_view(r@) == backtrace(a@, b@, a@.len(), b@.len(), 0),
{
    let mut items: Vec<DiffItem> = Vec::new();
    let mut i: usize = a.len();
    let mut j: usize = b.len();
    while i > 0 || j > 0
        invariant
            i <= a.len(),
            j <= b.len(),
            table_ok(t@, a@, b@),
            items_view(items@) + backtrace(a@, b@, i as nat, j as nat, items.len() as nat)
                == backtrace(a@, b@, a@.len(), b@.len(), 0),
        decreases i + j,
    {
        let k = items.len();
        let ghost pre = items_view(items@);
        let x;
        if i == 0 {
            x = char_record(k, DiffType::Add, b[j - 1], j);
            j = j - 1;
        } else if j == 0 {
            x = char_record(k, DiffType::Remove, a[i - 1], i);
            i = i - 1;
        } else if a[i - 1] == b[j - 1] {
            x = char_record(k, DiffType::Equal, a[i - 1], i);
            i = i - 1;
            j = j - 1;
        } else if cell(t, a, b, i - 1, j) > cell(t, a, b, i, j - 1) {
            x = char_record(k, DiffType::Remove, a[i - 1], i);
            i = i - 1;
        } else {
            x = char_record(k, DiffType::Add, b[j - 1], j);
            j = j - 1;
        }
        proof {
            lemma_items_view_push(items@, x);
            lemma_append_step(pre, x@, backtrace(a@, b@, i as nat, j as nat, (k + 1) as nat));
        }
        items.push(x);
    }
    proof {
        assert(items_view(items@) + seq![] =~= items_view(items@));
    }
    items
}

/// The records `v` in reverse order.
fn reversed(v: Vec<DiffItem>) -> (r: Vec<DiffItem>)
    ensures
        items_view(r@) == items_view(v@).reverse(),
{
    let ghost e = items_view(v@);
    let mut items = v;
    let mut out: Vec<DiffItem> = Vec::new();
    while items.len() > 0
        invariant
            items.len() + out.len() == e.len(),
            forall|q: int| 0 <= q < items.len() ==> (#[trigger] items@[q])@ == e[q],
            forall|p: int| 0 <= p < out.len() ==> (#[trigger] out@[p])@ == e[e.len() - 1 - p],
        decreases items.len(),
    {
        let x = items.pop();
        match x {
            Some(x) => {
                out.push(x);
            },
            None => {},
        }
    }
    proof {
        assert(items_view(out@) =~= e.reverse());
    }
    out
}

/// Character-level records of `a` against `b` by longest common subsequence:
/// a table of prefix LCS lengths, a backtrace from the end, then the records
/// in left-to-right order.
pub fn lcs_diff(a: &Vec<char>, b: &Vec<char>) -> (r: Vec<DiffItem>)
    ensures
        items_view(r@) == char_diff_model(a@, b@),
{
    let t = build_table(a, b);
    let items = backtrace_items(a, b, &t);
    reversed(items)
}

} // verus!
