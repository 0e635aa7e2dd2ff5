//! Segment-level difference by a synchronised walk over two segment lists.
use vstd::prelude::*;
use crate::types::{DiffItem, DiffType, ItemModel, Position, items_view, item_id, lemma_items_view_push, make_id};
use crate::segment::views_of;

verus! {

/// The record for a segment at 0-based index `idx` of the walk, emitted
/// `k`-th.
pub open spec fn seg_item(
    k: nat,
    kind: DiffType,
    content: Seq<char>,
    original: Option<Seq<char>>,
    idx: nat,
) -> ItemModel {
    ItemModel {
        id: item_id(k),
        kind: kind,
        content: content,
        original: original,
        line: Some(idx + 1),
        start: idx,
        end: idx + 1,
    }
}

pub open spec fn walk_measure(l: Seq<Seq<char>>, r: Seq<Seq<char>>, li: nat, ri: nat) -> nat {
    (if li < l.len() {
        (l.len() - li) as nat
    } else {
        0nat
    }) + (if ri < r.len() {
        (r.len() - ri) as nat
    } else {
        0nat
    })
}

/// The records of the walk from cursors `(li, ri)`, the first numbered `k`:
/// equal segments give Equal, differing ones Modify (new text as content,
/// old as original), and whatever one side has left gives Add or Remove.
pub open spec fn walk(l: Seq<Seq<char>>, r: Seq<Seq<char>>, li: nat, ri: nat, k: nat) -> Seq<
    ItemModel,
>
    decreases walk_measure(l, r, li, ri),
{
    if li >= l.len() && ri >= r.len() {
        seq![]
    } else if li >= l.len() {
        seq![seg_item(k, DiffType::Add, r[ri as int], None, ri)] + walk(l, r, li, ri + 1, k + 1)
    } else if ri >= r.len() {
        seq![seg_item(k, DiffType::Remove, l[li as int], Some(l[li as int]), li)] + walk(
            l,
            r,
            li + 1,
            ri,
            k + 1,
        )
    } else if l[li as int] == r[ri as int] {
        seq![seg_item(k, DiffType::Equal, l[li as int], None, li)] + walk(l, r, li + 1, ri + 1, k + 1)
    } else {
        seq![seg_item(k, DiffType::Modify, r[ri as int], Some(l[li as int]), li)] + walk(
            l,
            r,
            li + 1,
            ri + 1,
            k + 1,
        )
    }
}

/// The segment-level records of `l` against `r`.
pub open spec fn segment_diff_model(l: Seq<Seq<char>>, r: Seq<Seq<char>>) -> Seq<ItemModel> {
    walk(l, r, 0, 0, 0)
}

proof fn lemma_append_step(pre: Seq<ItemModel>, x: ItemModel, rest: Seq<ItemModel>)
    ensures
        pre.push(x) + rest == pre + (seq![x] + rest),
{
    assert(pre.push(x) + rest =~= pre + (seq![x] + rest));
}

fn seg_record(
    k: usize,
    kind: DiffType,
    content: String,
    original: Option<String>,
    idx: usize,
) -> (r: DiffItem)
    requires
        idx < usize::MAX,
    ensures
        r@ == seg_item(
            k as nat,
            kind,
            content@,
            match original {
                Some(s) => Some(s@),
                None => None,
            },
            idx as nat,
        ),
{
    DiffItem {
        id: make_id(k),
        diff_type: kind,
        content: content,
        original_content: original,
        line_number: Some(idx + 1),
        position: Position { start: idx, end: idx + 1 },
    }
}

/// Aligns two segment lists by walking both in step. This is not a longest
/// common subsequence alignment: after the first differing pair, every pair
/// is reported as a Modify.
pub fn segment_walk(left: &Vec<String>, right: &Vec<String>) -> (r: Vec<DiffItem>)
    ensures
        items_view(r@) == segment_diff_model(views_of(left@), views_of(right@)),
{
    let ghost l = views_of(left@);
    let ghost rr = views_of(right@);
    let mut items: Vec<DiffItem> = Vec::new();
    let mut li: usize = 0;
    let mut ri: usize = 0;
    while li < left.len() || ri < right.len()
        invariant
            li <= left.len(),
            ri <= right.len(),
            l == views_of(left@),
            rr == views_of(right@),
            items_view(items@) + walk(l, rr, li as nat, ri as nat, items.len() as nat) == walk(
                l,
                rr,
                0,
                0,
                0,
            ),
        decreases walk_measure(l, rr, li as nat, ri as nat),
    {
        let k = items.len();
        let ghost pre = items_view(items@);
        let x;
        if li >= left.len() {
            x = seg_record(k, DiffType::Add, right[ri].clone(), None, ri);
            ri = ri + 1;
        } else if ri >= right.len() {
            x = seg_record(k, DiffType::Remove, left[li].clone(), Some(left[li].clone()), li);
            li = li + 1;
        } else if left[li] == right[ri] {
            x = seg_record(k, DiffType::Equal, left[li].clone(), None, li);
            li = li + 1;
            ri = ri + 1;
        } else {
            x = seg_record(k, DiffType::Modify, right[ri].clone(), Some(left[li].clone()), li);
            li = li + 1;
            ri = ri + 1;
        }
        proof {
            lemma_items_view_push(items@, x);
            lemma_append_step(pre, x@, walk(l, rr, li as nat, ri as nat, (k + 1) as nat));
        }
        items.push(x);
    }
    proof {
        assert(items_view(items@) + seq![] =~= items_view(items@));
    }
    items
}

} // verus!
