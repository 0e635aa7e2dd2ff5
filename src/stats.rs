//! Counts, word totals and the similarity of a record sequence.
use vstd::prelude::*;
use vstd::utf8::encode_utf8;
use crate::types::{DiffItem, DiffStats, DiffType, ItemModel, Similarity, items_view};
use crate::text::{chars_of, count_words, word_count};

verus! {

/// The byte length of the UTF-8 encoding of `s`, as `str::len` reports it.
pub open spec fn byte_len(s: Seq<char>) -> nat {
    (encode_utf8(s).len() as usize) as nat
}

/// Words a record adds: those of the new text of an Add or a Modify.
pub open spec fn added_of(it: ItemModel) -> nat {
    if it.kind == DiffType::Add || it.kind == DiffType::Modify {
        word_count(it.content)
    } else {
        0
    }
}

/// Words a record deletes: those of a Remove, or of a Modify's original.
pub open spec fn deleted_of(it: ItemModel) -> nat {
    if it.kind == DiffType::Remove {
        word_count(it.content)
    } else if it.kind == DiffType::Modify {
        match it.original {
            Some(o) => word_count(o),
            None => 0,
        }
    } else {
        0
    }
}

/// Bytes a record counts as changed: the content of any non-Equal record.
pub open spec fn changed_bytes_of(it: ItemModel) -> nat {
    if it.kind == DiffType::Equal {
        0
    } else {
        byte_len(it.content)
    }
}

pub open spec fn sum_added(items: Seq<ItemModel>) -> nat
    decreases items.len(),
{
    if items.len() == 0 {
        0
    } else {
        sum_added(items.drop_last()) + added_of(items.last())
    }
}

pub open spec fn sum_deleted(items: Seq<ItemModel>) -> nat
    decreases items.len(),
{
    if items.len() == 0 {
        0
    } else {
        sum_deleted(items.drop_last()) + deleted_of(items.last())
    }
}

pub open spec fn sum_changed_bytes(items: Seq<ItemModel>) -> nat
    decreases items.len(),
{
    if items.len() == 0 {
        0
    } else {
        sum_changed_bytes(items.drop_last()) + changed_bytes_of(items.last())
    }
}

/// How many records of `items` are of kind `kind`.
pub open spec fn count_of(items: Seq<ItemModel>, kind: DiffType) -> nat
    decreases items.len(),
{
    if items.len() == 0 {
        0
    } else {
        count_of(items.drop_last(), kind) + if items.last().kind == kind {
            1nat
        } else {
            0nat
        }
    }
}

/// `total - changed`, or 0 where the changed bytes exceed the total.
pub open spec fn unchanged_part(total: nat, changed: nat) -> nat {
    if total >= changed {
        (total - changed) as nat
    } else {
        0
    }
}

/// What the statistics of `items` are, for inputs of `lb` and `rb` bytes.
pub open spec fn stats_of(s: DiffStats, items: Seq<ItemModel>, lb: nat, rb: nat) -> bool {
    let total = if lb >= rb {
        lb
    } else {
        rb
    };
    &&& s.additions == count_of(items, DiffType::Add)
    &&& s.deletions == count_of(items, DiffType::Remove)
    &&& s.modifications == count_of(items, DiffType::Modify)
    &&& s.total_changes == s.additions + s.deletions + s.modifications
    &&& s.added_words == sum_added(items)
    &&& s.deleted_words == sum_deleted(items)
    &&& s.similarity.total == total
    &&& s.similarity.unchanged == unchanged_part(total, sum_changed_bytes(items))
}

proof fn lemma_sums_prefix(s: Seq<ItemModel>, i: int)
    requires
        0 <= i <= s.len(),
    ensures
        sum_added(s.take(i)) <= sum_added(s),
        sum_deleted(s.take(i)) <= sum_deleted(s),
    decreases s.len(),
{
    if i < s.len() {
        assert(s.drop_last().take(i) =~= s.take(i));
        lemma_sums_prefix(s.drop_last(), i);
    } else {
        assert(s.take(i) =~= s);
    }
}

proof fn lemma_count_bound(s: Seq<ItemModel>)
    ensures
        count_of(s, DiffType::Add) + count_of(s, DiffType::Remove) + count_of(s, DiffType::Modify)
            <= s.len(),
    decreases s.len(),
{
    if s.len() > 0 {
        lemma_count_bound(s.drop_last());
    }
}

/// The word count of a string.
pub fn text_word_count(s: &String) -> (r: usize)
    ensures
        r == word_count(s@),
{
    let v = chars_of(s.as_str());
    count_words(v.as_slice())
}

/// Statistics of `items` for the inputs `left_text` and `right_text`.
pub fn calculate_stats(items: &Vec<DiffItem>, left_text: &str, right_text: &str) -> (s: DiffStats)
    requires
        sum_added(items_view(items@)) <= usize::MAX,
        sum_deleted(items_view(items@)) <= usize::MAX,
    ensures
        stats_of(s, items_view(items@), byte_len(left_text@), byte_len(right_text@)),
{
    let ghost iv = items_view(items@);
    let lb = left_text.len();
    let rb = right_text.len();
    let total = if lb >= rb {
        lb
    } else {
        rb
    };
    let mut additions: usize = 0;
    let mut deletions: usize = 0;
    let mut modifications: usize = 0;
    let mut added_words: usize = 0;
    let mut deleted_words: usize = 0;
    let mut unchanged: usize = total;
    let mut i: usize = 0;
    while i < items.len()
        invariant
            i <= items.len(),
            iv == items_view(items@),
            sum_added(iv) <= usize::MAX,
            sum_deleted(iv) <= usize::MAX,
            additions == count_of(iv.take(i as int), DiffType::Add),
            deletions == count_of(iv.take(i as int), DiffType::Remove),
            modifications == count_of(iv.take(i as int), DiffType::Modify),
            added_words == sum_added(iv.take(i as int)),
            deleted_words == sum_deleted(iv.take(i as int)),
            unchanged == unchanged_part(total as nat, sum_changed_bytes(iv.take(i as int))),
        decreases items.len() - i,
    {
        let it = &items[i];
        let ghost p = iv.take(i as int);
        let ghost q = iv.take(i + 1);
        proof {
            assert(q.drop_last() =~= p);
            assert(q.last() == it@);
            lemma_sums_prefix(iv, i + 1);
            lemma_count_bound(q);
        }
        match it.diff_type {
            DiffType::Add => {
                additions = additions + 1;
                added_words = added_words + text_word_count(&it.content);
            },
            DiffType::Remove => {
                deletions = deletions + 1;
                deleted_words = deleted_words + text_word_count(&it.content);
            },
            DiffType::Modify => {
                modifications = modifications + 1;
                added_words = added_words + text_word_count(&it.content);
                match &it.original_content {
                    Some(o) => {
                        deleted_words = deleted_words + text_word_count(o);
                    },
                    None => {},
                }
            },
            DiffType::Equal => {},
        }
        match it.diff_type {
            DiffType::Equal => {},
            _ => {
                let n = it.content.as_str().len();
                unchanged = if unchanged >= n {
                    unchanged - n
                } else {
                    0
                };
            },
        }
        i = i + 1;
    }
    proof {
        assert(iv.take(i as int) =~= iv);
        lemma_count_bound(iv);
    }
    DiffStats {
        total_changes: additions + deletions + modifications,
        additions,
        deletions,
        modifications,
        added_words,
        deleted_words,
        similarity: Similarity { unchanged, total },
    }
}

} // verus!
