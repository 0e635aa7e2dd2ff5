//! The diff engine: normalise, detect script, diff by characters or by
//! segments, and compute statistics; also the chunked stream over lines.
use vstd::prelude::*;
use crate::types::{DiffChunk, DiffItem, DiffOptions, DiffResult, DiffStats, ItemModel, items_view};
use crate::text::{
    chars_of, collapse_ws, collapse_whitespace, contains_cjk, has_cjk, lower_of, lowercase,
    strip_punct, strip_punctuation, join_with,
};
use crate::segment::{lines, segments, split_lines, split_segments, views_of, join_lines, lemma_segments_len};
use crate::char_diff::{char_diff_model, lcs_diff};
use crate::segment_diff::{segment_diff_model, segment_walk};
use crate::stats::{byte_len, calculate_stats, stats_of};
use crate::bounds::{lemma_char_diff_sums, lemma_segment_diff_sums};
use vstd::arithmetic::div_mod::{lemma_fundamental_div_mod, lemma_mod_pos_bound};

verus! {

/// The text that is compared once the options are applied, in this order:
/// lower-case folding, whitespace collapsing, punctuation stripping.
pub open spec fn preprocess_model(o: DiffOptions, s: Seq<char>) -> Seq<char> {
    let s1 = if o.ignore_case {
        lower_of(s)
    } else {
        s
    };
    let s2 = if o.ignore_whitespace {
        collapse_whitespace(s1)
    } else {
        s1
    };
    if o.ignore_punctuation {
        strip_punctuation(s2)
    } else {
        s2
    }
}

/// Whether the comparison is split into segments.
pub open spec fn splits(o: DiffOptions) -> bool {
    o.split_by_paragraph || o.split_by_sentence
}

/// The records of comparing `left` with `right` under `o`. CJK rules apply
/// when either raw text holds a CJK ideograph.
pub open spec fn diff_model(o: DiffOptions, left: Seq<char>, right: Seq<char>) -> Seq<ItemModel> {
    let pl = preprocess_model(o, left);
    let pr = preprocess_model(o, right);
    let cjk = has_cjk(left) || has_cjk(right);
    if splits(o) {
        segment_diff_model(segments(pl, cjk), segments(pr, cjk))
    } else {
        char_diff_model(pl, pr)
    }
}

/// `items` and `stats` are what comparing `left` with `right` under `o`
/// gives: the records of [`diff_model`] and their statistics over the raw
/// byte lengths.
pub open spec fn result_of(
    o: DiffOptions,
    left: Seq<char>,
    right: Seq<char>,
    items: Seq<DiffItem>,
    stats: DiffStats,
) -> bool {
    &&& items_view(items) == diff_model(o, left, right)
    &&& stats_of(stats, diff_model(o, left, right), byte_len(left), byte_len(right))
}

/// The comparison engine; it holds only its options.
pub struct DiffEngine {
    options: DiffOptions,
}

impl View for DiffEngine {
    type V = DiffOptions;

    closed spec fn view(&self) -> DiffOptions {
        self.options
    }
}

impl DiffEngine {
    pub fn new(options: DiffOptions) -> (r: Self)
        ensures
            r@ == options,
    {
        DiffEngine { options }
    }

    /// The options this engine compares under.
    pub fn options(&self) -> (r: DiffOptions)
        ensures
            r == self@,
    {
        self.options
    }

    /// Compares `left_text` with `right_text`. Total: every pair of texts
    /// gives a result.
    pub fn compute_diff(&self, left_text: &str, right_text: &str) -> (r: DiffResult)
        ensures
            result_of(self@, left_text@, right_text@, r.items@, r.stats),
    {
        let processed_left = self.preprocess_text(left_text);
        let processed_right = self.preprocess_text(right_text);
        let has_chinese = contains_cjk(left_text) || contains_cjk(right_text);
        let items = if self.options.split_by_paragraph || self.options.split_by_sentence {
            self.hierarchical_diff(&processed_left, &processed_right, has_chinese)
        } else {
            self.character_diff(&processed_left, &processed_right)
        };
        // The lengths fit in usize; the word totals are bounded by them.
        let n_items = items.len();
        let n_left = processed_left.len();
        let n_right = processed_right.len();
        proof {
            assert(items_view(items@).len() == n_items);
            assert(processed_left@.len() == n_left && processed_right@.len() == n_right);
            let pl = processed_left@;
            let pr = processed_right@;
            if splits(self@) {
                let l = segments(pl, has_chinese);
                let rr = segments(pr, has_chinese);
                lemma_segment_diff_sums(l, rr);
                lemma_segments_len(pl, has_chinese);
                lemma_segments_len(pr, has_chinese);
            } else {
                lemma_char_diff_sums(pl, pr);
            }
        }
        let stats = calculate_stats(&items, left_text, right_text);
        DiffResult { items, stats }
    }

    /// Applies the options to `text`.
    pub fn preprocess_text(&self, text: &str) -> (r: Vec<char>)
        ensures
            r@ == preprocess_model(self@, text@),
    {
        let mut processed = if self.options.ignore_case {
            let lower = lowercase(text);
            chars_of(lower.as_str())
        } else {
            chars_of(text)
        };
        if self.options.ignore_whitespace {
            processed = collapse_ws(&processed);
        }
        if self.options.ignore_punctuation {
            processed = strip_punct(&processed);
        }
        processed
    }

    /// Segments both sides and walks the segment lists.
    pub fn hierarchical_diff(&self, left: &Vec<char>, right: &Vec<char>, has_chinese: bool) -> (r:
        Vec<DiffItem>)
        ensures
            items_view(r@) == segment_diff_model(
                segments(left@, has_chinese),
                segments(right@, has_chinese),
            ),
    {
        let segments_left = split_segments(left, has_chinese);
        let segments_right = split_segments(right, has_chinese);
        segment_walk(&segments_left, &segments_right)
    }

    /// The character-level records of `left` against `right`.
    pub fn character_diff(&self, left: &Vec<char>, right: &Vec<char>) -> (r: Vec<DiffItem>)
        ensures
            items_view(r@) == char_diff_model(left@, right@),
    {
        lcs_diff(left, right)
    }
}


/// One window of a chunked comparison: its place in the stream, its line
/// range `[start, end)` and the text of each side within it.
pub struct ChunkModel {
    pub index: nat,
    pub total: nat,
    pub start: nat,
    pub end: nat,
    pub left: Seq<char>,
    pub right: Seq<char>,
}

pub open spec fn min_nat(x: nat, y: nat) -> nat {
    if x <= y {
        x
    } else {
        y
    }
}

/// The number of windows of `c` lines that `t` lines need: `t / c` rounded up.
pub open spec fn chunk_count(t: nat, c: nat) -> nat {
    if c == 0 {
        0
    } else if t % c == 0 {
        t / c
    } else {
        t / c + 1
    }
}

/// Lines `[start, end)` of `ls`, clamped to its length, joined by newlines.
pub open spec fn window(ls: Seq<Seq<char>>, start: nat, end: nat) -> Seq<char> {
    join_with(ls.subrange(min_nat(start, ls.len()) as int, min_nat(end, ls.len()) as int), '\n')
}

/// The windows of `c` lines over two line lists, the longer one deciding
/// how many there are.
pub open spec fn chunk_plan_of_lines(ll: Seq<Seq<char>>, rl: Seq<Seq<char>>, c: nat) -> Seq<
    ChunkModel,
> {
    let t = if ll.len() >= rl.len() {
        ll.len()
    } else {
        rl.len()
    };
    let n = chunk_count(t, c);
    Seq::new(
        n,
        |i: int|
            {
                let start = (i * c) as nat;
                let end = min_nat(((i + 1) * c) as nat, t);
                ChunkModel {
                    index: i as nat,
                    total: n,
                    start: start,
                    end: end,
                    left: window(ll, start, end),
                    right: window(rl, start, end),
                }
            },
    )
}

/// The windows of `c` lines over the lines of `left` and `right`.
pub open spec fn chunk_plan(left: Seq<char>, right: Seq<char>, c: nat) -> Seq<ChunkModel> {
    chunk_plan_of_lines(lines(left), lines(right), c)
}

/// `ch` is the comparison of window `m` under `o`.
pub open spec fn chunk_of(o: DiffOptions, m: ChunkModel, ch: DiffChunk) -> bool {
    &&& ch.index == m.index
    &&& ch.total == m.total
    &&& result_of(o, m.left, m.right, ch.items@, ch.partial_stats)
}

/// A window `i` of a plan starts before the last line.
pub proof fn lemma_chunk_start(i: nat, c: nat, t: nat)
    requires
        c > 0,
        i < chunk_count(t, c),
    ensures
        i * c < t,
{
    lemma_fundamental_div_mod(t as int, c as int);
    lemma_mod_pos_bound(t as int, c as int);
    let q = t / c;
    if t % c == 0 {
        assert(i + 1 <= q);
        assert((i + 1) * c <= q * c) by (nonlinear_arith)
            requires
                i + 1 <= q,
                c > 0,
        ;
        assert(i * c + c == (i + 1) * c) by (nonlinear_arith);
    } else {
        assert(i <= q);
        assert(i * c <= q * c) by (nonlinear_arith)
            requires
                i <= q,
                c > 0,
        ;
    }
}

/// A pull-based sequence of per-window comparisons. Each pull computes one
/// window in full; stopping pulling cancels the rest.
pub struct DiffStream {
    options: DiffOptions,
    left_lines: Vec<String>,
    right_lines: Vec<String>,
    chunk_size: usize,
    total_lines: usize,
    total: usize,
    next: usize,
}

impl View for DiffStream {
    type V = Seq<ChunkModel>;

    /// The windows not yet pulled.
    closed spec fn view(&self) -> Seq<ChunkModel> {
        chunk_plan_of_lines(
            views_of(self.left_lines@),
            views_of(self.right_lines@),
            self.chunk_size as nat,
        ).subrange(self.next as int, self.total as int)
    }
}

impl DiffStream {
    /// The options each window is compared under.
    pub closed spec fn spec_options(&self) -> DiffOptions {
        self.options
    }

    pub closed spec fn wf(&self) -> bool {
        let ll = views_of(self.left_lines@);
        let rl = views_of(self.right_lines@);
        &&& self.chunk_size > 0
        &&& self.total_lines == if ll.len() >= rl.len() {
            ll.len()
        } else {
            rl.len()
        }
        &&& self.total == chunk_count(self.total_lines as nat, self.chunk_size as nat)
        &&& self.next <= self.total
    }

    /// How many windows are left to pull.
    pub fn remaining(&self) -> (r: usize)
        requires
            self.wf(),
        ensures
            r == self@.len(),
    {
        self.total - self.next
    }

    /// Compares the next window, or gives `None` once every window has been
    /// pulled.
    pub fn next_chunk(&mut self) -> (r: Option<DiffChunk>)
        requires
            old(self).wf(),
        ensures
            final(self).wf(),
            final(self).spec_options() == old(self).spec_options(),
            old(self)@.len() == 0 ==> r is None && final(self)@ == old(self)@,
            old(self)@.len() > 0 ==> match r {
                Some(ch) => chunk_of(old(self).spec_options(), old(self)@[0], ch),
                None => false,
            },
            old(self)@.len() > 0 ==> final(self)@ == old(self)@.drop_first(),
    {
        if self.next >= self.total {
            return None;
        }
        let ghost plan = chunk_plan_of_lines(
            views_of(self.left_lines@),
            views_of(self.right_lines@),
            self.chunk_size as nat,
        );
        let i = self.next;
        let c = self.chunk_size;
        let t = self.total_lines;
        proof {
            lemma_chunk_start(i as nat, c as nat, t as nat);
        }
        let start = i * c;
        let end = if t - start <= c {
            t
        } else {
            start + c
        };
        proof {
            assert(end == min_nat(((i + 1) * c) as nat, t as nat)) by (nonlinear_arith)
                requires
                    start == i * c,
                    end == (if t - start <= c {
                        t as int
                    } else {
                        start + c
                    }),
            ;
        }
        let ln = self.left_lines.len();
        let rn = self.right_lines.len();
        let left_chunk = join_lines(
            &self.left_lines,
            if start < ln {
                start
            } else {
                ln
            },
            if end < ln {
                end
            } else {
                ln
            },
        );
        let right_chunk = join_lines(
            &self.right_lines,
            if start < rn {
                start
            } else {
                rn
            },
            if end < rn {
                end
            } else {
                rn
            },
        );
        let engine = DiffEngine::new(self.options);
        let result = engine.compute_diff(left_chunk.as_str(), right_chunk.as_str());
        self.next = i + 1;
        proof {
            assert(self@ =~= old(self)@.drop_first());
        }
        Some(DiffChunk { index: i, total: self.total, items: result.items, partial_stats: result.stats })
    }
}

impl DiffEngine {
    /// A stream over windows of `chunk_size` lines of both texts; each window
    /// is compared on its own.
    pub fn compute_diff_stream(&self, left_text: &str, right_text: &str, chunk_size: usize) -> (s:
        DiffStream)
        requires
            chunk_size > 0,
        ensures
            s.wf(),
            s.spec_options() == self@,
            s@ == chunk_plan(left_text@, right_text@, chunk_size as nat),
    {
        let left_lines = split_lines(&chars_of(left_text));
        let right_lines = split_lines(&chars_of(right_text));
        let total_lines = if left_lines.len() >= right_lines.len() {
            left_lines.len()
        } else {
            right_lines.len()
        };
        let total = if total_lines % chunk_size == 0 {
            total_lines / chunk_size
        } else {
            proof {
                let t = total_lines as int;
                let c = chunk_size as int;
                lemma_fundamental_div_mod(t, c);
                lemma_mod_pos_bound(t, c);
                assert(c >= 2);
                assert((t / c) * 2 <= t) by (nonlinear_arith)
                    requires
                        c >= 2,
                        t == c * (t / c) + t % c,
                        t % c >= 0,
                        t / c >= 0,
                ;
            }
            total_lines / chunk_size + 1
        };
        let s = DiffStream {
            options: self.options,
            left_lines,
            right_lines,
            chunk_size,
            total_lines,
            total,
            next: 0,
        };
        proof {
            let plan = chunk_plan(left_text@, right_text@, chunk_size as nat);
            assert(s@ =~= plan);
        }
        s
    }
}

} // verus!
