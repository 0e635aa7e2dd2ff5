//! Splitting text into comparison segments and into lines.
use vstd::prelude::*;
use crate::text::{string_from_chars, join_with, lemma_take_step};

verus! {

/// A CJK sentence-terminal mark; it stays with the segment it closes.
pub open spec fn is_cjk_terminal(c: char) -> bool {
    c == '。' || c == '！' || c == '？' || c == '；'
}

/// A Latin sentence delimiter; it is dropped.
pub open spec fn is_latin_delimiter(c: char) -> bool {
    c == '.' || c == '!' || c == '?' || c == ';'
}

/// The closed segments and the open remainder after reading `s`.
pub open spec fn scan_segments(s: Seq<char>, cjk: bool) -> (Seq<Seq<char>>, Seq<char>)
    decreases s.len(),
{
    if s.len() == 0 {
        (seq![], seq![])
    } else {
        let st = scan_segments(s.drop_last(), cjk);
        let c = s.last();
        if cjk && is_cjk_terminal(c) {
            (st.0.push(st.1.push(c)), seq![])
        } else if !cjk && is_latin_delimiter(c) {
            (st.0.push(st.1), seq![])
        } else {
            (st.0, st.1.push(c))
        }
    }
}

/// The segments of `s`: CJK rules keep each terminal mark at the end of the
/// segment it closes; Latin rules split on `.`, `!`, `?`, `;` and drop them.
/// A non-empty remainder is a last segment; an empty one is not.
pub open spec fn segments(s: Seq<char>, cjk: bool) -> Seq<Seq<char>> {
    let st = scan_segments(s, cjk);
    if st.1.len() > 0 {
        st.0.push(st.1)
    } else {
        st.0
    }
}

/// The sum of the lengths of `ss`.
pub open spec fn total_len(ss: Seq<Seq<char>>) -> nat
    decreases ss.len(),
{
    if ss.len() == 0 {
        0
    } else {
        total_len(ss.drop_last()) + ss.last().len()
    }
}

pub proof fn lemma_total_len_push(ss: Seq<Seq<char>>, x: Seq<char>)
    ensures
        total_len(ss.push(x)) == total_len(ss) + x.len(),
{
    assert(ss.push(x).drop_last() =~= ss);
}

proof fn lemma_scan_len(s: Seq<char>, cjk: bool)
    ensures
        total_len(scan_segments(s, cjk).0) + scan_segments(s, cjk).1.len() <= s.len(),
    decreases s.len(),
{
    if s.len() > 0 {
        let st = scan_segments(s.drop_last(), cjk);
        lemma_scan_len(s.drop_last(), cjk);
        lemma_total_len_push(st.0, st.1.push(s.last()));
        lemma_total_len_push(st.0, st.1);
    }
}

/// Segments never hold more characters than the text they come from.
pub proof fn lemma_segments_len(s: Seq<char>, cjk: bool)
    ensures
        total_len(segments(s, cjk)) <= s.len(),
{
    lemma_scan_len(s, cjk);
    let st = scan_segments(s, cjk);
    lemma_total_len_push(st.0, st.1);
}

pub open spec fn views_of(v: Seq<String>) -> Seq<Seq<char>> {
    v.map_values(|x: String| x@)
}

proof fn lemma_views_push(v: Seq<String>, x: String)
    ensures
        views_of(v.push(x)) == views_of(v).push(x@),
{
    assert(views_of(v.push(x)) =~= views_of(v).push(x@));
}

/// Splits `s` into segments under CJK or Latin rules.
pub fn split_segments(s: &Vec<char>, cjk: bool) -> (r: Vec<String>)
    ensures
        views_of(r@) == segments(s@, cjk),
{
    let mut segs: Vec<String> = Vec::new();
    let mut acc: Vec<char> = Vec::new();
    let mut i: usize = 0;
    while i < s.len()
        invariant
            i <= s.len(),
            views_of(segs@) == scan_segments(s@.take(i as int), cjk).0,
            acc@ == scan_segments(s@.take(i as int), cjk).1,
        decreases s.len() - i,
    {
        let c = s[i];
        proof {
            lemma_take_step(s@, i as int);
        }
        let terminal = if cjk {
            c == '。' || c == '！' || c == '？' || c == '；'
        } else {
            false
        };
        let delimiter = if cjk {
            false
        } else {
            c == '.' || c == '!' || c == '?' || c == ';'
        };
        if terminal {
            acc.push(c);
            let seg = string_from_chars(acc.as_slice());
            proof {
                lemma_views_push(segs@, seg);
            }
            segs.push(seg);
            acc = Vec::new();
        } else if delimiter {
            let seg = string_from_chars(acc.as_slice());
            proof {
                lemma_views_push(segs@, seg);
            }
            segs.push(seg);
            acc = Vec::new();
        } else {
            acc.push(c);
        }
        i = i + 1;
    }
    proof {
        assert(s@.take(i as int) =~= s@);
    }
    if acc.len() > 0 {
        let seg = string_from_chars(acc.as_slice());
        proof {
            lemma_views_push(segs@, seg);
        }
        segs.push(seg);
    }
    segs
}

/// `acc` without one trailing carriage return.
pub open spec fn strip_cr(acc: Seq<char>) -> Seq<char> {
    if acc.len() > 0 && acc.last() == '\r' {
        acc.drop_last()
    } else {
        acc
    }
}

/// The finished lines and the open remainder after reading `s`.
pub open spec fn scan_lines(s: Seq<char>) -> (Seq<Seq<char>>, Seq<char>)
    decreases s.len(),
{
    if s.len() == 0 {
        (seq![], seq![])
    } else {
        let st = scan_lines(s.drop_last());
        if s.last() == '\n' {
            (st.0.push(strip_cr(st.1)), seq![])
        } else {
            (st.0, st.1.push(s.last()))
        }
    }
}

/// The lines of `s` as `str::lines` gives them: split at `\n` or `\r\n`,
/// the final line ending optional.
pub open spec fn lines(s: Seq<char>) -> Seq<Seq<char>> {
    let st = scan_lines(s);
    if st.1.len() > 0 {
        st.0.push(st.1)
    } else {
        st.0
    }
}

/// Splits `s` into lines.
pub fn split_lines(s: &Vec<char>) -> (r: Vec<String>)
    ensures
        views_of(r@) == lines(s@),
{
    let mut out: Vec<String> = Vec::new();
    let mut acc: Vec<char> = Vec::new();
    let mut i: usize = 0;
    while i < s.len()
        invariant
            i <= s.len(),
            views_of(out@) == scan_lines(s@.take(i as int)).0,
            acc@ == scan_lines(s@.take(i as int)).1,
        decreases s.len() - i,
    {
        let c = s[i];
        proof {
            lemma_take_step(s@, i as int);
        }
        if c == '\n' {
            let n = acc.len();
            if n > 0 && acc[n - 1] == '\r' {
                acc.pop();
            }
            let line = string_from_chars(acc.as_slice());
            proof {
                lemma_views_push(out@, line);
            }
            out.push(line);
            acc = Vec::new();
        } else {
            acc.push(c);
        }
        i = i + 1;
    }
    proof {
        assert(s@.take(i as int) =~= s@);
    }
    if acc.len() > 0 {
        let line = string_from_chars(acc.as_slice());
        proof {
            lemma_views_push(out@, line);
        }
        out.push(line);
    }
    out
}

/// Joins `ls[from..to]` with newlines.
pub fn join_lines(ls: &Vec<String>, from: usize, to: usize) -> (r: String)
    requires
        from <= to <= ls.len(),
    ensures
        r@ == join_with(views_of(ls@).subrange(from as int, to as int), '\n'),
{
    let mut out = String::new();
    let mut k: usize = from;
    proof {
        reveal_strlit("\n");
        assert(views_of(ls@).subrange(from as int, from as int) =~= Seq::<Seq<char>>::empty());
    }
    while k < to
        invariant
            from <= k <= to <= ls.len(),
            out@ == join_with(views_of(ls@).subrange(from as int, k as int), '\n'),
        decreases to - k,
    {
        let ghost before = views_of(ls@).subrange(from as int, k as int);
        let ghost after = views_of(ls@).subrange(from as int, k + 1);
        proof {
            reveal_strlit("\n");
            assert(after.drop_last() =~= before);
            assert(after.last() == ls@[k as int]@);
        }
        if k > from {
            out.append("\n");
        }
        out.append(ls[k].as_str());
        proof {
            assert(out@ =~= join_with(after, '\n'));
        }
        k = k + 1;
    }
    out
}

/// Joins all of `ls` with single spaces.
pub fn join_with_spaces(ls: &Vec<String>) -> (r: String)
    ensures
        r@ == join_with(views_of(ls@), ' '),
{
    let mut out = String::new();
    let mut k: usize = 0;
    proof {
        assert(views_of(ls@).subrange(0, 0) =~= Seq::<Seq<char>>::empty());
    }
    while k < ls.len()
        invariant
            k <= ls.len(),
            out@ == join_with(views_of(ls@).subrange(0, k as int), ' '),
        decreases ls.len() - k,
    {
        let ghost before = views_of(ls@).subrange(0, k as int);
        let ghost after = views_of(ls@).subrange(0, k + 1);
        proof {
            reveal_strlit(" ");
            assert(after.drop_last() =~= before);
            assert(after.last() == ls@[k as int]@);
        }
        if k > 0 {
            out.append(" ");
        }
        out.append(ls[k].as_str());
        proof {
            assert(out@ =~= join_with(after, ' '));
        }
        k = k + 1;
    }
    proof {
        assert(views_of(ls@).subrange(0, k as int) =~= views_of(ls@));
    }
    out
}

} // verus!
