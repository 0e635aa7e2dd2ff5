//! Character classes and whole-text transformations used by the engine.
use vstd::prelude::*;

verus! {

/// A CJK unified ideograph: the basic block, extension A or extension B.
pub open spec fn is_cjk(c: char) -> bool {
    ||| 0x4e00 <= c as u32 <= 0x9fff
    ||| 0x3400 <= c as u32 <= 0x4dbf
    ||| 0x20000 <= c as u32 <= 0x2a6df
}

/// Whether some character of `s` is a CJK ideograph.
pub open spec fn has_cjk(s: Seq<char>) -> bool {
    exists|i: int| 0 <= i < s.len() && is_cjk(#[trigger] s[i])
}

/// The Unicode `White_Space` property.
pub open spec fn white_space(c: char) -> bool {
    let u = c as u32;
    ||| 0x09 <= u <= 0x0d
    ||| u == 0x20
    ||| u == 0x85
    ||| u == 0xa0
    ||| u == 0x1680
    ||| 0x2000 <= u <= 0x200a
    ||| u == 0x2028
    ||| u == 0x2029
    ||| u == 0x202f
    ||| u == 0x205f
    ||| u == 0x3000
}

pub fn is_cjk_char(c: char) -> (r: bool)
    ensures
        r == is_cjk(c),
{
    let u = c as u32;
    (0x4e00 <= u && u <= 0x9fff) || (0x3400 <= u && u <= 0x4dbf) || (0x20000 <= u && u <= 0x2a6df)
}

pub fn is_white_space(c: char) -> (r: bool)
    ensures
        r == white_space(c),
{
    let u = c as u32;
    (0x09 <= u && u <= 0x0d) || u == 0x20 || u == 0x85 || u == 0xa0 || u == 0x1680 || (0x2000 <= u
        && u <= 0x200a) || u == 0x2028 || u == 0x2029 || u == 0x202f || u == 0x205f || u == 0x3000
}

/// Whether `s` holds a CJK ideograph.
pub fn contains_cjk(s: &str) -> (r: bool)
    ensures
        r == has_cjk(s@),
{
    let mut found = false;
    let mut it = s.chars();
    let ghost whole = s@;
    for c in iter: it
        invariant
            iter.seq() == whole,
            found == (exists|k: int| 0 <= k < iter.index() && is_cjk(#[trigger] whole[k])),
    {
        if is_cjk_char(c) {
            found = true;
        }
    }
    found
}


/// The characters of `s`, in order.
pub fn chars_of(s: &str) -> (r: Vec<char>)
    ensures
        r@ == s@,
{
    let mut out: Vec<char> = Vec::new();
    let ghost whole = s@;
    for c in iter: s.chars()
        invariant
            iter.seq() == whole,
            out@ == whole.take(iter.index() as int),
    {
        proof {
            assert(whole.take(iter.index() + 1) =~= whole.take(iter.index() as int).push(c));
        }
        out.push(c);
    }
    proof {
        assert(out@ =~= whole);
    }
    out
}

/// Relies on std's `FromIterator<&char>` for `String`: the string holds the
/// given characters in order.
#[verifier::external_body]
pub(crate) fn string_from_chars(v: &[char]) -> (r: String)
    ensures
        r@ == v@,
{
    v.iter().collect()
}

/// What `str::to_lowercase` returns for a text: it depends on the characters
/// alone.
pub uninterp spec fn lower_of(s: Seq<char>) -> Seq<char>;

/// Relies on `str::to_lowercase` for Unicode lower-case folding.
#[verifier::external_body]
pub(crate) fn lowercase(s: &str) -> (r: String)
    ensures
        r@ == lower_of(s@),
{
    s.to_lowercase()
}

/// What `char::is_alphanumeric` says of a character (Unicode `Alphabetic`
/// or `Numeric`).
pub uninterp spec fn alnum_of(c: char) -> bool;

/// Relies on `char::is_alphanumeric` for the Unicode alphanumeric classes.
#[verifier::external_body]
pub(crate) fn is_alphanumeric(c: char) -> (r: bool)
    ensures
        r == alnum_of(c),
{
    c.is_alphanumeric()
}

/// The maximal runs of non-whitespace characters of `s`, in order.
pub open spec fn words(s: Seq<char>) -> Seq<Seq<char>>
    decreases s.len(),
{
    if s.len() == 0 {
        seq![]
    } else {
        let p = s.drop_last();
        let c = s.last();
        let w = words(p);
        if white_space(c) {
            w
        } else if p.len() > 0 && !white_space(p.last()) {
            w.update(w.len() - 1, w.last().push(c))
        } else {
            w.push(seq![c])
        }
    }
}

/// The number of whitespace-delimited words of `s`.
pub open spec fn word_count(s: Seq<char>) -> nat {
    words(s).len()
}

/// The pieces of `ws` with `sep` between each two neighbours.
pub open spec fn join_with(ws: Seq<Seq<char>>, sep: char) -> Seq<char>
    decreases ws.len(),
{
    if ws.len() == 0 {
        seq![]
    } else if ws.len() == 1 {
        ws[0]
    } else {
        join_with(ws.drop_last(), sep) + seq![sep] + ws.last()
    }
}

/// Every whitespace run of `s` becomes one space; leading and trailing
/// whitespace is dropped.
pub open spec fn collapse_whitespace(s: Seq<char>) -> Seq<char> {
    join_with(words(s), ' ')
}

/// A text that ends in a non-whitespace character has a word.
pub proof fn lemma_words_nonempty(s: Seq<char>)
    requires
        s.len() > 0,
        !white_space(s.last()),
    ensures
        words(s).len() > 0,
    decreases s.len(),
{
    let p = s.drop_last();
    if p.len() > 0 && !white_space(p.last()) {
        lemma_words_nonempty(p);
    }
}

/// No text has more words than characters.
pub proof fn lemma_word_count_bound(s: Seq<char>)
    ensures
        word_count(s) <= s.len(),
    decreases s.len(),
{
    if s.len() > 0 {
        let p = s.drop_last();
        lemma_word_count_bound(p);
        if p.len() > 0 && !white_space(p.last()) {
            lemma_words_nonempty(p);
        }
    }
}

proof fn lemma_join_extend_last(ws: Seq<Seq<char>>, c: char)
    requires
        ws.len() > 0,
    ensures
        join_with(ws.update(ws.len() - 1, ws.last().push(c)), ' ') == join_with(ws, ' ').push(c),
{
    let w2 = ws.update(ws.len() - 1, ws.last().push(c));
    if ws.len() > 1 {
        assert(w2.drop_last() =~= ws.drop_last());
        assert(join_with(w2, ' ') =~= join_with(ws, ' ').push(c));
    }
}

proof fn lemma_join_push(ws: Seq<Seq<char>>, c: char)
    ensures
        join_with(ws.push(seq![c]), ' ') == if ws.len() == 0 {
            seq![c]
        } else {
            join_with(ws, ' ') + seq![' ', c]
        },
{
    let w2 = ws.push(seq![c]);
    assert(w2.drop_last() =~= ws);
    if ws.len() > 0 {
        assert(join_with(w2, ' ') =~= join_with(ws, ' ') + seq![' ', c]);
    }
}

pub proof fn lemma_take_step<T>(s: Seq<T>, i: int)
    requires
        0 <= i < s.len(),
    ensures
        s.take(i + 1).drop_last() == s.take(i),
        s.take(i + 1).last() == s[i],
        s.take(i + 1).len() == i + 1,
{
    assert(s.take(i + 1).drop_last() =~= s.take(i));
}

/// Collapses whitespace runs to single spaces and trims both ends.
pub fn collapse_ws(s: &Vec<char>) -> (r: Vec<char>)
    ensures
        r@ == collapse_whitespace(s@),
{
    let mut out: Vec<char> = Vec::new();
    let mut in_word = false;
    let mut i: usize = 0;
    while i < s.len()
        invariant
            i <= s.len(),
            out@ == join_with(words(s@.take(i as int)), ' '),
            in_word == (i > 0 && !white_space(s@[i - 1])),
            (out@.len() > 0) == (words(s@.take(i as int)).len() > 0),
        decreases s.len() - i,
    {
        let c = s[i];
        proof {
            lemma_take_step(s@, i as int);
        }
        let ghost prev = words(s@.take(i as int));
        if is_white_space(c) {
            in_word = false;
        } else if in_word {
            proof {
                lemma_words_nonempty(s@.take(i as int));
                lemma_join_extend_last(prev, c);
            }
            out.push(c);
        } else {
            proof {
                lemma_join_push(prev, c);
                if prev.len() > 0 {
                    assert(out@.push(' ').push(c) =~= join_with(prev, ' ') + seq![' ', c]);
                }
            }
            if out.len() > 0 {
                out.push(' ');
            }
            out.push(c);
            in_word = true;
        }
        i = i + 1;
    }
    proof {
        assert(s@.take(i as int) =~= s@);
    }
    out
}

/// The number of whitespace-delimited words of `s`.
pub fn count_words(s: &[char]) -> (r: usize)
    ensures
        r == word_count(s@),
{
    let mut count: usize = 0;
    let mut in_word = false;
    let mut i: usize = 0;
    while i < s.len()
        invariant
            i <= s.len(),
            count == word_count(s@.take(i as int)),
            in_word == (i > 0 && !white_space(s@[i - 1])),
        decreases s.len() - i,
    {
        let c = s[i];
        proof {
            lemma_take_step(s@, i as int);
            lemma_word_count_bound(s@.take(i as int));
        }
        if is_white_space(c) {
            in_word = false;
        } else {
            if in_word {
                proof {
                    lemma_words_nonempty(s@.take(i as int));
                }
            }
            if !in_word {
                count = count + 1;
            }
            in_word = true;
        }
        i = i + 1;
    }
    proof {
        assert(s@.take(i as int) =~= s@);
    }
    count
}

/// The characters that survive punctuation stripping.
pub open spec fn kept_by_strip(c: char) -> bool {
    alnum_of(c) || white_space(c) || is_cjk(c)
}

/// `s` without the characters that are neither alphanumeric, whitespace nor
/// CJK ideographs.
pub open spec fn strip_punctuation(s: Seq<char>) -> Seq<char>
    decreases s.len(),
{
    if s.len() == 0 {
        seq![]
    } else {
        let r = strip_punctuation(s.drop_last());
        if kept_by_strip(s.last()) {
            r.push(s.last())
        } else {
            r
        }
    }
}

/// Drops every character that is not alphanumeric, whitespace or CJK.
pub fn strip_punct(s: &Vec<char>) -> (r: Vec<char>)
    ensures
        r@ == strip_punctuation(s@),
{
    let mut out: Vec<char> = Vec::new();
    let mut i: usize = 0;
    while i < s.len()
        invariant
            i <= s.len(),
            out@ == strip_punctuation(s@.take(i as int)),
        decreases s.len() - i,
    {
        let c = s[i];
        proof {
            lemma_take_step(s@, i as int);
        }
        if is_alphanumeric(c) || is_white_space(c) || is_cjk_char(c) {
            out.push(c);
        }
        i = i + 1;
    }
    proof {
        assert(s@.take(i as int) =~= s@);
    }
    out
}

} // verus!
