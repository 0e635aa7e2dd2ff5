//! Input checks for text handed to the engine and for file paths.
use vstd::prelude::*;
use crate::stats::byte_len;
use crate::text::{chars_of, string_from_chars};

verus! {

/// Whether `input` is non-empty and under ten million bytes.
pub fn validate_input(input: &str) -> (r: bool)
    ensures
        r == (input@.len() > 0 && byte_len(input@) < 10_000_000),
{
    !input.is_empty() && input.len() < 10_000_000
}

/// `s` with every `..` removed, matches taken left to right without
/// overlap, as `str::replace` finds them.
pub open spec fn without_dot_pairs(s: Seq<char>) -> Seq<char>
    decreases s.len(),
{
    if s.len() == 0 {
        seq![]
    } else if s.len() >= 2 && s[0] == '.' && s[1] == '.' {
        without_dot_pairs(s.subrange(2, s.len() as int))
    } else {
        seq![s[0]] + without_dot_pairs(s.drop_first())
    }
}

/// `s` without its `~` characters.
pub open spec fn without_tildes(s: Seq<char>) -> Seq<char>
    decreases s.len(),
{
    if s.len() == 0 {
        seq![]
    } else if s.last() == '~' {
        without_tildes(s.drop_last())
    } else {
        without_tildes(s.drop_last()).push(s.last())
    }
}

/// Removes every `..`, then every `~`, from `path`.
pub fn sanitize_path(path: &str) -> (r: String)
    ensures
        r@ == without_tildes(without_dot_pairs(path@)),
{
    let s = chars_of(path);
    let n = s.len();
    let mut out: Vec<char> = Vec::new();
    let mut i: usize = 0;
    proof {
        assert(s@.subrange(0, n as int) =~= s@);
        assert(out@ + without_dot_pairs(s@) =~= without_dot_pairs(s@));
    }
    while i < n
        invariant
            i <= n,
            n == s.len(),
            out@ + without_dot_pairs(s@.subrange(i as int, n as int)) == without_dot_pairs(s@),
        decreases n - i,
    {
        let ghost rest = s@.subrange(i as int, n as int);
        if s[i] == '.' && i + 1 < n && s[i + 1] == '.' {
            proof {
                assert(rest.subrange(2, rest.len() as int) =~= s@.subrange(i + 2, n as int));
            }
            i = i + 2;
        } else {
            proof {
                assert(rest.drop_first() =~= s@.subrange(i + 1, n as int));
                assert(out@.push(s@[i as int]) + without_dot_pairs(rest.drop_first()) =~= out@ + (
                seq![rest[0]] + without_dot_pairs(rest.drop_first())));
            }
            out.push(s[i]);
            i = i + 1;
        }
    }
    proof {
        assert(s@.subrange(n as int, n as int) =~= Seq::<char>::empty());
        assert(out@ + Seq::<char>::empty() =~= out@);
        assert(s@ =~= path@);
    }
    let mut kept: Vec<char> = Vec::new();
    let mut j: usize = 0;
    while j < out.len()
        invariant
            j <= out.len(),
            kept@ == without_tildes(out@.take(j as int)),
        decreases out.len() - j,
    {
        proof {
            assert(out@.take(j + 1).drop_last() =~= out@.take(j as int));
        }
        if out[j] != '~' {
            kept.push(out[j]);
        }
        j = j + 1;
    }
    proof {
        assert(out@.take(j as int) =~= out@);
    }
    string_from_chars(kept.as_slice())
}

} // verus!
