//! Numbers as report text.
use vstd::prelude::*;
use crate::types::{Similarity, decimal, decimal_text};

verus! {

pub open spec fn pow10(d: nat) -> nat
    decreases d,
{
    if d == 0 {
        1
    } else {
        10 * pow10((d - 1) as nat)
    }
}

/// The similarity in units of `1 / 10^d` percent, rounded half up; 100%
/// when the total is 0.
pub open spec fn scaled_percent(s: Similarity, d: nat) -> nat {
    if s.total == 0 {
        100 * pow10(d)
    } else {
        ((2 * s.unchanged * 100 * pow10(d) + s.total) / (2 * s.total)) as nat
    }
}

/// `digits` with leading zeros up to `width` characters.
pub open spec fn zero_padded(digits: Seq<char>, width: nat) -> Seq<char> {
    if digits.len() >= width {
        digits
    } else {
        Seq::new((width - digits.len()) as nat, |i: int| '0') + digits
    }
}

/// The similarity as a percentage with `d` decimals (`d` is 1 or 2).
pub open spec fn percent_text(s: Similarity, d: nat) -> Seq<char> {
    let v = scaled_percent(s, d);
    decimal(v / pow10(d)) + seq!['.'] + zero_padded(decimal(v % pow10(d)), d)
}

/// Formats the similarity with `decimals` decimals, rounding half up.
pub fn format_percent(s: Similarity, decimals: u32) -> (r: String)
    requires
        1 <= decimals <= 2,
    ensures
        r@ == percent_text(s, decimals as nat),
{
    let scale: u128 = if decimals == 1 {
        10
    } else {
        100
    };
    proof {
        reveal_with_fuel(pow10, 3);
    }
    assert(scale == pow10(decimals as nat));
    let v: u128 = if s.total == 0 {
        100 * scale
    } else {
        let u = s.unchanged as u128;
        let t = s.total as u128;
        assert(2 * u * 100 * scale + t <= 2 * 0xffff_ffff_ffff_ffffu128 * 100 * 100
            + 0xffff_ffff_ffff_ffffu128) by (nonlinear_arith)
            requires
                u <= 0xffff_ffff_ffff_ffffu128,
                t <= 0xffff_ffff_ffff_ffffu128,
                scale <= 100,
        ;
        (2 * u * 100 * scale + t) / (2 * t)
    };
    let whole = decimal_text(v / scale);
    let frac = v % scale;
    let mut out = whole;
    out.append(".");
    proof {
        reveal_strlit(".");
    }
    if decimals == 2 && frac < 10 {
        out.append("0");
        proof {
            reveal_strlit("0");
        }
    }
    let frac_text = decimal_text(frac);
    out.append(frac_text.as_str());
    proof {
        let dd = decimals as nat;
        let fd = decimal(frac as nat);
        if frac < 10 {
            assert(fd.len() == 1);
        } else {
            assert(fd =~= decimal(frac as nat / 10).push(crate::types::digit_char(frac as nat % 10)));
            assert(frac / 10 < 10);
            assert(fd.len() == 2);
        }
        if dd == 2 && frac < 10 {
            assert(Seq::new((dd - fd.len()) as nat, |i: int| '0') =~= seq!['0']);
        }
        assert(out@ =~= percent_text(s, dd));
    }
    out
}

} // verus!
