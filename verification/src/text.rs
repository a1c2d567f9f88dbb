//! Verified text building: decimal renderings of the numbers that appear in
//! command arguments and failure messages.
use vstd::prelude::*;

use crate::model::{dec_rep, digit_char, int_dec};

verus! {

/// Appends the single decimal digit character for `d < 10`.
pub fn push_digit(s: &mut String, d: u64)
    requires
        d < 10,
    ensures
        final(s)@ == old(s)@ + seq![digit_char(d as nat)],
{
    let ghost before = old(s)@;
    if d == 0 {
        s.append("0");
        proof { reveal_strlit("0"); assert(s@ =~= before + seq![digit_char(d as nat)]); }
    } else if d == 1 {
        s.append("1");
        proof { reveal_strlit("1"); assert(s@ =~= before + seq![digit_char(d as nat)]); }
    } else if d == 2 {
        s.append("2");
        proof { reveal_strlit("2"); assert(s@ =~= before + seq![digit_char(d as nat)]); }
    } else if d == 3 {
        s.append("3");
        proof { reveal_strlit("3"); assert(s@ =~= before + seq![digit_char(d as nat)]); }
    } else if d == 4 {
        s.append("4");
        proof { reveal_strlit("4"); assert(s@ =~= before + seq![digit_char(d as nat)]); }
    } else if d == 5 {
        s.append("5");
        proof { reveal_strlit("5"); assert(s@ =~= before + seq![digit_char(d as nat)]); }
    } else if d == 6 {
        s.append("6");
        proof { reveal_strlit("6"); assert(s@ =~= before + seq![digit_char(d as nat)]); }
    } else if d == 7 {
        s.append("7");
        proof { reveal_strlit("7"); assert(s@ =~= before + seq![digit_char(d as nat)]); }
    } else if d == 8 {
        s.append("8");
        proof { reveal_strlit("8"); assert(s@ =~= before + seq![digit_char(d as nat)]); }
    } else {
        s.append("9");
        proof { reveal_strlit("9"); assert(s@ =~= before + seq![digit_char(d as nat)]); }
    }
}

/// Appends the decimal rendering of `n`, most significant digit first.
pub fn push_dec(s: &mut String, n: u64)
    ensures
        final(s)@ == old(s)@ + dec_rep(n as nat),
    decreases n,
{
    let ghost before = old(s)@;
    if n >= 10 {
        push_dec(s, n / 10);
        push_digit(s, n % 10);
        proof {
            assert(s@ =~= before + dec_rep(n as nat)) by {
                assert(dec_rep(n as nat) == dec_rep((n as nat) / 10).push(
                    digit_char((n as nat) % 10),
                ));
                assert(dec_rep((n as nat) / 10).push(digit_char((n as nat) % 10)) =~= dec_rep(
                    (n as nat) / 10,
                ) + seq![digit_char((n as nat) % 10)]);
                assert((n / 10) as nat == (n as nat) / 10);
                assert((n % 10) as nat == (n as nat) % 10);
            }
        }
    } else {
        push_digit(s, n);
    }
}

/// The decimal rendering of `n` as a fresh string.
pub fn dec_string(n: u64) -> (r: String)
    ensures
        r@ == dec_rep(n as nat),
{
    let mut s = String::new();
    push_dec(&mut s, n);
    proof {
        assert(s@ =~= dec_rep(n as nat));
    }
    s
}

/// Appends the decimal rendering of a signed exit code, minus sign included.
pub fn push_i32_dec(s: &mut String, c: i32)
    ensures
        final(s)@ == old(s)@ + int_dec(c as int),
{
    let ghost before = old(s)@;
    if c < 0 {
        s.append("-");
        let wide: i64 = -(c as i64);
        push_dec(s, wide as u64);
        proof {
            reveal_strlit("-");
            assert((wide as u64) as nat == (-(c as int)) as nat);
            assert(s@ =~= before + int_dec(c as int));
        }
    } else {
        push_dec(s, c as u64);
        proof {
            assert((c as u64) as nat == (c as int) as nat);
            assert(s@ =~= before + int_dec(c as int));
        }
    }
}

} // verus!
