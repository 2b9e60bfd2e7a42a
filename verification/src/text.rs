//! Decimal digit rendering: the one place where numbers become characters.

use vstd::prelude::*;

verus! {

/// The character for one decimal digit.
pub open spec fn digit_char(d: int) -> char {
    if d == 0 {
        '0'
    } else if d == 1 {
        '1'
    } else if d == 2 {
        '2'
    } else if d == 3 {
        '3'
    } else if d == 4 {
        '4'
    } else if d == 5 {
        '5'
    } else if d == 6 {
        '6'
    } else if d == 7 {
        '7'
    } else if d == 8 {
        '8'
    } else {
        '9'
    }
}

/// The usual base-ten text of a non-negative number, no leading zeros
/// (a single zero for the number zero).
pub open spec fn digits_text(n: int) -> Seq<char>
    decreases n,
{
    if n < 10 {
        seq![digit_char(n)]
    } else {
        digits_text(n / 10).push(digit_char(n % 10))
    }
}

/// The lowest `w` base-ten digits of a non-negative number, zero-padded to
/// exactly `w` characters.
pub open spec fn digits_pad(n: int, w: nat) -> Seq<char>
    decreases w,
{
    if w == 0 {
        Seq::empty()
    } else {
        digits_pad(n / 10, (w - 1) as nat).push(digit_char(n % 10))
    }
}

/// The number shifted down by `k` decimal digits.
pub open spec fn div_pow10(n: int, k: nat) -> int
    decreases k,
{
    if k == 0 {
        n
    } else {
        div_pow10(n / 10, (k - 1) as nat)
    }
}

fn digit_str(d: u128) -> (r: &'static str)
    requires
        d < 10,
    ensures
        r@ == seq![digit_char(d as int)],
{
    let r: &'static str = if d == 0 {
        "0"
    } else if d == 1 {
        "1"
    } else if d == 2 {
        "2"
    } else if d == 3 {
        "3"
    } else if d == 4 {
        "4"
    } else if d == 5 {
        "5"
    } else if d == 6 {
        "6"
    } else if d == 7 {
        "7"
    } else if d == 8 {
        "8"
    } else {
        "9"
    };
    proof {
        reveal_strlit("0");
        reveal_strlit("1");
        reveal_strlit("2");
        reveal_strlit("3");
        reveal_strlit("4");
        reveal_strlit("5");
        reveal_strlit("6");
        reveal_strlit("7");
        reveal_strlit("8");
        reveal_strlit("9");
        assert(r@ =~= seq![digit_char(d as int)]);
    }
    r
}

/// Appends the base-ten text of `n`.
pub fn push_digits(out: &mut String, n: u128)
    ensures
        final(out)@ == old(out)@ + digits_text(n as int),
    decreases n,
{
    if n < 10 {
        out.append(digit_str(n));
        proof {
            assert(out@ =~= old(out)@ + digits_text(n as int));
        }
    } else {
        proof {
            vstd::arithmetic::div_mod::lemma_div_decreases(n as int, 10);
            vstd::arithmetic::div_mod::lemma_div_pos_is_pos(n as int, 10);
        }
        push_digits(out, n / 10);
        out.append(digit_str(n % 10));
        proof {
            assert(out@ =~= old(out)@ + digits_text(n as int));
        }
    }
}

/// Appends the lowest `w` digits of `n`, zero-padded to width `w`.
pub fn push_digits_pad(out: &mut String, n: u128, w: u32)
    ensures
        final(out)@ == old(out)@ + digits_pad(n as int, w as nat),
    decreases w,
{
    if w == 0 {
        proof {
            assert(out@ =~= old(out)@ + digits_pad(n as int, 0));
        }
    } else {
        push_digits_pad(out, n / 10, w - 1);
        out.append(digit_str(n % 10));
        proof {
            assert(out@ =~= old(out)@ + digits_pad(n as int, w as nat));
        }
    }
}

/// `n` shifted down by `k` decimal digits.
pub fn div_pow10_e(n: u128, k: u32) -> (r: u128)
    ensures
        r as int == div_pow10(n as int, k as nat),
        r <= n,
    decreases k,
{
    if k == 0 {
        n
    } else {
        proof {
            vstd::arithmetic::div_mod::lemma_div_is_ordered_by_denominator(n as int, 1, 10);
            vstd::arithmetic::div_mod::lemma_div_basics_1(n as int);
        }
        div_pow10_e(n / 10, k - 1)
    }
}

/// Appends the base-ten text of a line number.
pub fn push_u32(out: &mut String, n: u32)
    ensures
        final(out)@ == old(out)@ + digits_text(n as int),
{
    push_digits(out, n as u128);
}

} // verus!
