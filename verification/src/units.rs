use vstd::prelude::*;

use crate::json::{decimal, push_decimal_wide};
use crate::text::push_char;

verus! {

/// Two to the power `s`.
pub open spec fn two_to(s: nat) -> nat
    decreases s,
{
    if s == 0 {
        1
    } else {
        2 * two_to((s - 1) as nat)
    }
}

/// `a / d` rounded to the nearest whole number, a tie to the even one.
pub open spec fn half_even_div(a: nat, d: nat) -> nat {
    let q = a / d;
    let r = a % d;
    if 2 * r > d || (2 * r == d && q % 2 == 1) {
        q + 1
    } else {
        q
    }
}

/// How many low bits of `n` a 53-bit significand cannot hold.
pub open spec fn excess_shift(n: nat) -> nat
    decreases n,
{
    if n < 0x20_0000_0000_0000 {
        0
    } else {
        1 + excess_shift(n / 2)
    }
}

/// The value of `n` as a 64-bit float holds it: rounded to 53 significant
/// bits, a tie to an even significand.
pub open spec fn as_double(n: nat) -> nat {
    let d = two_to(excess_shift(n));
    half_even_div(n, d) * d
}

/// The digit character of `d`.
pub open spec fn digit_char(d: nat) -> char {
    (48 + d) as char
}

/// A number of hundredths written with two decimals (`places` 2) or of
/// tenths written with one (`places` 1).
pub open spec fn fixed_text(units: nat, places: nat) -> Seq<char> {
    if places == 1 {
        decimal(units / 10) + "."@ + seq![digit_char(units % 10)]
    } else {
        decimal(units / 100) + "."@ + seq![digit_char((units % 100) / 10), digit_char(units % 10)]
    }
}

/// `a / d` rounded to the nearest whole number, a tie to the even one.
pub fn half_even_div_exec(a: u128, d: u128) -> (r: u128)
    requires
        0 < d < 0x1_0000_0000_0000_0000_0000,
    ensures
        r == half_even_div(a as nat, d as nat),
{
    let q = a / d;
    let rem = a % d;
    if 2 * rem > d || (2 * rem == d && q % 2 == 1) {
        proof {
            assert(q < u128::MAX) by (nonlinear_arith)
                requires
                    q == a / d,
                    d > 1 || 2 * rem > d,
                    rem == a % d,
                    0 < d,
            {
                if d == 1 {
                    assert(rem == 0);
                }
            }
        }
        q + 1
    } else {
        q
    }
}

/// The value of `n` as a 64-bit float holds it.
pub fn as_double_exec(n: u64) -> (r: u128)
    ensures
        r == as_double(n as nat),
{
    let mut m: u128 = n as u128;
    let mut d: u128 = 1;
    let ghost mut s: nat = 0;
    while m >= 0x20_0000_0000_0000
        invariant
            d == two_to(s),
            m == (n as nat) / (d as nat),
            excess_shift(n as nat) == s + excess_shift(m as nat),
            0 < d <= 0x1_0000_0000_0000_0000,
            m * d <= n,
        decreases m,
    {
        proof {
            vstd::arithmetic::div_mod::lemma_div_denominator(n as int, d as int, 2);
            assert(d * 2 <= 0x2000) by (nonlinear_arith)
                requires
                    m >= 0x20_0000_0000_0000,
                    m * d <= n,
                    n <= u64::MAX,
            ;
            assert((m / 2) * (d * 2) <= n) by (nonlinear_arith)
                requires
                    m * d <= n,
                    d > 0,
            ;
        }
        m = m / 2;
        d = d * 2;
        proof { s = s + 1; }
    }
    proof {
        assert(excess_shift(m as nat) == 0);
    }
    let q = half_even_div_exec(n as u128, d);
    proof {
        assert(q * d <= (n as nat) + d) by (nonlinear_arith)
            requires
                q <= (n as nat) / (d as nat) + 1,
                d > 0,
        ;
    }
    q * d
}

/// Writes a number of hundredths with two decimals, or of tenths with one.
pub fn push_fixed(out: &mut String, units: u128, places: u8)
    requires
        places == 1 || places == 2,
    ensures
        final(out)@ == old(out)@ + fixed_text(units as nat, places as nat),
{
    if places == 1 {
        push_decimal_wide(out, units / 10);
        push_char(out, '.');
        push_char(out, ((48 + units % 10) as u8) as char);
        proof {
            assert(((48 + units % 10) as u8) as char == digit_char((units as nat) % 10));
            assert(seq!['.'] =~= "."@) by { reveal_strlit("."); }
        }
    } else {
        push_decimal_wide(out, units / 100);
        push_char(out, '.');
        push_char(out, ((48 + (units % 100) / 10) as u8) as char);
        push_char(out, ((48 + units % 10) as u8) as char);
        proof {
            assert(((48 + (units % 100) / 10) as u8) as char == digit_char(((units as nat) % 100) / 10));
            assert(((48 + units % 10) as u8) as char == digit_char((units as nat) % 10));
            assert(seq!['.'] =~= "."@) by { reveal_strlit("."); }
        }
    }
}

/// A value rounded to a float stays within the rounding step of the
/// value itself.
pub proof fn lemma_as_double_bound(n: nat)
    requires
        n <= u64::MAX,
    ensures
        as_double(n) <= n + 0x2000,
{
    lemma_excess_shift_bound(n);
    let d = two_to(excess_shift(n));
    assert(half_even_div(n, d) <= n / d + 1);
    assert(half_even_div(n, d) * d <= n + d) by (nonlinear_arith)
        requires
            half_even_div(n, d) <= n / d + 1,
            d > 0,
    ;
}

proof fn lemma_excess_shift_bound(n: nat)
    requires
        n <= u64::MAX,
    ensures
        0 < two_to(excess_shift(n)) <= 0x2000,
        n >= 0x20_0000_0000_0000 ==> two_to(excess_shift(n)) * 0x20_0000_0000_0000 <= 2 * n,
        n < 0x20_0000_0000_0000 ==> two_to(excess_shift(n)) == 1,
    decreases n,
{
    if n >= 0x20_0000_0000_0000 {
        lemma_excess_shift_bound(n / 2);
        assert(two_to(excess_shift(n)) == 2 * two_to(excess_shift(n / 2)));
    }
}

} // verus!
