//! Fixed-decimal rendering.
//!
//! Conversion arithmetic is exact; rounding happens only here, when a
//! rational value is rendered with a fixed number of decimal places.
//! Values are rounded to the nearest representable decimal, halves away
//! from zero.

use vstd::prelude::*;
use vstd::string::StringExecFns;

use crate::ratio::{same_value, Ratio};

verus! {

/// The magnitude of `x`.
pub open spec fn abs_val(x: int) -> int {
    if x >= 0 {
        x
    } else {
        -x
    }
}

/// `num / den` scaled by `scale` and rounded to the nearest integer,
/// halves away from zero.
pub open spec fn spec_scaled(num: int, den: int, scale: int) -> int {
    if num >= 0 {
        (2 * num * scale + den) / (2 * den)
    } else {
        -((2 * (-num) * scale + den) / (2 * den))
    }
}

/// The decimal digit character for `d`.
pub open spec fn digit_char(d: int) -> char {
    if d == 0 {
        '0'
    } else if d == 1 {
        '1'
    } else if d == 2 {
        '2'
    } else if d == 3 {
        '3'
    } else if d == 4 {
        '4'
    } else if d == 5 {
        '5'
    } else if d == 6 {
        '6'
    } else if d == 7 {
        '7'
    } else if d == 8 {
        '8'
    } else {
        '9'
    }
}

/// The decimal digits of `n`, most significant first.
pub open spec fn dec_digits(n: nat) -> Seq<char>
    decreases n,
{
    if n < 10 {
        seq![digit_char(n as int)]
    } else {
        dec_digits(n / 10) + seq![digit_char((n % 10) as int)]
    }
}

/// The text of `num / den` rounded to two decimal places: an optional
/// minus sign, the whole part, a point, and two fraction digits.
pub open spec fn spec_fixed2(num: int, den: int) -> Seq<char> {
    let v = spec_scaled(num, den, 100);
    let m = abs_val(v);
    (if v < 0 {
        seq!['-']
    } else {
        Seq::<char>::empty()
    }) + dec_digits((m / 100) as nat) + seq!['.', digit_char((m / 10) % 10), digit_char(m % 10)]
}

/// The text of `num / den` rounded to four decimal places.
pub open spec fn spec_fixed4(num: int, den: int) -> Seq<char> {
    let v = spec_scaled(num, den, 10000);
    let m = abs_val(v);
    (if v < 0 {
        seq!['-']
    } else {
        Seq::<char>::empty()
    }) + dec_digits((m / 10000) as nat) + seq![
        '.',
        digit_char((m / 1000) % 10),
        digit_char((m / 100) % 10),
        digit_char((m / 10) % 10),
        digit_char(m % 10),
    ]
}

/// `a * b >= a` when `a >= 0` and `b >= 1`.
proof fn lemma_mul_grows(a: int, b: int)
    by (nonlinear_arith)
    requires
        a >= 0,
        b >= 1,
    ensures
        a * b >= a,
        a * b >= 0,
{
}

/// The scaled rounded value fits under its own numerator.
proof fn lemma_div_shrinks(a: int, b: int)
    by (nonlinear_arith)
    requires
        a >= 0,
        b > 0,
    ensures
        0 <= a / b <= a,
{
}

/// `num / den` scaled by `scale` and rounded to the nearest integer,
/// halves away from zero.
pub fn scaled_value(r: &Ratio, scale: u128) -> (v: i128)
    requires
        r.wf(),
        1 <= scale,
        2 * abs_val(r.num as int) * scale + r.den <= i128::MAX,
        2 * r.den <= i128::MAX,
    ensures
        v == spec_scaled(r.num as int, r.den as int, scale as int),
        -i128::MAX <= v <= i128::MAX,
{
    let neg = r.num < 0;
    proof {
        lemma_mul_grows(2 * abs_val(r.num as int), scale as int);
    }
    let m: u128 = if neg {
        (-r.num) as u128
    } else {
        r.num as u128
    };
    let den: u128 = r.den as u128;
    let q: u128 = (2 * m * scale + den) / (2 * den);
    proof {
        lemma_div_shrinks((2 * m * scale + den) as int, (2 * den) as int);
    }
    if neg {
        -(q as i128)
    } else {
        q as i128
    }
}

/// Append the decimal digit character for `d`.
fn append_digit(s: &mut String, d: u128)
    requires
        d < 10,
    ensures
        final(s)@ == old(s)@ + seq![digit_char(d as int)],
{
    if d == 0 {
        s.append("0");
        proof {
            reveal_strlit("0");
            assert("0"@ =~= seq![digit_char(0)]);
        }
    } else if d == 1 {
        s.append("1");
        proof {
            reveal_strlit("1");
            assert("1"@ =~= seq![digit_char(1)]);
        }
    } else if d == 2 {
        s.append("2");
        proof {
            reveal_strlit("2");
            assert("2"@ =~= seq![digit_char(2)]);
        }
    } else if d == 3 {
        s.append("3");
        proof {
            reveal_strlit("3");
            assert("3"@ =~= seq![digit_char(3)]);
        }
    } else if d == 4 {
        s.append("4");
        proof {
            reveal_strlit("4");
            assert("4"@ =~= seq![digit_char(4)]);
        }
    } else if d == 5 {
        s.append("5");
        proof {
            reveal_strlit("5");
            assert("5"@ =~= seq![digit_char(5)]);
        }
    } else if d == 6 {
        s.append("6");
        proof {
            reveal_strlit("6");
            assert("6"@ =~= seq![digit_char(6)]);
        }
    } else if d == 7 {
        s.append("7");
        proof {
            reveal_strlit("7");
            assert("7"@ =~= seq![digit_char(7)]);
        }
    } else if d == 8 {
        s.append("8");
        proof {
            reveal_strlit("8");
            assert("8"@ =~= seq![digit_char(8)]);
        }
    } else {
        s.append("9");
        proof {
            reveal_strlit("9");
            assert("9"@ =~= seq![digit_char(9)]);
        }
    }
}

/// Append the decimal digits of `n`, most significant first.
fn append_dec_digits(s: &mut String, n: u128)
    ensures
        final(s)@ == old(s)@ + dec_digits(n as nat),
    decreases n,
{
    if n < 10 {
        append_digit(s, n);
    } else {
        append_dec_digits(s, n / 10);
        append_digit(s, n % 10);
        proof {
            assert(s@ =~= old(s)@ + dec_digits(n as nat));
        }
    }
}

/// Render `r` with two decimal places, rounding to the nearest
/// hundredth, halves away from zero.
pub fn format_fixed2(r: &Ratio) -> (s: String)
    requires
        r.wf(),
        2 * abs_val(r.num as int) * 100 + r.den <= i128::MAX,
        2 * r.den <= i128::MAX,
    ensures
        s@ == spec_fixed2(r.num as int, r.den as int),
{
    let v = scaled_value(r, 100);
    let m: u128 = if v < 0 {
        (-v) as u128
    } else {
        v as u128
    };
    let mut s = String::new();
    if v < 0 {
        s.append("-");
        proof {
            reveal_strlit("-");
            assert("-"@ =~= seq!['-']);
        }
    }
    append_dec_digits(&mut s, m / 100);
    s.append(".");
    proof {
        reveal_strlit(".");
        assert("."@ =~= seq!['.']);
    }
    append_digit(&mut s, (m / 10) % 10);
    append_digit(&mut s, m % 10);
    proof {
        assert(s@ =~= spec_fixed2(r.num as int, r.den as int));
    }
    s
}

/// Render `r` with four decimal places, rounding to the nearest
/// ten-thousandth, halves away from zero.
pub fn format_fixed4(r: &Ratio) -> (s: String)
    requires
        r.wf(),
        2 * abs_val(r.num as int) * 10000 + r.den <= i128::MAX,
        2 * r.den <= i128::MAX,
    ensures
        s@ == spec_fixed4(r.num as int, r.den as int),
{
    let v = scaled_value(r, 10000);
    let m: u128 = if v < 0 {
        (-v) as u128
    } else {
        v as u128
    };
    let mut s = String::new();
    if v < 0 {
        s.append("-");
        proof {
            reveal_strlit("-");
            assert("-"@ =~= seq!['-']);
        }
    }
    append_dec_digits(&mut s, m / 10000);
    s.append(".");
    proof {
        reveal_strlit(".");
        assert("."@ =~= seq!['.']);
    }
    append_digit(&mut s, (m / 1000) % 10);
    append_digit(&mut s, (m / 100) % 10);
    append_digit(&mut s, (m / 10) % 10);
    append_digit(&mut s, m % 10);
    proof {
        assert(s@ =~= spec_fixed4(r.num as int, r.den as int));
    }
    s
}

/// The effective unit exchange rate of a conversion: `result / amount`,
/// as a well-formed ratio. `None` when the amount is zero, where no
/// unit rate exists.
pub fn unit_rate(amount: &Ratio, result: &Ratio) -> (r: Option<Ratio>)
    requires
        amount.wf(),
        result.wf(),
        -crate::convert::AMOUNT_LIMIT <= amount.num <= crate::convert::AMOUNT_LIMIT,
        amount.den <= crate::convert::AMOUNT_LIMIT,
        -crate::convert::AMOUNT_LIMIT <= result.num <= crate::convert::AMOUNT_LIMIT,
        result.den <= crate::convert::AMOUNT_LIMIT,
    ensures
        r is None <==> amount.num == 0,
        r matches Some(rate) ==> rate.wf() && same_value(
            rate.num as int,
            rate.den as int,
            result.num as int * amount.den as int,
            result.den as int * amount.num as int,
        ),
{
    if amount.num == 0 {
        return None;
    }
    proof {
        lemma_unit_rate_fits(amount, result);
    }
    let num = result.num * amount.den;
    let den = result.den * amount.num;
    if den < 0 {
        proof {
            assert((-num) as int * den as int == num as int * (-den) as int) by (nonlinear_arith);
        }
        Some(Ratio::new(-num, -den))
    } else {
        Some(Ratio::new(num, den))
    }
}

/// The products a unit-rate computation forms stay inside `i128`, and
/// the denominator product is not zero.
proof fn lemma_unit_rate_fits(amount: &Ratio, result: &Ratio)
    by (nonlinear_arith)
    requires
        amount.wf(),
        result.wf(),
        amount.num != 0,
        -crate::convert::AMOUNT_LIMIT <= amount.num <= crate::convert::AMOUNT_LIMIT,
        amount.den <= crate::convert::AMOUNT_LIMIT,
        -crate::convert::AMOUNT_LIMIT <= result.num <= crate::convert::AMOUNT_LIMIT,
        result.den <= crate::convert::AMOUNT_LIMIT,
    ensures
        -(crate::convert::AMOUNT_LIMIT as int * crate::convert::AMOUNT_LIMIT as int)
            <= result.num as int * amount.den as int <= crate::convert::AMOUNT_LIMIT as int
            * crate::convert::AMOUNT_LIMIT as int,
        -(crate::convert::AMOUNT_LIMIT as int * crate::convert::AMOUNT_LIMIT as int)
            <= result.den as int * amount.num as int <= crate::convert::AMOUNT_LIMIT as int
            * crate::convert::AMOUNT_LIMIT as int,
        result.den as int * amount.num as int != 0,
{
}

} // verus!
