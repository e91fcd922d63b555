//! Static-rate conversion.
//!
//! Every conversion routes through the base currency (EUR): the amount
//! is divided by the source currency's factor and multiplied by the
//! target currency's factor, both fixed constants. The arithmetic is
//! exact rational arithmetic; no rounding happens here.

use vstd::prelude::*;

use crate::currency::{spec_parse_currency, Currency};
use crate::error::ConverterError;
use crate::ratio::{same_value, Ratio};

verus! {

/// Bound on the numerator magnitude and denominator of an amount, so
/// that the products a conversion forms stay inside `i128`.
pub const AMOUNT_LIMIT: i128 = 1_000_000_000_000_000_000;

/// Numerator of the fixed factor: units of `c` per one euro.
/// Illustrative placeholder rates, not live market data.
pub open spec fn rate_num(c: Currency) -> int {
    match c {
        Currency::Eur => 1,
        Currency::Try => 385,
        Currency::Uah => 402,
    }
}

/// Denominator of the fixed factor: units of `c` per one euro.
pub open spec fn rate_den(c: Currency) -> int {
    match c {
        Currency::Eur => 1,
        Currency::Try => 10,
        Currency::Uah => 10,
    }
}

/// The fixed factor for `c`: units of `c` per one euro.
/// Illustrative placeholder rates (one euro is 38.5 TRY, 40.2 UAH),
/// not live market data.
pub fn rate_factor(c: Currency) -> (r: Ratio)
    ensures
        r.num == rate_num(c),
        r.den == rate_den(c),
        r.num > 0,
        r.wf(),
{
    match c {
        Currency::Eur => Ratio::new(1, 1),
        Currency::Try => Ratio::new(385, 10),
        Currency::Uah => Ratio::new(402, 10),
    }
}

/// Numerator of the amount `num / den` converted from `from` to `to`.
pub open spec fn converted_num(num: int, from: Currency, to: Currency) -> int {
    num * rate_num(to) * rate_den(from)
}

/// Denominator of the amount `num / den` converted from `from` to `to`.
pub open spec fn converted_den(den: int, from: Currency, to: Currency) -> int {
    den * rate_den(to) * rate_num(from)
}

/// `-(m * k) <= a * b <= m * k` when `|a| <= m` and `0 <= b <= k`.
proof fn lemma_mul_bound(a: int, b: int, m: int, k: int)
    by (nonlinear_arith)
    requires
        -m <= a <= m,
        0 <= b <= k,
    ensures
        -(m * k) <= a * b <= m * k,
{
}

/// A product of positives is positive.
proof fn lemma_mul_pos(a: int, b: int)
    by (nonlinear_arith)
    requires
        a > 0,
        b > 0,
    ensures
        a * b > 0,
{
}

/// Convert `amount` from the currency coded `from` to the one coded `to`,
/// routing through the base currency. Codes are read ignoring ASCII case;
/// an unrecognised code is reported as an error naming it.
pub fn convert_currency(amount: Ratio, from: &str, to: &str) -> (r: Result<
    Ratio,
    ConverterError,
>)
    requires
        amount.wf(),
        -AMOUNT_LIMIT <= amount.num <= AMOUNT_LIMIT,
        amount.den <= AMOUNT_LIMIT,
    ensures
        r is Ok <==> (spec_parse_currency(from@) is Some && spec_parse_currency(to@) is Some),
        spec_parse_currency(from@) matches Some(f) ==> spec_parse_currency(to@) matches Some(t)
            ==> (r matches Ok(out) && out.wf() && out.num == converted_num(amount.num as int, f, t)
            && out.den == converted_den(amount.den as int, f, t)),
        spec_parse_currency(from@) is None ==> (r matches Err(
            ConverterError::UnknownSource { code },
        ) && code@ == from@),
        (spec_parse_currency(from@) is Some && spec_parse_currency(to@) is None) ==> (r matches Err(
            ConverterError::UnknownTarget { code },
        ) && code@ == to@),
{
    let from_currency = match crate::currency::parse_currency(from) {
        Some(c) => c,
        None => {
            return Err(ConverterError::UnknownSource { code: from.to_owned() });
        },
    };
    let to_currency = match crate::currency::parse_currency(to) {
        Some(c) => c,
        None => {
            return Err(ConverterError::UnknownTarget { code: to.to_owned() });
        },
    };
    let from_factor = rate_factor(from_currency);
    let to_factor = rate_factor(to_currency);
    proof {
        lemma_mul_bound(amount.num as int, to_factor.num as int, AMOUNT_LIMIT as int, 402);
        lemma_mul_bound(
            amount.num as int * to_factor.num as int,
            from_factor.den as int,
            AMOUNT_LIMIT as int * 402,
            10,
        );
        lemma_mul_bound(amount.den as int, to_factor.den as int, AMOUNT_LIMIT as int, 10);
        lemma_mul_bound(
            amount.den as int * to_factor.den as int,
            from_factor.num as int,
            AMOUNT_LIMIT as int * 10,
            402,
        );
        lemma_mul_pos(amount.den as int, to_factor.den as int);
        lemma_mul_pos(amount.den as int * to_factor.den as int, from_factor.num as int);
    }
    let num = amount.num * to_factor.num * from_factor.den;
    let den = amount.den * to_factor.den * from_factor.num;
    Ok(Ratio::new(num, den))
}

/// Converting from `a` to `b` and the result back from `b` to `a`
/// returns exactly the original value: the two conversions scale the
/// numerator and the denominator by the same product of factors.
pub proof fn lemma_round_trip(num: int, den: int, a: Currency, b: Currency)
    ensures
        same_value(
            converted_num(converted_num(num, a, b), b, a),
            converted_den(converted_den(den, a, b), b, a),
            num,
            den,
        ),
{
    let nb = rate_num(b);
    let db = rate_den(b);
    let na = rate_num(a);
    let da = rate_den(a);
    assert((num * nb * da * na * db) * den == num * (den * db * na * da * nb))
        by (nonlinear_arith);
}

/// Converting a currency to itself returns exactly the input value:
/// numerator and denominator are both scaled by the same factor.
pub proof fn lemma_convert_identity(num: int, den: int, c: Currency)
    ensures
        same_value(converted_num(num, c, c), converted_den(den, c, c), num, den),
{
    let n = rate_num(c);
    let d = rate_den(c);
    assert((num * n * d) * den == num * (den * d * n)) by (nonlinear_arith);
}

} // verus!
