//! Currency codes.
//!
//! A currency code is a short ASCII identifier such as `EUR`; input is
//! case-insensitive, so `try` and `TRY` name the same currency. Parsing
//! is specified through [`up_code`], the ASCII upper-casing of one code
//! point, and [`ci_same`], case-insensitive equality of two sequences.

use vstd::prelude::*;

verus! {

/// The currencies the static-rate table recognises.
#[derive(Clone, Copy, PartialEq, Eq, Structural, Debug)]
pub enum Currency {
    Eur,
    Try,
    Uah,
}

/// The code point of `c` with an ASCII lower-case letter raised to upper case.
pub open spec fn up_code(c: char) -> int {
    if 97 <= c as int <= 122 {
        c as int - 32
    } else {
        c as int
    }
}

/// `a` and `b` are the same text ignoring ASCII case.
pub open spec fn ci_same(a: Seq<char>, b: Seq<char>) -> bool {
    a.len() == b.len() && (forall|i: int| 0 <= i < a.len() ==> up_code(a[i]) == up_code(b[i]))
}

pub open spec fn eur_code() -> Seq<char> {
    seq!['E', 'U', 'R']
}

pub open spec fn try_code() -> Seq<char> {
    seq!['T', 'R', 'Y']
}

pub open spec fn uah_code() -> Seq<char> {
    seq!['U', 'A', 'H']
}

/// Which currency a code names, ignoring ASCII case; `None` for an
/// unrecognised code.
pub open spec fn spec_parse_currency(s: Seq<char>) -> Option<Currency> {
    if ci_same(s, eur_code()) {
        Some(Currency::Eur)
    } else if ci_same(s, try_code()) {
        Some(Currency::Try)
    } else if ci_same(s, uah_code()) {
        Some(Currency::Uah)
    } else {
        None
    }
}

/// `c` equals the upper-case ASCII letter `up`, ignoring the case of `c`.
fn char_ci_eq(c: char, up: char) -> (r: bool)
    requires
        65 <= up as int <= 90,
    ensures
        r == (up_code(c) == up as int),
{
    c == up || c as u32 == up as u32 + 32
}

/// The code point of `c`, upper-cased when `c` is an ASCII lower-case letter.
fn up_val(c: char) -> (v: u32)
    ensures
        v as int == up_code(c),
{
    let x = c as u32;
    if 97 <= x && x <= 122 {
        x - 32
    } else {
        x
    }
}

/// `a` and `b` are the same text ignoring ASCII case.
pub fn str_ci_eq(a: &str, b: &str) -> (r: bool)
    ensures
        r == ci_same(a@, b@),
{
    let n = a.unicode_len();
    if n != b.unicode_len() {
        return false;
    }
    let mut i: usize = 0;
    while i < n
        invariant
            i <= n,
            n == a@.len(),
            n == b@.len(),
            forall|j: int| 0 <= j < i ==> up_code(a@[j]) == up_code(b@[j]),
        decreases n - i,
    {
        let ca = a.get_char(i);
        let cb = b.get_char(i);
        if up_val(ca) != up_val(cb) {
            return false;
        }
        i += 1;
    }
    true
}

/// Parse a currency code, ignoring ASCII case.
pub fn parse_currency(s: &str) -> (r: Option<Currency>)
    ensures
        r == spec_parse_currency(s@),
{
    let n = s.unicode_len();
    if n != 3 {
        return None;
    }
    let c0 = s.get_char(0);
    let c1 = s.get_char(1);
    let c2 = s.get_char(2);
    if char_ci_eq(c0, 'E') && char_ci_eq(c1, 'U') && char_ci_eq(c2, 'R') {
        assert(ci_same(s@, eur_code()));
        Some(Currency::Eur)
    } else if char_ci_eq(c0, 'T') && char_ci_eq(c1, 'R') && char_ci_eq(c2, 'Y') {
        assert(ci_same(s@, try_code()));
        Some(Currency::Try)
    } else if char_ci_eq(c0, 'U') && char_ci_eq(c1, 'A') && char_ci_eq(c2, 'H') {
        assert(ci_same(s@, uah_code()));
        Some(Currency::Uah)
    } else {
        None
    }
}

/// The display colour chosen for a currency code: each recognised
/// currency has a fixed bright colour; an unrecognised code is shown
/// unstyled.
#[derive(Clone, Copy, PartialEq, Eq, Structural, Debug)]
pub enum CurrencyColor {
    BrightBlue,
    BrightRed,
    BrightYellow,
    Plain,
}

/// Which colour a currency code is shown in.
pub open spec fn spec_currency_color(s: Seq<char>) -> CurrencyColor {
    match spec_parse_currency(s) {
        Some(Currency::Eur) => CurrencyColor::BrightBlue,
        Some(Currency::Try) => CurrencyColor::BrightRed,
        Some(Currency::Uah) => CurrencyColor::BrightYellow,
        None => CurrencyColor::Plain,
    }
}

/// The display colour for a currency code, read ignoring ASCII case.
pub fn get_currency_color(currency: &str) -> (c: CurrencyColor)
    ensures
        c == spec_currency_color(currency@),
{
    match parse_currency(currency) {
        Some(Currency::Eur) => CurrencyColor::BrightBlue,
        Some(Currency::Try) => CurrencyColor::BrightRed,
        Some(Currency::Uah) => CurrencyColor::BrightYellow,
        None => CurrencyColor::Plain,
    }
}

/// Parsing is case-insensitive: two codes that agree up to ASCII case
/// parse to the same currency.
pub proof fn lemma_parse_case_insensitive(a: Seq<char>, b: Seq<char>)
    requires
        ci_same(a, b),
    ensures
        spec_parse_currency(a) == spec_parse_currency(b),
{
    assert forall|code: Seq<char>| ci_same(a, code) == ci_same(b, code) by {
        if ci_same(a, code) {
            assert forall|i: int| 0 <= i < b.len() implies up_code(b[i]) == up_code(code[i]) by {
                assert(up_code(a[i]) == up_code(b[i]));
            }
        }
        if ci_same(b, code) {
            assert forall|i: int| 0 <= i < a.len() implies up_code(a[i]) == up_code(code[i]) by {
                assert(up_code(a[i]) == up_code(b[i]));
            }
        }
    }
}

} // verus!
