//! Live-rate conversion.
//!
//! The live-rate strategy fetches a rate table once per invocation from
//! a remote service keyed by the source currency, then looks the target
//! currency up in it. The fetch itself is I/O and happens outside this
//! library; its outcome — the parsed table, or the transport/parse
//! failure text — is handed in, and everything from there on is
//! computed here.

use vstd::prelude::*;

use crate::convert::AMOUNT_LIMIT;
use crate::currency::{ci_same, str_ci_eq};
use crate::error::ConverterError;
use crate::ratio::Ratio;

verus! {

/// One row of a rate table: a currency code and the factor (units of
/// that currency per one unit of the table's base).
pub struct RateEntry {
    pub code: String,
    pub rate: Ratio,
}

/// A rate table fetched from a remote service: the base currency it is
/// keyed by, the quote date it reports, and the per-currency factors.
pub struct RateTable {
    pub base: String,
    pub date: String,
    pub rates: Vec<RateEntry>,
}

impl RateTable {
    /// Every rate is well formed and small enough that conversion
    /// products stay inside `i128`.
    pub open spec fn bounded(self) -> bool {
        forall|i: int|
            0 <= i < self.rates@.len() ==> {
                let rate = (#[trigger] self.rates@[i]).rate;
                &&& rate.wf()
                &&& -AMOUNT_LIMIT <= rate.num <= AMOUNT_LIMIT
                &&& rate.den <= AMOUNT_LIMIT
            }
    }
}

/// The first entry whose code matches `key` ignoring ASCII case.
pub open spec fn spec_lookup(entries: Seq<RateEntry>, key: Seq<char>) -> Option<RateEntry>
    decreases entries.len(),
{
    if entries.len() == 0 {
        None
    } else if ci_same(entries[0].code@, key) {
        Some(entries[0])
    } else {
        spec_lookup(entries.drop_first(), key)
    }
}

/// An entry that `spec_lookup` finds stands in the sequence.
pub proof fn lemma_lookup_is_entry(entries: Seq<RateEntry>, key: Seq<char>)
    ensures
        spec_lookup(entries, key) matches Some(e) ==> exists|i: int|
            0 <= i < entries.len() && entries[i] == e,
    decreases entries.len(),
{
    if entries.len() > 0 && !ci_same(entries[0].code@, key) {
        lemma_lookup_is_entry(entries.drop_first(), key);
        if spec_lookup(entries, key) is Some {
            let e = spec_lookup(entries, key)->Some_0;
            let j = choose|j: int|
                0 <= j < entries.drop_first().len() && entries.drop_first()[j] == e;
            assert(entries[j + 1] == e);
        }
    }
}

/// The rate for `code` in the table, read ignoring ASCII case; `None`
/// when no entry carries that code.
pub fn lookup_rate(table: &RateTable, code: &str) -> (r: Option<Ratio>)
    ensures
        spec_lookup(table.rates@, code@) matches Some(e) ==> r == Some(e.rate),
        spec_lookup(table.rates@, code@) is None ==> r is None,
{
    let n = table.rates.len();
    let mut i: usize = 0;
    assert(table.rates@.skip(0) =~= table.rates@);
    while i < n
        invariant
            i <= n,
            n == table.rates@.len(),
            spec_lookup(table.rates@, code@) == spec_lookup(table.rates@.skip(i as int), code@),
        decreases n - i,
    {
        if str_ci_eq(table.rates[i].code.as_str(), code) {
            assert(table.rates@.skip(i as int)[0] == table.rates@[i as int]);
            assert(spec_lookup(table.rates@.skip(i as int), code@) == Some(table.rates@[i as int]));
            return Some(table.rates[i].rate);
        }
        assert(table.rates@.skip(i as int)[0] == table.rates@[i as int]);
        assert(table.rates@.skip(i as int).drop_first() =~= table.rates@.skip(i as int + 1));
        i += 1;
    }
    assert(table.rates@.skip(n as int).len() == 0);
    None
}

/// Convert `amount` with a fetched rate table: multiply by the factor
/// the table carries for the target code, read ignoring ASCII case. A
/// target absent from the table is reported as unsupported.
pub fn convert_with_table(amount: Ratio, table: &RateTable, to: &str) -> (r: Result<
    Ratio,
    ConverterError,
>)
    requires
        amount.wf(),
        -AMOUNT_LIMIT <= amount.num <= AMOUNT_LIMIT,
        amount.den <= AMOUNT_LIMIT,
        table.bounded(),
    ensures
        r is Ok <==> spec_lookup(table.rates@, to@) is Some,
        spec_lookup(table.rates@, to@) matches Some(e) ==> (r matches Ok(out) && out.wf()
            && out.num == amount.num as int * e.rate.num as int && out.den == amount.den as int
            * e.rate.den as int),
        spec_lookup(table.rates@, to@) is None ==> (r matches Err(
            ConverterError::UnsupportedTarget { code },
        ) && code@ == to@),
{
    proof {
        lemma_lookup_is_entry(table.rates@, to@);
    }
    match lookup_rate(table, to) {
        Some(rate) => {
            proof {
                lemma_rate_products_fit(amount, rate);
            }
            let num = amount.num * rate.num;
            let den = amount.den * rate.den;
            Ok(Ratio::new(num, den))
        },
        None => Err(ConverterError::UnsupportedTarget { code: to.to_owned() }),
    }
}

/// The products a table conversion forms stay inside `i128`.
proof fn lemma_rate_products_fit(amount: Ratio, rate: Ratio)
    by (nonlinear_arith)
    requires
        amount.wf(),
        rate.wf(),
        -AMOUNT_LIMIT <= amount.num <= AMOUNT_LIMIT,
        amount.den <= AMOUNT_LIMIT,
        -AMOUNT_LIMIT <= rate.num <= AMOUNT_LIMIT,
        rate.den <= AMOUNT_LIMIT,
    ensures
        -(AMOUNT_LIMIT as int * AMOUNT_LIMIT as int) <= amount.num as int * rate.num as int <= (
        AMOUNT_LIMIT as int * AMOUNT_LIMIT as int),
        0 < amount.den as int * rate.den as int <= (AMOUNT_LIMIT as int * AMOUNT_LIMIT as int),
{
}

/// Convert `amount` with the outcome of the one fetch the live-rate
/// strategy performs: on a fetched table, a table conversion; on a
/// failed fetch, the failure text is surfaced as a fetch error.
pub fn convert_live(amount: Ratio, fetched: Result<RateTable, String>, to: &str) -> (r: Result<
    Ratio,
    ConverterError,
>)
    requires
        amount.wf(),
        -AMOUNT_LIMIT <= amount.num <= AMOUNT_LIMIT,
        amount.den <= AMOUNT_LIMIT,
        fetched matches Ok(t) ==> t.bounded(),
    ensures
        fetched matches Err(d) ==> (r matches Err(ConverterError::FetchFailed { detail })
            && detail@ == d@),
        fetched matches Ok(t) ==> {
            &&& r is Ok <==> spec_lookup(t.rates@, to@) is Some
            &&& (spec_lookup(t.rates@, to@) matches Some(e) ==> (r matches Ok(out) && out.wf()
                && out.num == amount.num as int * e.rate.num as int && out.den == amount.den as int
                * e.rate.den as int))
            &&& (spec_lookup(t.rates@, to@) is None ==> (r matches Err(
                ConverterError::UnsupportedTarget { code },
            ) && code@ == to@))
        },
{
    match fetched {
        Ok(table) => convert_with_table(amount, &table, to),
        Err(detail) => Err(ConverterError::FetchFailed { detail }),
    }
}

} // verus!
