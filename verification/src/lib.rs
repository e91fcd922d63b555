//! A small currency converter.
//!
//! Amounts and exchange rates are exact rationals, so conversion
//! arithmetic carries no rounding error; rounding happens only when a
//! value is rendered with a fixed number of decimal places. Two
//! strategies are offered: a static table of fixed factors routed
//! through a base currency, and a live table handed in by the caller
//! (fetched once per invocation from a remote service).

pub mod convert;
pub mod currency;
pub mod error;
pub mod rates;
pub mod ratio;
pub mod render;
