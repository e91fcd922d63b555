//! Conversion errors.
//!
//! Every failure is reported to the caller as one of these variants;
//! nothing is retried or recovered internally.

use vstd::prelude::*;
use vstd::string::StringExecFns;

verus! {

/// Why a conversion failed: an unrecognised or unsupported currency
/// code, or a failed fetch in the live-rate strategy.
#[derive(Debug)]
pub enum ConverterError {
    /// The source code names no recognised currency.
    UnknownSource { code: String },
    /// The target code names no recognised currency.
    UnknownTarget { code: String },
    /// The fetched rate table has no entry for the target code.
    UnsupportedTarget { code: String },
    /// The fetch of the live rate table failed; carries the transport
    /// or parse failure text.
    FetchFailed { detail: String },
}

impl ConverterError {
    /// The human-readable description of this error.
    pub open spec fn spec_message(self) -> Seq<char> {
        match self {
            ConverterError::UnknownSource { code } => "Unknown source currency: "@ + code@,
            ConverterError::UnknownTarget { code } => "Unknown target currency: "@ + code@,
            ConverterError::UnsupportedTarget { code } => "Unsupported target currency: "@ + code@,
            ConverterError::FetchFailed { detail } => "Failed to fetch exchange rates: "@
                + detail@,
        }
    }

    /// Render this error as text for the error channel.
    pub fn message(&self) -> (m: String)
        ensures
            m@ == self.spec_message(),
    {
        match self {
            ConverterError::UnknownSource { code } => {
                let mut m = "Unknown source currency: ".to_owned();
                m.append(code.as_str());
                m
            },
            ConverterError::UnknownTarget { code } => {
                let mut m = "Unknown target currency: ".to_owned();
                m.append(code.as_str());
                m
            },
            ConverterError::UnsupportedTarget { code } => {
                let mut m = "Unsupported target currency: ".to_owned();
                m.append(code.as_str());
                m
            },
            ConverterError::FetchFailed { detail } => {
                let mut m = "Failed to fetch exchange rates: ".to_owned();
                m.append(detail.as_str());
                m
            },
        }
    }
}

} // verus!
