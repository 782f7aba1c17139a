//! The closed error taxonomy of a fetch.
//!
//! Every failure a caller can observe is one of these four kinds;
//! engine-library errors are wrapped into `BrowserError` or `Timeout`
//! with the underlying cause's message, never re-raised raw.

use vstd::prelude::*;
use vstd::string::StringExecFns;

verus! {

/// What can go wrong while fetching and extracting an article.
#[derive(Debug, Clone)]
pub enum AppError {
    /// The URL does not carry the required article prefix; detected
    /// before any engine work.
    InvalidUrl(String),
    /// The rendering engine failed to configure, launch, open,
    /// serialize or close.
    BrowserError(String),
    /// The awaited content container never appeared within the bound.
    Timeout(String),
    /// Reserved for extraction-stage failures; extraction is total, so
    /// normal operation never raises it.
    ParseError(String),
}

/// The human-readable message of each error kind.
pub open spec fn message_text(e: AppError) -> Seq<char> {
    match e {
        AppError::InvalidUrl(s) => "Invalid URL format: "@ + s@
            + ". Must be https://mp.weixin.qq.com/s/xxx"@,
        AppError::BrowserError(s) => "Browser error: "@ + s@,
        AppError::Timeout(s) => "Page load timeout: "@ + s@,
        AppError::ParseError(s) => "Parse error: "@ + s@,
    }
}

impl AppError {
    /// The human-readable message reported to the caller.
    pub fn message(&self) -> (r: String)
        ensures
            r@ == message_text(*self),
    {
        match self {
            AppError::InvalidUrl(s) => {
                let mut m = String::from_str("Invalid URL format: ");
                m.append(s.as_str());
                m.append(". Must be https://mp.weixin.qq.com/s/xxx");
                m
            },
            AppError::BrowserError(s) => {
                let mut m = String::from_str("Browser error: ");
                m.append(s.as_str());
                m
            },
            AppError::Timeout(s) => {
                let mut m = String::from_str("Page load timeout: ");
                m.append(s.as_str());
                m
            },
            AppError::ParseError(s) => {
                let mut m = String::from_str("Parse error: ");
                m.append(s.as_str());
                m
            },
        }
    }
}

} // verus!
