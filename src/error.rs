//! The ways a cleaning call can fail.
use vstd::prelude::*;
use vstd::string::{to_string_from_display_ensures, StringExecFns};
use crate::text::has_prefix;

verus! {

#[verifier::external_type_specification]
#[verifier::external_body]
pub struct ExUtf8Error(core::str::Utf8Error);

#[verifier::external_type_specification]
#[verifier::external_body]
pub struct ExParseError(url::ParseError);

/// Why cleaning a URL failed.
#[derive(Debug)]
#[non_exhaustive]
pub enum Error {
    /// A string, the input or a rewritten intermediate, is not an absolute URL.
    UrlSyntax(url::ParseError),
    /// A redirection pattern matched but exposed no non-empty group 1; holds the
    /// pattern's text.
    RedirectionHasNoCapturingGroup(String),
    /// Percent-decoding a redirection target gave bytes that are not UTF-8.
    PercentDecodeUtf8Error(core::str::Utf8Error),
}

/// What the proofs see of an [`Error`].
pub enum Fault {
    UrlSyntax,
    MissingCapture(Seq<char>),
    BadUtf8,
}

impl Error {
    pub open spec fn fault(&self) -> Fault {
        match self {
            Error::UrlSyntax(_) => Fault::UrlSyntax,
            Error::RedirectionHasNoCapturingGroup(p) => Fault::MissingCapture(p@),
            Error::PercentDecodeUtf8Error(_) => Fault::BadUtf8,
        }
    }

    /// A one-line description of the failure.
    pub fn message(&self) -> (r: String)
        ensures
            match self {
                Error::UrlSyntax(e) => has_prefix(r@, "error parsing url: "@) && exists|d: String|
                    to_string_from_display_ensures::<url::ParseError>(e, d) && r@
                        == "error parsing url: "@ + d@,
                Error::RedirectionHasNoCapturingGroup(p) => r@ == "redirection regex "@ + p@
                    + " has no capture group"@,
                Error::PercentDecodeUtf8Error(e) => has_prefix(
                    r@,
                    "percent decoding resulted in non-UTF-8 bytes: "@,
                ) && exists|d: String|
                    to_string_from_display_ensures::<core::str::Utf8Error>(e, d) && r@
                        == "percent decoding resulted in non-UTF-8 bytes: "@ + d@,
            },
    {
        match self {
            Error::UrlSyntax(e) => {
                let mut r = String::from_str("error parsing url: ");
                let detail = e.to_string();
                r.append(detail.as_str());
                proof {
                    assert(r@.subrange(0, "error parsing url: "@.len() as int) =~= "error parsing url: "@);
                }
                r
            },
            Error::RedirectionHasNoCapturingGroup(p) => {
                let mut r = String::from_str("redirection regex ");
                r.append(p.as_str());
                r.append(" has no capture group");
                r
            },
            Error::PercentDecodeUtf8Error(e) => {
                let mut r = String::from_str("percent decoding resulted in non-UTF-8 bytes: ");
                let detail = e.to_string();
                r.append(detail.as_str());
                proof {
                    assert(r@.subrange(0, "percent decoding resulted in non-UTF-8 bytes: "@.len() as int)
                        =~= "percent decoding resulted in non-UTF-8 bytes: "@);
                }
                r
            },
        }
    }
}

} // verus!
