//! Repeated percent-decoding of redirection targets.
use vstd::prelude::*;
use vstd::string::StringExecFns;
use crate::error::{Error, Fault};
use crate::text::{has_prefix, starts_with};

verus! {

/// The percent-decoding of `s` read as UTF-8 text, `None` when the decoded
/// bytes are not UTF-8.
pub uninterp spec fn percent_decode_utf8(s: Seq<char>) -> Option<Seq<char>>;

/// Relies on `percent_encoding::percent_decode_str(s).decode_utf8()`. That call
/// borrows its input exactly when `s` holds no `%` followed by two hex digits
/// (`Ok(None)` here); otherwise each such triple became one byte, so the text
/// is shorter.
#[verifier::external_body]
fn percent_decode_once(s: &str) -> (r: Result<Option<String>, core::str::Utf8Error>)
    ensures
        match r {
            Ok(None) => percent_decode_utf8(s@) == Some(s@),
            Ok(Some(d)) => percent_decode_utf8(s@) == Some(d@) && d@.len() < s@.len(),
            Err(_) => percent_decode_utf8(s@) is None,
        },
{
    match percent_encoding::percent_decode_str(s).decode_utf8() {
        Ok(std::borrow::Cow::Borrowed(_)) => Ok(None),
        Ok(std::borrow::Cow::Owned(d)) => Ok(Some(d)),
        Err(e) => Err(e),
    }
}

/// `s` when it begins with `http`, else `s` behind an `http://` scheme.
pub open spec fn with_scheme(s: Seq<char>) -> Seq<char> {
    if has_prefix(s, "http"@) {
        s
    } else {
        "http://"@ + s
    }
}

/// Decodes `s` until decoding changes nothing, then repairs a missing scheme.
/// A decoding that changes the text always shortens it, so the last branch is
/// never taken; it only bounds the recursion.
pub open spec fn resolve(s: Seq<char>) -> Result<Seq<char>, Fault>
    decreases s.len(),
{
    match percent_decode_utf8(s) {
        None => Err(Fault::BadUtf8),
        Some(d) => if d == s {
            Ok(with_scheme(s))
        } else if d.len() < s.len() {
            resolve(d)
        } else {
            Err(Fault::BadUtf8)
        },
    }
}

/// Percent-decodes `s` repeatedly until it no longer changes; the result gets
/// an `http://` scheme unless it begins with `http`.
pub fn repeatedly_urldecode(s: &str) -> (r: Result<String, Error>)
    ensures
        match r {
            Ok(t) => resolve(s@) == Ok::<Seq<char>, Fault>(t@),
            Err(e) => resolve(s@) == Err::<Seq<char>, Fault>(e.fault()),
        },
{
    let mut before: String = s.to_owned();
    loop
        invariant
            resolve(before@) == resolve(s@),
        decreases before@.len(),
    {
        match percent_decode_once(before.as_str()) {
            Err(e) => {
                return Err(Error::PercentDecodeUtf8Error(e));
            },
            Ok(None) => {
                if starts_with(before.as_str(), "http") {
                    return Ok(before);
                } else {
                    let mut out = String::from_str("http://");
                    out.append(before.as_str());
                    return Ok(out);
                }
            },
            Ok(Some(after)) => {
                before = after;
            },
        }
    }
}

} // verus!
