//! Referrer handling: the domain a visit came from, read out of the raw
//! referrer header value through the `url` crate.

use vstd::prelude::*;

verus! {

/// The domain that URL parsing extracts from a referrer header value, if
/// the value is an absolute URL whose host is a domain name. Parsing is a
/// function of the characters alone.
pub uninterp spec fn referrer_domain_of(s: Seq<char>) -> Option<Seq<char>>;

/// Relies on `url::Url::parse` and `url::Url::domain`: parsing either
/// fails or yields a URL value determined by the input string, and
/// `domain` reads the host portion of that value, so the extracted domain
/// depends on the characters of `s` alone.
#[verifier::external_body]
fn url_domain(s: &str) -> (r: Option<String>)
    ensures
        match r {
            Some(d) => referrer_domain_of(s@) == Some(d@),
            None => referrer_domain_of(s@) is None,
        },
{
    match url::Url::parse(s) {
        Ok(u) => u.domain().map(|d| d.to_string()),
        Err(_) => None,
    }
}

/// The effective referrer domain of a request: what the header parses to,
/// or the empty string when there is no header, the header is not a valid
/// URL, or the URL has no domain. A malformed header is never an error.
pub open spec fn spec_referrer_domain(header: Option<Seq<char>>) -> Seq<char> {
    match header {
        Some(h) => match referrer_domain_of(h) {
            Some(d) => d,
            None => Seq::empty(),
        },
        None => Seq::empty(),
    }
}

/// Resolves the referrer header value to its domain, empty when absent or
/// malformed.
pub fn referrer_domain(header: Option<&String>) -> (r: String)
    ensures
        r@ == spec_referrer_domain(match header {
            Some(h) => Some(h@),
            None => None,
        }),
{
    match header {
        Some(h) => match url_domain(h.as_str()) {
            Some(d) => d,
            None => String::new(),
        },
        None => String::new(),
    }
}

} // verus!
