//! The one outside call the URL policy rests on: parsing a candidate
//! destination string with the `url` crate.

use vstd::prelude::*;

use crate::url_policy::UrlParts;

verus! {

/// What `url::Url::parse` returns for a given input string: `None` where
/// parsing fails, else the parsed URL's scheme, its host (the empty
/// string where the URL has no host) and its full serialization. The
/// result depends on the input string alone.
pub uninterp spec fn url_parse_result(s: Seq<char>) -> Option<(Seq<char>, Seq<char>, Seq<char>)>;

/// Relies on `url::Url::parse` to parse an absolute URL, and on
/// `Url::scheme`, `Url::host_str` and `Url::as_str` to read back the
/// scheme, host and serialization of the parsed URL. On failure the
/// error's display text is returned.
#[verifier::external_body]
pub(crate) fn parse_url(s: &str) -> (r: Result<UrlParts, String>)
    ensures
        r is Ok <==> url_parse_result(s@) is Some,
        r matches Ok(p) ==> url_parse_result(s@) == Some((p.scheme@, p.host@, p.serialization@)),
{
    match url::Url::parse(s) {
        Ok(u) => {
            let scheme = u.scheme().to_string();
            let host = u.host_str().unwrap_or_default().to_string();
            let serialization = u.as_str().to_string();
            Ok(UrlParts { scheme, host, serialization })
        },
        Err(e) => Err(e.to_string()),
    }
}

} // verus!
