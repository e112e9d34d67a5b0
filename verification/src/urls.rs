//! Validation of resource locators through the `url` crate's parser.

use vstd::prelude::*;

verus! {

/// What `url::Url::parse` makes of a string: `Some` of the parsed URL's
/// serialization when the string parses as an absolute URL, `None` when it
/// does not. The outcome depends on the characters of the string alone.
pub uninterp spec fn parse_url_spec(s: Seq<char>) -> Option<Seq<char>>;

/// Relies on `url::Url::parse`: it accepts exactly the strings that parse as
/// absolute URLs, and on success `String::from` on the parsed value returns
/// its (normalized) serialization; both depend only on the input string. The
/// error carries the parse error's human-readable message.
#[verifier::external_body]
pub(crate) fn parse_url(s: &str) -> (r: Result<String, String>)
    ensures
        match r {
            Ok(u) => parse_url_spec(s@) == Some(u@),
            Err(_) => parse_url_spec(s@) is None,
        },
{
    match url::Url::parse(s) {
        Ok(u) => Ok(String::from(u)),
        Err(e) => Err(e.to_string()),
    }
}

} // verus!
