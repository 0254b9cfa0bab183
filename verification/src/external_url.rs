//! Opening a link in the system browser: only `http` and `https` URLs are
//! handed on, in the form the URL parser prints them. Only the Android
//! build can hand them to the system; everywhere else opening fails.
use vstd::prelude::*;

use crate::text::{chars_eq, push_str_chars, to_chars};

verus! {

/// A URL as the parser reads it: its scheme and its printed form; or the
/// parser's error message when it does not parse.
pub uninterp spec fn url_parse_of(s: Seq<char>) -> Result<(Seq<char>, Seq<char>), Seq<char>>;

/// `url::Url::parse`, then `Url::scheme` and `Url::as_str` (or the error's
/// text): claims only that the result is `url_parse_of` the input.
#[verifier::external_body]
fn parse_url(s: &str) -> (r: Result<(String, String), String>)
    ensures
        match r {
            Ok((scheme, text)) => url_parse_of(s@) == Ok::<(Seq<char>, Seq<char>), Seq<char>>((scheme@, text@)),
            Err(e) => url_parse_of(s@) == Err::<(Seq<char>, Seq<char>), Seq<char>>(e@),
        },
{
    match url::Url::parse(s) {
        Ok(url) => Ok((url.scheme().to_string(), url.as_str().to_string())),
        Err(error) => Err(error.to_string()),
    }
}

/// What is opened for a parsed URL: its printed form for `http` and
/// `https`; an error naming the parse failure or the scheme otherwise.
pub open spec fn spec_url_to_open(parsed: Result<(Seq<char>, Seq<char>), Seq<char>>) -> Result<
    Seq<char>,
    Seq<char>,
> {
    match parsed {
        Err(e) => Err("invalid URL: "@ + e),
        Ok((scheme, text)) => if scheme == "http"@ || scheme == "https"@ {
            Ok(text)
        } else {
            Err("unsupported URL scheme: "@ + scheme)
        },
    }
}

/// The answer of every build but Android's.
pub const EXTERNAL_URL_UNSUPPORTED: &'static str = "native external URL fallback is only wired on Android";

/// What is opened for a parse result (see [`spec_url_to_open`]).
pub fn url_to_open(parsed: Result<(String, String), String>) -> (r: Result<String, String>)
    ensures
        match r {
            Ok(t) => spec_url_to_open(
                match parsed {
                    Ok((a, b)) => Ok((a@, b@)),
                    Err(e) => Err(e@),
                },
            ) == Ok::<Seq<char>, Seq<char>>(t@),
            Err(e) => spec_url_to_open(
                match parsed {
                    Ok((a, b)) => Ok((a@, b@)),
                    Err(e) => Err(e@),
                },
            ) == Err::<Seq<char>, Seq<char>>(e@),
        },
{
    match parsed {
        Err(e) => {
            let mut m = String::new();
            push_str_chars(&mut m, "invalid URL: ");
            push_str_chars(&mut m, e.as_str());
            Err(m)
        },
        Ok((scheme, text)) => {
            let s = to_chars(scheme.as_str());
            proof {
                reveal_strlit("http");
                reveal_strlit("https");
            }
            if chars_eq(&s, &to_chars("http")) || chars_eq(&s, &to_chars("https")) {
                Ok(text)
            } else {
                let mut m = String::new();
                push_str_chars(&mut m, "unsupported URL scheme: ");
                push_str_chars(&mut m, scheme.as_str());
                Err(m)
            }
        },
    }
}

/// Checks a link before it is opened (see [`spec_url_to_open`]).
pub fn external_url_to_open(url: &str) -> (r: Result<String, String>)
    ensures
        match r {
            Ok(t) => spec_url_to_open(url_parse_of(url@)) == Ok::<Seq<char>, Seq<char>>(t@),
            Err(e) => spec_url_to_open(url_parse_of(url@)) == Err::<Seq<char>, Seq<char>>(e@),
        },
{
    url_to_open(parse_url(url))
}

/// Opens a link: refused when [`external_url_to_open`] refuses it, and
/// otherwise refused too, since only the Android build can open one.
pub fn open_external_url(url: &str) -> (r: Result<(), String>)
    ensures
        match spec_url_to_open(url_parse_of(url@)) {
            Err(e) => r matches Err(m) && m@ == e,
            Ok(_) => r matches Err(m) && m@ == EXTERNAL_URL_UNSUPPORTED@,
        },
{
    match external_url_to_open(url) {
        Err(e) => Err(e),
        Ok(_) => {
            let mut m = String::new();
            push_str_chars(&mut m, EXTERNAL_URL_UNSUPPORTED);
            Err(m)
        },
    }
}

} // verus!
