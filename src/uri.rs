//! The path-and-query part of an absolute URL.
use vstd::prelude::*;

use crate::text::opt_view;

verus! {

/// The path and the optional query that the URL parser finds in `s`, or the parser's message
/// where `s` is not an absolute URL.
pub uninterp spec fn parsed_url(s: Seq<char>) -> Result<(Seq<char>, Option<Seq<char>>), Seq<char>>;

/// Relies on `url::Url::parse` (re-exported by reqwest as `reqwest::Url`), on its `path` and
/// `query` accessors, and on the `Display` text of its `ParseError`: the result depends on the
/// text alone.
#[verifier::external_body]
fn parse_path_query(s: &str) -> (r: Result<(String, Option<String>), String>)
    ensures
        match r {
            Ok((p, q)) => parsed_url(s@) == Ok::<(Seq<char>, Option<Seq<char>>), Seq<char>>((p@, opt_view(q))),
            Err(e) => parsed_url(s@) == Err::<(Seq<char>, Option<Seq<char>>), Seq<char>>(e@),
        },
{
    match reqwest::Url::parse(s) {
        Ok(u) => Ok((u.path().to_string(), u.query().map(|q| q.to_string()))),
        Err(e) => Err(e.to_string()),
    }
}

/// `path` followed by `?query` when there is a query: the request target of an HTTP request.
pub open spec fn path_with_query(p: Seq<char>, q: Option<Seq<char>>) -> Seq<char> {
    match q {
        Some(q) => p + "?"@ + q,
        None => p,
    }
}

/// The request target (path and query) of the absolute URL `url`.
pub open spec fn request_target_of(url: Seq<char>) -> Result<Seq<char>, Seq<char>> {
    match parsed_url(url) {
        Ok((p, q)) => Ok(path_with_query(p, q)),
        Err(e) => Err(e),
    }
}

pub fn request_target(url: &str) -> (r: Result<String, String>)
    ensures
        match r {
            Ok(v) => request_target_of(url@) == Ok::<Seq<char>, Seq<char>>(v@),
            Err(e) => request_target_of(url@) == Err::<Seq<char>, Seq<char>>(e@),
        },
{
    request_target_from(parse_path_query(url))
}

/// The request target from a parsed URL (its path and query), or the parser's message.
pub fn request_target_from(parsed: Result<(String, Option<String>), String>) -> (r: Result<String, String>)
    ensures
        match parsed {
            Ok((p, q)) => r matches Ok(v) && v@ == path_with_query(p@, opt_view(q)),
            Err(e) => r == Err::<String, String>(e),
        },
{
    match parsed {
        Ok((p, q)) => {
            let mut v = p;
            match q {
                Some(q) => {
                    v.append("?");
                    v.append(q.as_str());
                },
                None => {},
            }
            Ok(v)
        },
        Err(e) => Err(e),
    }
}

} // verus!
