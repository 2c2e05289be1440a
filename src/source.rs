//! Source identifiers: the address of a job posting, with the parts of it
//! that the extractors read.
use vstd::prelude::*;

use crate::text::views_of;

verus! {

/// What parsing an address gives: its normalised text, its host (if any) and
/// its path segments (if it can have a path).
pub uninterp spec fn url_parts(s: Seq<char>) -> Option<(Seq<char>, Option<Seq<char>>, Option<Seq<Seq<char>>>)>;

pub open spec fn opt_view(o: Option<String>) -> Option<Seq<char>> {
    match o {
        Some(s) => Some(s@),
        None => None,
    }
}

pub open spec fn opt_views(o: Option<Vec<String>>) -> Option<Seq<Seq<char>>> {
    match o {
        Some(v) => Some(views_of(v@)),
        None => None,
    }
}

/// Relies on `url::Url::parse`, read back through `Url::as_str`,
/// `Url::host_str` and `Url::path_segments`.
#[verifier::external_body]
fn parse_url(text: &str) -> (r: Option<(String, Option<String>, Option<Vec<String>>)>)
    ensures
        r is Some <==> url_parts(text@) is Some,
        r matches Some(p) ==> url_parts(text@) == Some((p.0@, opt_view(p.1), opt_views(p.2))),
{
    let u = url::Url::parse(text).ok()?;
    let host = u.host_str().map(|h| h.to_string());
    let segments = u.path_segments().map(|p| p.map(|s| s.to_string()).collect());
    Some((u.as_str().to_string(), host, segments))
}

/// The address of a job posting.
pub struct SourceId {
    /// The normalised address.
    pub text: String,
    pub host: Option<String>,
    pub segments: Option<Vec<String>>,
}

impl SourceId {
    /// Parses an address; `None` where it is not a valid absolute URL.
    pub fn parse(text: &str) -> (r: Option<SourceId>)
        ensures
            r is Some <==> url_parts(text@) is Some,
            r matches Some(s) ==> url_parts(text@) == Some(
                (s.text@, opt_view(s.host), opt_views(s.segments)),
            ),
    {
        match parse_url(text) {
            Some(p) => Some(SourceId { text: p.0, host: p.1, segments: p.2 }),
            None => None,
        }
    }
}

} // verus!
