//! Turning an input line into a canonical `scheme://host` probe target.

use vstd::prelude::*;

verus! {

/// What a URL parser reports of a line: `(scheme, host)`, or nothing when the
/// line is no absolute URL.
pub uninterp spec fn url_parts(s: Seq<char>) -> Option<(Seq<char>, Option<Seq<char>>)>;

/// The parts of a parsed URL that the pipeline reads.
pub struct UrlParts {
    pub scheme: String,
    pub host: Option<String>,
}

pub open spec fn opt_view(o: Option<String>) -> Option<Seq<char>> {
    match o {
        Some(s) => Some(s@),
        None => None,
    }
}

impl View for UrlParts {
    type V = (Seq<char>, Option<Seq<char>>);

    open spec fn view(&self) -> (Seq<char>, Option<Seq<char>>) {
        (self.scheme@, opt_view(self.host))
    }
}

/// Relies on `reqwest::Url::parse` (the `url` crate's parser), with
/// `Url::scheme` and `Url::host_str` to read the parsed value.
#[verifier::external_body]
fn parse_url(s: &str) -> (r: Option<UrlParts>)
    ensures
        match r {
            Some(p) => url_parts(s@) == Some(p@),
            None => url_parts(s@) is None,
        },
{
    match reqwest::Url::parse(s) {
        Ok(u) => Some(
            UrlParts { scheme: u.scheme().to_string(), host: u.host_str().map(|h| h.to_string()) },
        ),
        Err(_) => None,
    }
}

/// The target built from a URL's parts: `scheme://host`, and none for a URL
/// without a host.
pub open spec fn target_spec(parts: (Seq<char>, Option<Seq<char>>)) -> Option<Seq<char>> {
    match parts.1 {
        Some(h) => Some(parts.0 + "://"@ + h),
        None => None,
    }
}

/// The canonical target of an input line, or none when the line is unusable.
pub open spec fn normalized(line: Seq<char>) -> Option<Seq<char>> {
    match url_parts(line) {
        Some(p) => target_spec(p),
        None => None,
    }
}

/// Builds `scheme://host` from the parts of a parsed URL.
pub fn target_of(parts: &UrlParts) -> (r: Option<String>)
    ensures
        opt_view(r) == target_spec(parts@),
{
    match &parts.host {
        Some(h) => {
            let mut t = parts.scheme.clone();
            t.append("://");
            t.append(h.as_str());
            Some(t)
        },
        None => None,
    }
}

/// Normalises an input line to `scheme://host`, dropping path, query and port;
/// none when the line does not parse as a URL with a host.
pub fn normalize_target(line: &str) -> (r: Option<String>)
    ensures
        opt_view(r) == normalized(line@),
{
    match parse_url(line) {
        Some(p) => target_of(&p),
        None => None,
    }
}

} // verus!
