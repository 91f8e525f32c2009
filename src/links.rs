//! Links in message text: finding them, deciding which to probe, and
//! deciding from a probe's declared content type whether the resource is a
//! document worth keeping.

use vstd::prelude::*;

use crate::text::{contains_text, first_word, first_word_of, opt_view, same_text, texts};

verus! {

/// Free-form URLs: with a scheme, a `www` prefix, or a domain followed by a
/// slash; balanced parentheses may appear inside, and trailing punctuation is
/// left out.
pub const URL_PATTERN: &'static str = r#"(?i)\b((?:https?://|www\d{0,3}[.]|[a-z0-9.\-]+[.][a-z]{2,4}/)(?:[^\s()<>]+|\(([^\s()<>]+|(\([^\s()<>]+\)))*\))+(?:\(([^\s()<>]+|(\([^\s()<>]+\)))*\)|[^\s`!()\[\]{};:'".,<>?«»“”‘’]))"#;

#[verifier::external_type_specification]
#[verifier::external_body]
pub struct ExRegexError(regex::Error);

/// Whether `regex::Regex::new` accepts the pattern.
pub uninterp spec fn regex_compiles(pattern: Seq<char>) -> bool;

/// The texts of the successive non-overlapping matches that
/// `regex::Regex::find_iter` reports for the pattern in the text.
pub uninterp spec fn regex_matches(pattern: Seq<char>, text: Seq<char>) -> Seq<Seq<char>>;

/// Relies on `regex::Regex::new` to compile the pattern and on
/// `regex::Regex::find_iter` to list the texts of its matches in order.
#[verifier::external_body]
fn find_matches(pattern: &str, text: &str) -> (r: Result<Vec<String>, regex::Error>)
    ensures
        r is Ok == regex_compiles(pattern@),
        r matches Ok(v) ==> texts(v@) == regex_matches(pattern@, text@),
{
    regex::Regex::new(pattern).map(|re| re.find_iter(text).map(|m| m.as_str().to_string()).collect())
}

/// The URL-like texts of a message body, in order of appearance.
pub fn link_candidates(body: &str) -> (r: Vec<String>)
    ensures
        texts(r@) == if regex_compiles(URL_PATTERN@) {
            regex_matches(URL_PATTERN@, body@)
        } else {
            Seq::empty()
        },
{
    match find_matches(URL_PATTERN, body) {
        Ok(v) => v,
        Err(_) => {
            let v: Vec<String> = Vec::new();
            assert(texts(v@) =~= Seq::empty());
            v
        },
    }
}

/// What a URL parser makes of a text: its serialization, its domain (absent
/// for an IP address or an opaque URL) and the last segment of its path
/// (absent for a URL that cannot be a base).
#[derive(Debug, PartialEq, Eq)]
pub struct UrlParts {
    pub href: String,
    pub domain: Option<String>,
    pub last_segment: Option<String>,
}

impl UrlParts {
    pub open spec fn view_parts(self) -> (Seq<char>, Option<Seq<char>>, Option<Seq<char>>) {
        (self.href@, opt_view(self.domain), opt_view(self.last_segment))
    }
}

/// What `url::Url::parse` makes of a text, read through `Url::as_str`,
/// `Url::domain` and the last item of `Url::path_segments`; absent when it
/// does not parse.
pub uninterp spec fn parsed_url(s: Seq<char>) -> Option<(Seq<char>, Option<Seq<char>>, Option<Seq<char>>)>;

/// Relies on `url::Url::parse` (re-exported by reqwest) for the parse, and on
/// `Url::as_str`, `Url::domain` and `Url::path_segments` to read it.
#[verifier::external_body]
fn parse_url(s: &str) -> (r: Option<UrlParts>)
    ensures
        match r {
            Some(p) => parsed_url(s@) == Some(p.view_parts()),
            None => parsed_url(s@) is None,
        },
{
    reqwest::Url::parse(s).ok().map(|u| UrlParts {
        href: u.as_str().to_string(),
        domain: u.domain().map(|d| d.to_string()),
        last_segment: u.path_segments().and_then(|p| p.last()).map(|p| p.to_string()),
    })
}

/// A link worth probing: its URL, the last segment of its path and its
/// domain.
#[derive(Debug, PartialEq, Eq)]
pub struct LinkTarget {
    pub url: String,
    pub segment: String,
    pub domain: String,
}

impl LinkTarget {
    pub open spec fn view_target(self) -> (Seq<char>, Seq<char>, Seq<char>) {
        (self.url@, self.segment@, self.domain@)
    }
}

/// The probe that a parsed link calls for: none for a link without a domain
/// or a path, or on an ignored domain.
pub open spec fn probe_target(
    parts: Option<(Seq<char>, Option<Seq<char>>, Option<Seq<char>>)>,
    ignored_domains: Seq<Seq<char>>,
) -> Option<(Seq<char>, Seq<char>, Seq<char>)> {
    match parts {
        Some((href, Some(domain), Some(segment))) => if ignored_domains.contains(domain) {
            None
        } else {
            Some((href, segment, domain))
        },
        _ => None,
    }
}

/// The view of an optional link target.
pub open spec fn opt_target(t: Option<LinkTarget>) -> Option<(Seq<char>, Seq<char>, Seq<char>)> {
    match t {
        Some(t) => Some(t.view_target()),
        None => None,
    }
}

/// Decides, with no network call, whether a parsed link is to be probed.
pub fn plan_parsed_link(parts: Option<UrlParts>, ignored_domains: &Vec<String>) -> (r: Option<LinkTarget>)
    ensures
        opt_target(r) == probe_target(
            match parts {
                Some(p) => Some(p.view_parts()),
                None => None,
            },
            texts(ignored_domains@),
        ),
{
    match parts {
        Some(UrlParts { href, domain: Some(domain), last_segment: Some(segment) }) => {
            if contains_text(ignored_domains, domain.as_str()) {
                None
            } else {
                Some(LinkTarget { url: href, segment, domain })
            }
        },
        _ => None,
    }
}

/// Parses a candidate link and decides whether it is to be probed.
pub fn plan_link(candidate: &str, ignored_domains: &Vec<String>) -> (r: Option<LinkTarget>)
    ensures
        opt_target(r) == probe_target(parsed_url(candidate@), texts(ignored_domains@)),
{
    plan_parsed_link(parse_url(candidate), ignored_domains)
}

/// The subtype of the media type that `mime::Mime`'s `FromStr` reads from a
/// text, as `Mime::subtype` gives it; absent when the text does not parse.
pub uninterp spec fn mime_subtype(s: Seq<char>) -> Option<Seq<char>>;

/// Relies on `mime::Mime`'s `FromStr` to parse a media type and on
/// `Mime::subtype` for its subtype.
#[verifier::external_body]
fn media_subtype(s: &str) -> (r: Option<String>)
    ensures
        opt_view(r) == mime_subtype(s@),
{
    s.parse::<mime::Mime>().ok().map(|m| m.subtype().as_str().to_string())
}

/// The media subtype of the documents that are archived.
pub open spec fn document_subtype() -> Seq<char> {
    seq!['p', 'd', 'f']
}

/// Whether a media subtype names an archived document format.
pub fn is_document_subtype(subtype: &Option<String>) -> (r: bool)
    ensures
        r == (opt_view(*subtype) == Some(document_subtype())),
{
    proof {
        reveal_strlit("pdf");
    }
    match subtype {
        Some(s) => {
            let r = same_text(s.as_str(), "pdf");
            assert(r ==> s@ =~= document_subtype());
            assert(s@ =~= document_subtype() ==> s@ == "pdf"@);
            r
        },
        None => false,
    }
}

/// Whether a declared content type announces an archived document: its first
/// word must parse as a media type with that subtype.
pub open spec fn announces_document(content_type: Seq<char>) -> bool {
    match first_word(content_type) {
        Some(w) => mime_subtype(w) == Some(document_subtype()),
        None => false,
    }
}

/// Whether a content-type header value announces an archived document.
pub fn accepts_content_type(content_type: &str) -> (r: bool)
    ensures
        r == announces_document(content_type@),
{
    match first_word_of(content_type) {
        Some(w) => {
            let sub = media_subtype(w.as_str());
            is_document_subtype(&sub)
        },
        None => false,
    }
}

/// The outcome of classifying a link.
#[derive(Debug, PartialEq, Eq)]
pub enum LinkVerdict {
    Accepted(String),
    Rejected,
}

/// Classifies a probed link from the content type its response declared;
/// `None` stands for a failed probe or a response without one.
pub fn classify_response(url: String, content_type: Option<String>) -> (r: LinkVerdict)
    ensures
        match content_type {
            Some(c) if announces_document(c@) => r == LinkVerdict::Accepted(url),
            _ => r == LinkVerdict::Rejected,
        },
{
    match content_type {
        Some(c) => {
            if accepts_content_type(c.as_str()) {
                LinkVerdict::Accepted(url)
            } else {
                LinkVerdict::Rejected
            }
        },
        None => LinkVerdict::Rejected,
    }
}

/// The probes called for by candidate links, in order; the candidates that
/// call for none are dropped.
pub open spec fn probe_targets(candidates: Seq<Seq<char>>, ignored_domains: Seq<Seq<char>>) -> Seq<
    (Seq<char>, Seq<char>, Seq<char>),
>
    decreases candidates.len(),
{
    if candidates.len() == 0 {
        Seq::empty()
    } else {
        let rest = probe_targets(candidates.drop_last(), ignored_domains);
        match probe_target(parsed_url(candidates.last()), ignored_domains) {
            Some(t) => rest.push(t),
            None => rest,
        }
    }
}

/// The views of link targets.
pub open spec fn target_views(v: Seq<LinkTarget>) -> Seq<(Seq<char>, Seq<char>, Seq<char>)> {
    v.map_values(|t: LinkTarget| t.view_target())
}

/// The links of a message body that are to be probed, in order of
/// appearance.
pub fn links_to_probe(body: &str, ignored_domains: &Vec<String>) -> (r: Vec<LinkTarget>)
    ensures
        target_views(r@) == probe_targets(
            if regex_compiles(URL_PATTERN@) {
                regex_matches(URL_PATTERN@, body@)
            } else {
                Seq::empty()
            },
            texts(ignored_domains@),
        ),
{
    let candidates = link_candidates(body);
    let ghost cands = texts(candidates@);
    let mut r: Vec<LinkTarget> = Vec::new();
    let mut i: usize = 0;
    while i < candidates.len()
        invariant
            i <= candidates.len(),
            cands == texts(candidates@),
            target_views(r@) == probe_targets(cands.take(i as int), texts(ignored_domains@)),
        decreases candidates.len() - i,
    {
        let t = plan_link(candidates[i].as_str(), ignored_domains);
        proof {
            assert(cands.take(i + 1).drop_last() =~= cands.take(i as int));
            assert(cands.take(i + 1).last() == candidates@[i as int]@);
        }
        match t {
            Some(t) => {
                r.push(t);
                assert(target_views(r@) =~= probe_targets(cands.take(i + 1), texts(ignored_domains@)));
            },
            None => {},
        }
        i += 1;
    }
    assert(cands.take(candidates.len() as int) =~= cands);
    r
}

} // verus!
