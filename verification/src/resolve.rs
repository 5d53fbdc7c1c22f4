//! Absolute URLs and the resolution of references against a base.
//!
//! Parsing and resolution are the `url` crate's. This module names what that
//! crate returns, hands the parts of a parsed URL on as plain values, and
//! decides which resolved references count as resources.

use vstd::prelude::*;
use url::{ParseError, Url};
use crate::error::ExtractError;

verus! {

/// The parts of an absolute URL that the library reads.
#[derive(Debug, Clone, PartialEq, Eq)]
pub struct ResolvedUrl {
    /// The URL written out in full.
    pub text: String,
    /// Its path component, without query and fragment.
    pub path: String,
    /// Whether it names a host.
    pub has_host: bool,
}

/// A `ResolvedUrl` with its strings as sequences of characters.
pub struct UrlView {
    pub text: Seq<char>,
    pub path: Seq<char>,
    pub has_host: bool,
}

impl View for ResolvedUrl {
    type V = UrlView;

    open spec fn view(&self) -> UrlView {
        UrlView { text: self.text@, path: self.path@, has_host: self.has_host }
    }
}

/// The views of a sequence of URLs.
pub open spec fn url_views(urls: Seq<ResolvedUrl>) -> Seq<UrlView> {
    urls.map_values(|u: ResolvedUrl| u@)
}

/// The error of the `url` crate's parser. Nothing is read from it.
#[verifier::external_type_specification]
#[verifier::external_body]
pub struct ExParseError(ParseError);

/// What `url::Url::parse` makes of `input`: the parts of the URL, or `None`
/// where `input` is not an absolute URL.
pub uninterp spec fn parsed_url(input: Seq<char>) -> Option<UrlView>;

/// What `url::Url::join` makes of `reference` on the URL that `base` parses
/// to: the parts of the resulting URL, or `None` where `base` is not an
/// absolute URL or `reference` cannot be resolved against it.
pub uninterp spec fn joined_url(base: Seq<char>, reference: Seq<char>) -> Option<UrlView>;

/// Calls `url::Url::parse` on `input` and hands on the serialization
/// (`Url::as_str`), the path (`Url::path`) and the presence of a host
/// (`Url::has_host`) of the URL it returns. The contract claims that these
/// depend on `input` alone, and names them `parsed_url(input)`; the parser's
/// error means that there is no such URL.
#[verifier::external_body]
fn parse_url(input: &str) -> (parsed: Result<ResolvedUrl, ParseError>)
    ensures
        parsed is Ok <==> parsed_url(input@) is Some,
        parsed matches Ok(u) ==> Some(u@) == parsed_url(input@),
{
    let url = Url::parse(input)?;
    Ok(ResolvedUrl {
        text: url.as_str().to_string(),
        path: url.path().to_string(),
        has_host: url.has_host(),
    })
}

/// Calls `url::Url::parse` on `base` and `url::Url::join` with `reference` on
/// the URL it returns, and hands on the parts of the joined URL as `parse_url`
/// does. The contract claims that these depend on `base` and `reference`
/// alone, and names them `joined_url(base, reference)`; an error of either
/// call means that there is no such URL, so there is none where `base` does
/// not parse.
#[verifier::external_body]
fn join_url(base: &str, reference: &str) -> (joined: Result<ResolvedUrl, ParseError>)
    ensures
        joined is Ok <==> joined_url(base@, reference@) is Some,
        joined matches Ok(u) ==> Some(u@) == joined_url(base@, reference@),
        parsed_url(base@) is None ==> joined is Err,
{
    let url = Url::parse(base)?.join(reference)?;
    Ok(ResolvedUrl {
        text: url.as_str().to_string(),
        path: url.path().to_string(),
        has_host: url.has_host(),
    })
}

/// The resource that `reference` stands for on a page at `base`: the joined
/// URL where there is one and it names a host. References that resolve to a
/// URL without a host (`mailto:`, `javascript:`, `data:`) name no resource.
pub open spec fn resolved(base: Seq<char>, reference: Seq<char>) -> Option<UrlView> {
    match joined_url(base, reference) {
        Some(url) => if url.has_host {
            Some(url)
        } else {
            None
        },
        None => None,
    }
}

/// The resources that a page's references stand for, in the order of the
/// references; a reference that stands for none is left out.
pub open spec fn resolved_all(base: Seq<char>, references: Seq<Seq<char>>) -> Seq<UrlView>
    decreases references.len(),
{
    if references.len() == 0 {
        Seq::empty()
    } else {
        let before = resolved_all(base, references.drop_last());
        match resolved(base, references.last()) {
            Some(url) => before.push(url),
            None => before,
        }
    }
}

/// Every resource names a host, and there are no more resources than
/// references.
pub proof fn lemma_resources_have_host(base: Seq<char>, references: Seq<Seq<char>>)
    ensures
        resolved_all(base, references).len() <= references.len(),
        forall|i: int|
            0 <= i < resolved_all(base, references).len() ==> (#[trigger] resolved_all(
                base,
                references,
            )[i]).has_host,
    decreases references.len(),
{
    if references.len() > 0 {
        lemma_resources_have_host(base, references.drop_last());
    }
}

/// Whether `input` is an absolute URL.
pub open spec fn is_absolute_url(input: Seq<char>) -> bool {
    parsed_url(input) is Some
}

/// Parses an absolute URL. Fails with `Configuration` on any other text.
pub fn parse_absolute(input: &str) -> (parsed: Result<ResolvedUrl, ExtractError>)
    ensures
        parsed is Ok <==> is_absolute_url(input@),
        parsed matches Ok(u) ==> Some(u@) == parsed_url(input@),
        parsed matches Err(e) ==> e == ExtractError::Configuration,
{
    match parse_url(input) {
        Ok(url) => Ok(url),
        Err(_) => Err(ExtractError::Configuration),
    }
}

/// What becomes of a joined URL: it is kept where it names a host.
pub fn keep_with_host(joined: Option<ResolvedUrl>) -> (kept: Option<ResolvedUrl>)
    ensures
        kept == (match joined {
            Some(url) => if url.has_host {
                Some(url)
            } else {
                None
            },
            None => None,
        }),
{
    match joined {
        Some(url) => if url.has_host {
            Some(url)
        } else {
            None
        },
        None => None,
    }
}

/// Resolves one reference of a page at `base`. `None` where the reference
/// stands for no resource: it cannot be resolved, or resolves to a URL
/// without a host.
pub fn resolve_reference(base: &str, reference: &str) -> (resource: Option<ResolvedUrl>)
    ensures
        resource is Some <==> resolved(base@, reference@) is Some,
        resource matches Some(u) ==> Some(u@) == resolved(base@, reference@),
        resource matches Some(u) ==> u.has_host,
        !is_absolute_url(base@) ==> resource is None,
{
    let joined = match join_url(base, reference) {
        Ok(url) => Some(url),
        Err(_) => None,
    };
    keep_with_host(joined)
}

/// Resolves the references of a page at `base`, in order, and leaves out
/// those that stand for no resource.
pub fn resolve_references(base: &str, references: &Vec<String>) -> (urls: Vec<ResolvedUrl>)
    ensures
        url_views(urls@) == resolved_all(base@, references.deep_view()),
        !is_absolute_url(base@) ==> urls.len() == 0,
{
    let ghost all = references.deep_view();
    let mut urls: Vec<ResolvedUrl> = Vec::new();
    let mut i: usize = 0;
    assert(all.take(0) =~= Seq::<Seq<char>>::empty());
    assert(url_views(urls@) =~= Seq::<UrlView>::empty());
    while i < references.len()
        invariant
            i <= references.len(),
            all == references.deep_view(),
            url_views(urls@) == resolved_all(base@, all.take(i as int)),
            !is_absolute_url(base@) ==> urls.len() == 0,
        decreases references.len() - i,
    {
        proof {
            let next = all.take(i + 1);
            assert(next.drop_last() =~= all.take(i as int));
            assert(next.last() == references@[i as int]@);
        }
        let ghost before = urls@;
        match resolve_reference(base, references[i].as_str()) {
            Some(url) => {
                urls.push(url);
                assert(url_views(urls@) =~= url_views(before).push(url@));
            },
            None => {},
        }
        i = i + 1;
    }
    assert(all.take(i as int) =~= all);
    urls
}

} // verus!
