//! Extraction of the resource URLs of a page.
//!
//! The page's references are resolved against the page's address, filtered by
//! file extension, and returned as text in the order in which the page holds
//! them. An address that is no absolute URL, and a page that yields nothing
//! under the filter, are errors.

use vstd::prelude::*;
use crate::error::{ExtractError, ExtractErrorView};
use crate::extension::{has_allowed_extension, passes_filter};
use crate::markup::{candidates_in, page_references, references_in};
use crate::resolve::{
    is_absolute_url,
    parse_absolute,
    resolve_references,
    resolved_all,
    url_views,
    ResolvedUrl,
    UrlView,
};

verus! {

/// The URLs whose path passes the filter, as text, in their order.
pub open spec fn kept_texts(urls: Seq<UrlView>, extensions: Seq<Seq<char>>) -> Seq<Seq<char>> {
    urls.filter(|u: UrlView| passes_filter(u.path, extensions)).map_values(|u: UrlView| u.text)
}

/// What is made of the resolved URLs of a page: those that pass the filter,
/// or `NoMatchingResources` where none does.
pub open spec fn selection(urls: Seq<UrlView>, extensions: Seq<Seq<char>>) -> Result<
    Seq<Seq<char>>,
    ExtractErrorView,
> {
    let kept = kept_texts(urls, extensions);
    if kept.len() == 0 {
        Err(ExtractErrorView::NoMatchingResources { extensions })
    } else {
        Ok(kept)
    }
}

/// What extraction makes of a page: `Configuration` where `base` is no
/// absolute URL, else the selection among the page's resolved references.
pub open spec fn extraction(html: Seq<char>, base: Seq<char>, extensions: Seq<Seq<char>>) -> Result<
    Seq<Seq<char>>,
    ExtractErrorView,
> {
    if is_absolute_url(base) {
        selection(resolved_all(base, references_in(html)), extensions)
    } else {
        Err(ExtractErrorView::Configuration)
    }
}

/// An outcome of extraction with its strings as sequences of characters.
pub open spec fn outcome_view(outcome: Result<Vec<String>, ExtractError>) -> Result<
    Seq<Seq<char>>,
    ExtractErrorView,
> {
    match outcome {
        Ok(urls) => Ok(urls.deep_view()),
        Err(error) => Err(error@),
    }
}

/// Whether `text` is the text of a member of `urls` whose path passes the
/// filter.
pub open spec fn is_text_of_passing(
    urls: Seq<UrlView>,
    extensions: Seq<Seq<char>>,
    text: Seq<char>,
) -> bool {
    exists|j: int|
        0 <= j < urls.len() && passes_filter((#[trigger] urls[j]).path, extensions) && urls[j].text
            == text
}

/// Filtering adds nothing: each kept text is the text of a URL that passes
/// the filter, and no more texts are kept than there are URLs.
pub proof fn lemma_kept_come_from_urls(urls: Seq<UrlView>, extensions: Seq<Seq<char>>)
    ensures
        kept_texts(urls, extensions).len() <= urls.len(),
        forall|i: int|
            0 <= i < kept_texts(urls, extensions).len() ==> is_text_of_passing(
                urls,
                extensions,
                #[trigger] kept_texts(urls, extensions)[i],
            ),
{
    let keep = |u: UrlView| passes_filter(u.path, extensions);
    let kept = urls.filter(keep);
    lemma_filter_members(urls, keep);
    assert forall|i: int| 0 <= i < kept_texts(urls, extensions).len() implies is_text_of_passing(
        urls,
        extensions,
        #[trigger] kept_texts(urls, extensions)[i],
    ) by {
        assert(is_kept_member(urls, keep, kept[i]));
        let j = choose|j: int| 0 <= j < urls.len() && #[trigger] urls[j] == kept[i];
        assert(passes_filter(urls[j].path, extensions));
    }
}

/// Whether `url` is a member of `urls` that satisfies `keep`.
spec fn is_kept_member(urls: Seq<UrlView>, keep: spec_fn(UrlView) -> bool, url: UrlView) -> bool {
    keep(url) && exists|j: int| 0 <= j < urls.len() && #[trigger] urls[j] == url
}

/// Each member of a filtered sequence is a member of the sequence that
/// satisfies the filter, and filtering does not lengthen.
proof fn lemma_filter_members(urls: Seq<UrlView>, keep: spec_fn(UrlView) -> bool)
    ensures
        urls.filter(keep).len() <= urls.len(),
        forall|i: int|
            0 <= i < urls.filter(keep).len() ==> is_kept_member(
                urls,
                keep,
                #[trigger] urls.filter(keep)[i],
            ),
    decreases urls.len(),
{
    urls.lemma_filter_len(keep);
    if urls.len() > 0 {
        let front = urls.drop_last();
        lemma_filter_members(front, keep);
        front.lemma_filter_push(urls.last(), keep);
        assert(front.push(urls.last()) =~= urls);
        assert forall|i: int| 0 <= i < urls.filter(keep).len() implies is_kept_member(
            urls,
            keep,
            #[trigger] urls.filter(keep)[i],
        ) by {
            if i < front.filter(keep).len() {
                assert(is_kept_member(front, keep, front.filter(keep)[i]));
                let j = choose|j: int|
                    0 <= j < front.len() && #[trigger] front[j] == front.filter(keep)[i];
                assert(urls[j] == front[j]);
            } else {
                assert(urls[urls.len() - 1] == urls.filter(keep)[i]);
            }
        }
    }
}

/// The empty filter keeps every URL.
pub proof fn lemma_empty_filter_keeps_all(urls: Seq<UrlView>)
    ensures
        kept_texts(urls, Seq::empty()) == urls.map_values(|u: UrlView| u.text),
{
    let none = Seq::<Seq<char>>::empty();
    let keep = |u: UrlView| passes_filter(u.path, none);
    lemma_filter_of_all(urls, keep);
}

/// A filter that every member passes returns the sequence as it is.
proof fn lemma_filter_of_all(urls: Seq<UrlView>, keep: spec_fn(UrlView) -> bool)
    requires
        forall|u: UrlView| #[trigger] keep(u),
    ensures
        urls.filter(keep) == urls,
    decreases urls.len(),
{
    if urls.len() == 0 {
        urls.lemma_filter_len(keep);
        assert(urls.filter(keep) =~= urls);
    } else {
        let front = urls.drop_last();
        lemma_filter_of_all(front, keep);
        front.lemma_filter_push(urls.last(), keep);
        assert(front.push(urls.last()) =~= urls);
    }
}

/// An address that is no absolute URL makes extraction fail with
/// `Configuration`, whatever the page and the filter.
pub proof fn lemma_invalid_base_is_rejected(
    html: Seq<char>,
    base: Seq<char>,
    extensions: Seq<Seq<char>>,
)
    requires
        !is_absolute_url(base),
    ensures
        extraction(html, base, extensions) == Err::<Seq<Seq<char>>, ExtractErrorView>(
            ExtractErrorView::Configuration,
        ),
{
}

/// A page on which no element is selected yields `NoMatchingResources` under
/// every filter, the empty one included.
pub proof fn lemma_no_candidates_no_resources(
    html: Seq<char>,
    base: Seq<char>,
    extensions: Seq<Seq<char>>,
)
    requires
        is_absolute_url(base),
        candidates_in(html).len() == 0,
    ensures
        extraction(html, base, extensions) == Err::<Seq<Seq<char>>, ExtractErrorView>(
            ExtractErrorView::NoMatchingResources { extensions },
        ),
{
    let urls = resolved_all(base, references_in(html));
    assert(urls.len() == 0);
    lemma_kept_come_from_urls(urls, extensions);
}

/// A copy of the given strings.
pub fn copy_strings(strings: &Vec<String>) -> (copy: Vec<String>)
    ensures
        copy.deep_view() == strings.deep_view(),
{
    let mut copy: Vec<String> = Vec::new();
    let mut i: usize = 0;
    while i < strings.len()
        invariant
            i <= strings.len(),
            copy.deep_view() == strings.deep_view().take(i as int),
        decreases strings.len() - i,
    {
        let ghost before = copy.deep_view();
        copy.push(strings[i].clone());
        assert(copy.deep_view() =~= before.push(strings@[i as int]@));
        assert(strings.deep_view().take(i + 1) =~= before.push(strings@[i as int]@));
        i = i + 1;
    }
    assert(strings.deep_view().take(i as int) =~= strings.deep_view());
    copy
}

/// Keeps the URLs whose path passes the extension filter, as text, in their
/// order. The empty filter keeps them all.
pub fn filter_urls_by_extension(urls: Vec<ResolvedUrl>, extensions: &Vec<String>) -> (kept: Vec<
    String,
>)
    ensures
        kept.deep_view() == kept_texts(url_views(urls@), extensions.deep_view()),
{
    let ghost all = url_views(urls@);
    let ghost filter = extensions.deep_view();
    let ghost keep = |u: UrlView| passes_filter(u.path, filter);
    let ghost text = |u: UrlView| u.text;
    let mut kept: Vec<String> = Vec::new();
    let mut i: usize = 0;
    proof {
        assert(all.take(0) =~= Seq::<UrlView>::empty());
        all.take(0).lemma_filter_len(keep);
        assert(kept.deep_view() =~= all.take(0).filter(keep).map_values(text));
    }
    while i < urls.len()
        invariant
            i <= urls.len(),
            all == url_views(urls@),
            filter == extensions.deep_view(),
            keep == |u: UrlView| passes_filter(u.path, filter),
            text == |u: UrlView| u.text,
            kept.deep_view() == all.take(i as int).filter(keep).map_values(text),
        decreases urls.len() - i,
    {
        let ghost before = kept.deep_view();
        let url = &urls[i];
        proof {
            assert(all.take(i + 1) =~= all.take(i as int).push(url@));
            all.take(i as int).lemma_filter_push(url@, keep);
        }
        if has_allowed_extension(url.path.as_str(), extensions) {
            kept.push(url.text.clone());
            proof {
                assert(kept.deep_view() =~= before.push(url@.text));
                all.take(i as int).filter(keep).lemma_push_map_commute(text, url@);
            }
        }
        i = i + 1;
    }
    assert(all.take(i as int) =~= all);
    kept
}

/// Makes the result of extraction from the resolved URLs of a page: the texts
/// of those that pass the filter, or `NoMatchingResources`, with the filter,
/// where none does.
pub fn select_resource_urls(urls: Vec<ResolvedUrl>, extensions: &Vec<String>) -> (outcome: Result<
    Vec<String>,
    ExtractError,
>)
    ensures
        outcome_view(outcome) == selection(url_views(urls@), extensions.deep_view()),
        outcome matches Ok(kept) ==> kept.len() > 0,
{
    let kept = filter_urls_by_extension(urls, extensions);
    if kept.len() == 0 {
        Err(ExtractError::NoMatchingResources { extensions: copy_strings(extensions) })
    } else {
        Ok(kept)
    }
}

/// The resources that the references of a page stand for, in the order of the
/// page. `base_url` is the address of the page; where it is no absolute URL,
/// no reference resolves.
pub fn extract_urls_from_html(html: &str, base_url: &str) -> (urls: Vec<ResolvedUrl>)
    ensures
        url_views(urls@) == resolved_all(base_url@, references_in(html@)),
        !is_absolute_url(base_url@) ==> urls.len() == 0,
{
    let references = page_references(html);
    resolve_references(base_url, &references)
}

/// The resource URLs of the page `html` fetched from `url`, restricted to the
/// given extensions; the empty filter restricts nothing.
///
/// Fails with `Configuration` where `url` is no absolute URL, before the page
/// is looked at, and with `NoMatchingResources` where no reference of the
/// page resolves to a resource that passes the filter.
pub fn extract_file_urls(html: &str, url: &str, extensions: &Vec<String>) -> (outcome: Result<
    Vec<String>,
    ExtractError,
>)
    ensures
        outcome_view(outcome) == extraction(html@, url@, extensions.deep_view()),
        !is_absolute_url(url@) ==> outcome_view(outcome) == Err::<Seq<Seq<char>>, ExtractErrorView>(
            ExtractErrorView::Configuration,
        ),
        outcome matches Ok(urls) ==> urls.len() > 0,
{
    match parse_absolute(url) {
        Err(error) => Err(error),
        Ok(_) => {
            let urls = extract_urls_from_html(html, url);
            select_resource_urls(urls, extensions)
        },
    }
}

} // verus!
