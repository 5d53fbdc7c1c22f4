//! The references of an HTML page.
//!
//! Parsing the page and matching the selector are the `scraper` crate's. This
//! module names what the crate selects, and decides which attribute of a
//! selected element is its reference.

use vstd::prelude::*;
use vstd::utf8::encode_utf8;
use scraper::{Html, Selector};

verus! {

/// The selector for the elements that link to a resource: anchors with an
/// `href`, images with a `src`.
pub const LINK_SELECTOR: &'static str = "a[href], img[src]";

/// The attribute that holds the reference of an anchor.
pub const HREF: &'static str = "href";

/// The attribute that holds the reference of an image.
pub const SRC: &'static str = "src";

/// The longest page, in bytes of UTF-8, that is handed to the parser. A longer
/// page is not parsed and yields no candidates.
pub const MAX_PAGE_BYTES: usize = 0x2000_0000;

/// The length of `html` in bytes of UTF-8.
pub open spec fn page_bytes(html: Seq<char>) -> nat {
    encode_utf8(html).len()
}

/// The two attributes of a selected element that may hold its reference.
#[derive(Debug, Clone, PartialEq, Eq)]
pub struct Candidate {
    /// The value of `href`, where the element has that attribute.
    pub href: Option<String>,
    /// The value of `src`, where the element has that attribute.
    pub src: Option<String>,
}

/// A `Candidate` with its strings as sequences of characters.
pub struct CandidateView {
    pub href: Option<Seq<char>>,
    pub src: Option<Seq<char>>,
}

/// The view of an attribute value that may be absent.
pub open spec fn value_view(value: Option<String>) -> Option<Seq<char>> {
    match value {
        Some(text) => Some(text@),
        None => None,
    }
}

impl View for Candidate {
    type V = CandidateView;

    open spec fn view(&self) -> CandidateView {
        CandidateView { href: value_view(self.href), src: value_view(self.src) }
    }
}

/// The views of a sequence of candidates.
pub open spec fn candidate_views(candidates: Seq<Candidate>) -> Seq<CandidateView> {
    candidates.map_values(|c: Candidate| c@)
}

/// What `scraper` selects from `html` with `selector`: for each element that
/// `Html::select` yields on the parsed document, in the order in which it
/// yields them, the values that `ElementRef::attr` gives for the attributes
/// `first` and `second`. `None` where `Selector::parse` rejects `selector`.
pub uninterp spec fn selected_attributes(
    html: Seq<char>,
    selector: Seq<char>,
    first: Seq<char>,
    second: Seq<char>,
) -> Option<Seq<CandidateView>>;

/// Parses `selector` with `scraper::Selector::parse` and `html` with
/// `scraper::Html::parse_document`, walks `Html::select`, and reads the two
/// named attributes of each element with `ElementRef::attr`. The contract
/// claims that the outcome depends on the four texts alone, and names it
/// `selected_attributes`; nothing is claimed of which elements are selected.
///
/// Pages beyond `MAX_PAGE_BYTES` are left out: the parser's buffers hold at
/// most `u32::MAX` bytes and double their capacity as they grow, failing past
/// 2^31, and the tokenizer writes up to three bytes for one byte read.
#[verifier::external_body]
fn select_attributes(html: &str, selector: &str, first: &str, second: &str) -> (found: Option<
    Vec<Candidate>,
>)
    requires
        page_bytes(html@) <= MAX_PAGE_BYTES,
    ensures
        found is Some <==> selected_attributes(html@, selector@, first@, second@) is Some,
        found matches Some(v) ==> Some(candidate_views(v@)) == selected_attributes(
            html@,
            selector@,
            first@,
            second@,
        ),
{
    let chosen = Selector::parse(selector).ok()?;
    let document = Html::parse_document(html);
    let found = document.select(&chosen).map(
        |element|
            Candidate {
                href: element.attr(first).map(String::from),
                src: element.attr(second).map(String::from),
            },
    ).collect();
    Some(found)
}

/// The reference of a selected element: its `href`, or its `src` where it has
/// no `href`.
pub open spec fn reference_of(candidate: CandidateView) -> Option<Seq<char>> {
    if candidate.href is Some {
        candidate.href
    } else {
        candidate.src
    }
}

/// The references of the candidates, in order; a candidate with neither
/// attribute contributes none.
pub open spec fn references_of(candidates: Seq<CandidateView>) -> Seq<Seq<char>>
    decreases candidates.len(),
{
    if candidates.len() == 0 {
        Seq::empty()
    } else {
        let before = references_of(candidates.drop_last());
        match reference_of(candidates.last()) {
            Some(reference) => before.push(reference),
            None => before,
        }
    }
}

/// The elements of `html` that link to a resource, by their `href` and `src`.
/// There are none where the page is longer than `MAX_PAGE_BYTES`, and none
/// where the selector is rejected.
pub open spec fn candidates_in(html: Seq<char>) -> Seq<CandidateView> {
    if page_bytes(html) > MAX_PAGE_BYTES {
        Seq::empty()
    } else {
        match selected_attributes(html, LINK_SELECTOR@, HREF@, SRC@) {
            Some(candidates) => candidates,
            None => Seq::empty(),
        }
    }
}

/// The references of `html`, in the order of the elements that hold them.
pub open spec fn references_in(html: Seq<char>) -> Seq<Seq<char>> {
    references_of(candidates_in(html))
}

/// Picks the reference of one selected element: `href` before `src`.
pub fn pick_reference(candidate: &Candidate) -> (reference: Option<String>)
    ensures
        value_view(reference) == reference_of(candidate@),
{
    match &candidate.href {
        Some(href) => Some(href.clone()),
        None => match &candidate.src {
            Some(src) => Some(src.clone()),
            None => None,
        },
    }
}

/// The references of the given elements, in order.
pub fn collect_references(candidates: &Vec<Candidate>) -> (references: Vec<String>)
    ensures
        references.deep_view() == references_of(candidate_views(candidates@)),
{
    let ghost all = candidate_views(candidates@);
    let mut references: Vec<String> = Vec::new();
    let mut i: usize = 0;
    assert(all.take(0) =~= Seq::<CandidateView>::empty());
    assert(references.deep_view() =~= Seq::<Seq<char>>::empty());
    while i < candidates.len()
        invariant
            i <= candidates.len(),
            all == candidate_views(candidates@),
            references.deep_view() == references_of(all.take(i as int)),
        decreases candidates.len() - i,
    {
        proof {
            let next = all.take(i + 1);
            assert(next.drop_last() =~= all.take(i as int));
            assert(next.last() == candidates@[i as int]@);
        }
        let ghost before = references.deep_view();
        match pick_reference(&candidates[i]) {
            Some(reference) => {
                references.push(reference);
                assert(references.deep_view() =~= before.push(reference@));
            },
            None => {},
        }
        i = i + 1;
    }
    assert(all.take(i as int) =~= all);
    references
}

/// The elements of a page that link to a resource. Markup that is not
/// well-formed is no error: the parser makes of it what it can. A page longer
/// than `MAX_PAGE_BYTES` is not parsed and has none.
pub fn select_candidates(html: &str) -> (candidates: Vec<Candidate>)
    ensures
        candidate_views(candidates@) == candidates_in(html@),
        page_bytes(html@) > MAX_PAGE_BYTES ==> candidates.len() == 0,
{
    let found = if html.as_bytes().len() > MAX_PAGE_BYTES {
        None
    } else {
        select_attributes(html, LINK_SELECTOR, HREF, SRC)
    };
    match found {
        Some(candidates) => candidates,
        None => {
            let none: Vec<Candidate> = Vec::new();
            assert(candidate_views(none@) =~= Seq::<CandidateView>::empty());
            none
        },
    }
}

/// The references of a page, in the order of the elements that hold them.
pub fn page_references(html: &str) -> (references: Vec<String>)
    ensures
        references.deep_view() == references_in(html@),
{
    let candidates = select_candidates(html);
    collect_references(&candidates)
}

} // verus!
