use resource_urls::error::ExtractError;
use resource_urls::extract::{extract_file_urls, extract_urls_from_html};
use resource_urls::markup::{
    collect_references, page_references, pick_reference, select_candidates, Candidate, HREF,
    LINK_SELECTOR, MAX_PAGE_BYTES, SRC,
};

fn candidate(href: Option<&str>, src: Option<&str>) -> Candidate {
    Candidate { href: href.map(String::from), src: src.map(String::from) }
}

#[test]
fn selector_and_attribute_names() {
    assert_eq!(LINK_SELECTOR, "a[href], img[src]");
    assert_eq!(HREF, "href");
    assert_eq!(SRC, "src");
}

#[test]
fn pick_reference_prefers_href() {
    assert_eq!(pick_reference(&candidate(Some("h"), Some("s"))), Some("h".to_string()));
    assert_eq!(pick_reference(&candidate(Some("h"), None)), Some("h".to_string()));
    assert_eq!(pick_reference(&candidate(None, Some("s"))), Some("s".to_string()));
    assert_eq!(pick_reference(&candidate(None, None)), None);
    assert_eq!(pick_reference(&candidate(Some(""), Some("s"))), Some("".to_string()));
}

#[test]
fn collect_references_keeps_order() {
    let candidates = vec![
        candidate(None, Some("/a.png")),
        candidate(None, None),
        candidate(Some("/b.pdf"), None),
        candidate(Some("/c"), Some("/d")),
        candidate(None, Some("/a.png")),
    ];
    assert_eq!(
        collect_references(&candidates),
        vec!["/a.png".to_string(), "/b.pdf".to_string(), "/c".to_string(), "/a.png".to_string()]
    );
    assert_eq!(collect_references(&vec![]), Vec::<String>::new());
}

#[test]
fn select_candidates_reads_both_attributes() {
    let html = r#"
        <html><body>
          <a href="one.html" class="x">one</a>
          <p><img alt="pic" src="two.png"></p>
          <a>no href</a>
          <img href="h" src="s">
          <link href="style.css">
        </body></html>
    "#;
    assert_eq!(
        select_candidates(html),
        vec![
            candidate(Some("one.html"), None),
            candidate(None, Some("two.png")),
            candidate(Some("h"), Some("s")),
        ]
    );
    assert_eq!(select_candidates("plain text, no markup"), vec![]);
}

#[test]
fn page_references_are_verbatim_attribute_values() {
    let html = r#"<A HREF=" /spaced.pdf ">x</A><IMG SRC='q.png?a=1&amp;b=2'>"#;
    assert_eq!(
        page_references(html),
        vec![" /spaced.pdf ".to_string(), "q.png?a=1&b=2".to_string()]
    );
}

#[test]
fn page_size_limit() {
    assert_eq!(MAX_PAGE_BYTES, 536_870_912);
}

#[test]
fn page_beyond_the_limit_is_not_parsed() {
    let link = r#"<a href="/a.pdf">a</a>"#;
    let mut html = String::with_capacity(MAX_PAGE_BYTES + 1);
    html.push_str(link);
    while html.len() <= MAX_PAGE_BYTES {
        let room = MAX_PAGE_BYTES + 1 - html.len();
        let chunk = " ".repeat(room.min(1 << 20));
        html.push_str(&chunk);
    }
    assert_eq!(html.len(), MAX_PAGE_BYTES + 1);
    assert_eq!(select_candidates(&html), vec![]);
    assert_eq!(page_references(&html), Vec::<String>::new());
    assert_eq!(extract_urls_from_html(&html, "https://site.test/"), vec![]);
    assert_eq!(
        extract_file_urls(&html, "https://site.test/", &vec![]),
        Err(ExtractError::NoMatchingResources { extensions: vec![] })
    );
    assert_eq!(
        extract_file_urls(link, "https://site.test/", &vec![]),
        Ok(vec!["https://site.test/a.pdf".to_string()])
    );
}
