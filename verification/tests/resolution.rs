use resource_urls::error::ExtractError;
use resource_urls::resolve::{
    keep_with_host, parse_absolute, resolve_reference, resolve_references, ResolvedUrl,
};

fn parts(text: &str, path: &str, has_host: bool) -> ResolvedUrl {
    ResolvedUrl { text: text.to_string(), path: path.to_string(), has_host }
}

#[test]
fn resolving_a_resolved_url_again_changes_nothing() {
    let bases = [
        "https://site.test/dir/page.html",
        "http://site.test",
        "https://user@site.test:8443/a/b/?q=1#frag",
    ];
    let references = [
        "a.png",
        "/img/a.png",
        "//cdn.example.com/a.jpg",
        "https://x.com/a.png",
        "../up/one.pdf",
        "./here.mp4?x=1&y=2#part",
        "sp ace/file name.pdf",
        "?only=query",
        "#only-fragment",
        "",
        "HTTPS://UPPER.example/Path/../File.PDF",
    ];
    for base in bases {
        for reference in references {
            let first = resolve_reference(base, reference).expect("resolves");
            let second = resolve_reference(base, &first.text).expect("resolves again");
            assert_eq!(second, first);
        }
    }
}

#[test]
fn parse_absolute_reads_the_parts() {
    assert_eq!(
        parse_absolute("https://example.com/api/versions?page=2#top"),
        Ok(parts("https://example.com/api/versions?page=2#top", "/api/versions", true))
    );
    assert_eq!(
        parse_absolute("https://example.com"),
        Ok(parts("https://example.com/", "/", true))
    );
    assert_eq!(
        parse_absolute("HTTP://Example.COM/a/../b.png"),
        Ok(parts("http://example.com/b.png", "/b.png", true))
    );
    assert_eq!(
        parse_absolute("mailto:someone@example.com"),
        Ok(parts("mailto:someone@example.com", "someone@example.com", false))
    );
    assert_eq!(
        parse_absolute("data:text/plain,Stuff"),
        Ok(parts("data:text/plain,Stuff", "text/plain,Stuff", false))
    );
}

#[test]
fn parse_absolute_rejects_what_is_not_absolute() {
    for input in ["", "a.png", "/img/a.png", "//cdn.example.com/a.jpg", "https://", "http://[::1"] {
        assert_eq!(parse_absolute(input), Err(ExtractError::Configuration));
    }
}

#[test]
fn resolve_reference_follows_the_four_forms() {
    assert_eq!(
        resolve_reference("https://site.test/page", "https://x.com/a.png"),
        Some(parts("https://x.com/a.png", "/a.png", true))
    );
    assert_eq!(
        resolve_reference("https://site.test/page", "//cdn.example.com/a.jpg"),
        Some(parts("https://cdn.example.com/a.jpg", "/a.jpg", true))
    );
    assert_eq!(
        resolve_reference("https://site.test/dir/page", "/img/a.png"),
        Some(parts("https://site.test/img/a.png", "/img/a.png", true))
    );
    assert_eq!(
        resolve_reference("https://site.test/dir/page.html", "a.png"),
        Some(parts("https://site.test/dir/a.png", "/dir/a.png", true))
    );
    assert_eq!(
        resolve_reference("https://site.test/a/b/", "c.png"),
        Some(parts("https://site.test/a/b/c.png", "/a/b/c.png", true))
    );
}

#[test]
fn resolve_reference_drops_what_names_no_resource() {
    assert_eq!(resolve_reference("https://site.test/", "mailto:a@b.c"), None);
    assert_eq!(resolve_reference("https://site.test/", "javascript:void(0)"), None);
    assert_eq!(resolve_reference("https://site.test/", "https://[bad]/x"), None);
    assert_eq!(resolve_reference("https://site.test/", "http://host:99999/x"), None);
    assert_eq!(resolve_reference("", "a.png"), None);
    assert_eq!(resolve_reference("mailto:a@b.c", "a.png"), None);
    assert_eq!(resolve_reference("relative/base", "https://x.com/a.png"), None);
}

#[test]
fn resolve_references_keeps_order_and_skips_failures() {
    let references = vec![
        "b.pdf".to_string(),
        "mailto:a@b.c".to_string(),
        "/a.png".to_string(),
        "b.pdf".to_string(),
    ];
    assert_eq!(
        resolve_references("https://site.test/d/p", &references),
        vec![
            parts("https://site.test/d/b.pdf", "/d/b.pdf", true),
            parts("https://site.test/a.png", "/a.png", true),
            parts("https://site.test/d/b.pdf", "/d/b.pdf", true),
        ]
    );
    assert_eq!(resolve_references("https://site.test/", &vec![]), vec![]);
}

#[test]
fn nothing_resolves_against_a_base_that_is_not_absolute() {
    let references = vec![
        "a.png".to_string(),
        "/b.pdf".to_string(),
        "https://x.com/c.png".to_string(),
        "//cdn.example.com/d.jpg".to_string(),
    ];
    for base in ["", "page.html", "/dir/page.html", "//site.test/page", "https://"] {
        assert_eq!(parse_absolute(base), Err(ExtractError::Configuration));
        assert_eq!(resolve_references(base, &references), vec![]);
        for reference in &references {
            assert_eq!(resolve_reference(base, reference), None);
        }
    }
}

#[test]
fn keep_with_host_keeps_only_urls_with_a_host() {
    let with = parts("https://h.test/a", "/a", true);
    let without = parts("mailto:a@b.c", "a@b.c", false);
    assert_eq!(keep_with_host(Some(with.clone())), Some(with));
    assert_eq!(keep_with_host(Some(without)), None);
    assert_eq!(keep_with_host(None), None);
}
