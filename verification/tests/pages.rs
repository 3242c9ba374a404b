use frontier::chrome::wrap_with_url_bar;
use frontier::readme_application::{error_document, fallback_document};

#[test]
fn the_url_bar_wraps_the_page() {
    let html = wrap_with_url_bar("<h1>Hi</h1>", "https://example.com/test/page", None);
    assert!(html.starts_with("<!DOCTYPE html>"));
    assert!(html.contains("<title>Frontier Browser - https://example.com/test/page</title>"));
    assert!(html.contains("value=\"https://example.com/test/page\""));
    assert!(html.contains("<main id=\"content\" role=\"main\" aria-label=\"Page content\">\n        <h1>Hi</h1>\n    </main>"));
    assert!(html.contains("<div id=\"overlay-host\">\n        \n    </div>"));
    assert!(html.contains("navigate('frontier://back');"));
    let with_overlay = wrap_with_url_bar("", "u", Some("<aside>o</aside>"));
    assert!(with_overlay.contains("<div id=\"overlay-host\">\n        <aside>o</aside>\n    </div>"));
}

#[test]
fn failed_navigations_show_an_escaped_message() {
    let doc = error_document("bad <url> & more", "typed");
    assert_eq!(doc.base_url, "about:error");
    assert_eq!(
        doc.contents,
        "<section class=\"error\"><h2>Navigation failed</h2><p>bad &lt;url&gt; &amp; more</p></section>"
    );
    assert_eq!(doc.display_url, "typed");
    assert!(doc.scripts.is_empty());
}

#[test]
fn the_fallback_page_is_empty() {
    let doc = fallback_document("https://a.example/");
    assert_eq!(doc.base_url, "https://a.example/");
    assert_eq!(doc.contents, wrap_with_url_bar("<main id=\"content\"></main>", "https://a.example/", None));
}
