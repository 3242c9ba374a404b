use frontier::js::script_fetcher::resolve_url;

#[test]
fn test_resolve_url_absolute() {
    let result = resolve_url("https://example.com/script.js", "https://base.com/page.html");
    assert_eq!(result.unwrap(), "https://example.com/script.js");
}

#[test]
fn test_resolve_url_relative() {
    let result = resolve_url("script.js", "https://base.com/page.html");
    assert_eq!(result.unwrap(), "https://base.com/script.js");
}

#[test]
fn test_resolve_url_relative_path() {
    let result = resolve_url("../lib/script.js", "https://base.com/app/page.html");
    assert_eq!(result.unwrap(), "https://base.com/lib/script.js");
}

#[test]
fn test_resolve_url_absolute_path() {
    let result = resolve_url("/assets/script.js", "https://base.com/app/page.html");
    assert_eq!(result.unwrap(), "https://base.com/assets/script.js");
}

#[test]
fn resolve_url_refuses_a_bad_base() {
    let result = resolve_url("script.js", "not a url");
    assert_eq!(result.unwrap_err(), "invalid base URL: not a url");
}

#[test]
fn resolve_url_keeps_file_urls() {
    let result = resolve_url("file:///tmp/a.js", "https://base.com/");
    assert_eq!(result.unwrap(), "file:///tmp/a.js");
}
