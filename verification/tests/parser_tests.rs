use mcp_websearch::parser::parse_results;
use mcp_websearch::urls::extract_real_url;

#[test]
fn test_parse_results_static() {
    let html = r#"
        <div class="web-result">
            <a class="result__a" href="https://example.com/test">
                <div class="result__title">Test Title</div>
            </a>
            <div class="result__snippet">Test snippet content</div>
        </div>
        <div class="web-result">
            <a class="result__a" href="/l/?uddg=https://bad-example.com">
                <div class="result__title">Redirect Link</div>
            </a>
            <div class="result__snippet">This should be filtered</div>
        </div>
    "#;

    let results = parse_results(html);

    // The redirect-wrapped entry is decoded, not dropped, so both entries
    // are admitted; the first stays first in document order.
    assert_eq!(results.len(), 2);
    assert_eq!(results[0].title, "Test Title");
    assert_eq!(results[0].url, "https://example.com/test");
    assert_eq!(results[0].snippet, "Test snippet content");
}

#[test]
fn test_parse_results_filters_redirects() {
    let html = r#"
        <div class="web-result">
            <a class="result__a" href="/l/?uddg=https://redirect.com">
                <div class="result__title">Redirect Title</div>
            </a>
            <div class="result__snippet">Redirect snippet</div>
        </div>
        <div class="web-result">
            <a class="result__a" href="/l/another">
                <div class="result__title">Another Redirect</div>
            </a>
            <div class="result__snippet">Another redirect snippet</div>
        </div>
    "#;

    let results = parse_results(html);

    // The redirect-wrapped entry resolves to its carried destination; the
    // bare relative link has no resolvable URL and is dropped.
    assert_eq!(results.len(), 1);
    assert_eq!(results[0].title, "Redirect Title");
    assert_eq!(results[0].url, "https://redirect.com");
}

#[test]
fn test_parse_results_empty_html() {
    let html = r#"<div>No results here</div>"#;
    let results = parse_results(html);
    assert_eq!(results.len(), 0);
}

#[test]
fn test_parse_results_malformed_html() {
    let html = r#"
        <div class="web-result">
            <a class="result__a" href="">
                <div class="result__title"></div>
            </a>
        </div>
        <div class="web-result">
            <a class="result__a" href="https://valid.com">
                <div class="result__title">Valid Result</div>
            </a>
        </div>
    "#;

    let results = parse_results(html);

    // Only the valid result should be included
    assert_eq!(results.len(), 1);
    assert_eq!(results[0].title, "Valid Result");
    assert_eq!(results[0].url, "https://valid.com");
}

#[test]
fn test_ad_entries_never_present() {
    let html = r#"
        <div class="result">
            <a class="result__a" href="https://duckduckgo.com/y.js?ad_provider=x">
                <div class="result__title">Sponsored Thing</div>
            </a>
            <div class="result__snippet">Buy now</div>
        </div>
        <div class="result">
            <a class="result__a" href="https://organic.example.com/page">
                <div class="result__title">Organic Result</div>
            </a>
            <div class="result__snippet">Real content</div>
        </div>
    "#;

    let results = parse_results(html);

    assert_eq!(results.len(), 1);
    assert_eq!(results[0].title, "Organic Result");
    assert_eq!(results[0].url, "https://organic.example.com/page");
    for r in &results {
        assert!(!r.url.contains("y.js"));
    }
}

#[test]
fn test_redirect_url_decodes() {
    let url = extract_real_url("https://duckduckgo.com/redirect?uddg=https%3A%2F%2Fexample.com%2Fx");
    assert_eq!(url.as_deref(), Some("https://example.com/x"));
}

#[test]
fn test_redirect_param_cut_at_ampersand() {
    let url = extract_real_url("/l/?uddg=https%3A%2F%2Fexample.com%2Fx&rut=abc123");
    assert_eq!(url.as_deref(), Some("https://example.com/x"));
}

#[test]
fn test_protocol_relative_url() {
    let url = extract_real_url("//foo.com/bar");
    assert_eq!(url.as_deref(), Some("https://foo.com/bar"));
}

#[test]
fn test_absolute_urls_pass_through() {
    assert_eq!(
        extract_real_url("https://example.com/a").as_deref(),
        Some("https://example.com/a"),
    );
    assert_eq!(
        extract_real_url("http://example.com/a").as_deref(),
        Some("http://example.com/a"),
    );
}

#[test]
fn test_unresolvable_url_dropped() {
    assert_eq!(extract_real_url("/relative/path"), None);
    assert_eq!(extract_real_url("javascript:void(0)"), None);
    assert_eq!(extract_real_url(""), None);
}
