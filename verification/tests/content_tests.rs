use mcp_websearch::content::{
    clean_content, extract_content, extract_page, extract_text_content,
};

const HEADER: &str = "Webpage Content:\n\n";
const MARKER: &str = "\n\n[Content truncated due to size...]";

#[test]
fn test_extract_text_skips_boilerplate() {
    let html = "<html><body><p>Hello world</p>\
        <script>var x = 1;</script>\
        <style>p { color: red }</style>\
        <nav>Home About</nav>\
        <footer>Copyright notice</footer>\
        </body></html>";
    let text = extract_text_content(html);
    assert_eq!(text, "Hello world");
}

#[test]
fn test_extract_text_drops_one_char_noise() {
    let html = "<html><body><p>Useful sentence</p><span>x</span><span>of text</span></body></html>";
    let text = extract_text_content(html);
    assert_eq!(text, "Useful sentence of text");
}

#[test]
fn test_container_chosen_when_long_enough() {
    let long = "long article body ".repeat(20); // well over 200 chars
    let html = format!(
        "<html><body><div>site chrome text</div><article><p>{}</p></article></body></html>",
        long.trim()
    );
    let text = extract_content(&html);
    assert!(text.contains("long article body"));
    assert!(!text.contains("site chrome text"));
}

#[test]
fn test_fallback_to_whole_body_when_containers_short() {
    let html = "<html><body><article>tiny</article>\
        <p>Some meaningful body text here</p></body></html>";
    let text = extract_content(html);
    // No container passed the threshold, so the whole body was used, and a
    // body with text nodes yields non-empty text.
    assert_eq!(text, "tiny Some meaningful body text here");
    assert!(!text.is_empty());
}

#[test]
fn test_clean_content_plain() {
    let ep = clean_content("hello world");
    assert_eq!(ep.text, "Webpage Content:\n\nhello world");
    assert!(!ep.truncated);
}

#[test]
fn test_clean_content_line_rules() {
    // A short line before any content is kept; after content it is dropped;
    // blank lines vanish; whitespace runs collapse.
    let ep = clean_content("ab\ncd   efg\n\nx\nnext  line");
    assert_eq!(ep.text, "Webpage Content:\n\nab cd efg next line");
    assert!(!ep.truncated);
}

#[test]
fn test_clean_content_truncates_at_ceiling() {
    let input = "word ".repeat(4000); // collapses to 19999 chars
    let ep = clean_content(&input);
    assert!(ep.truncated);
    assert!(ep.text.ends_with(MARKER));
    let len = ep.text.chars().count();
    assert_eq!(
        len,
        HEADER.chars().count() + 10000 + MARKER.chars().count()
    );

    let small = clean_content("short text");
    assert!(!small.truncated);
    assert!(small.text.chars().count() <= HEADER.chars().count() + 10000);
    assert!(!small.text.ends_with(MARKER));
}

#[test]
fn test_fetch_content_error_page() {
    let ep = extract_page("https://example.com/missing", 404, "<html>ignored</html>");
    assert!(ep.text.contains("404"));
    assert!(ep.text.contains("https://example.com/missing"));
    assert!(!ep.truncated);
    assert_eq!(
        ep.text,
        "HTTP Error: 404 - Failed to fetch content from: https://example.com/missing"
    );
}

#[test]
fn test_fetch_content_success_page() {
    let ep = extract_page(
        "https://example.com/ok",
        200,
        "<html><body><p>Body of the fetched page</p></body></html>",
    );
    assert_eq!(ep.text, "Webpage Content:\n\nBody of the fetched page");
    assert!(!ep.truncated);
}
