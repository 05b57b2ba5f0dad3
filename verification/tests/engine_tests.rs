use mcp_websearch::engine::{
    is_challenge_page, merge_pages, pages_needed, search_from_html, use_extended_path,
};
use mcp_websearch::limiter::RateLimiter;
use mcp_websearch::models::{SearchParams, SearchResult};

fn result_page(n: usize) -> String {
    let mut html = String::new();
    for i in 0..n {
        html.push_str(&format!(
            r#"<div class="result">
                <a class="result__a" href="https://example.com/{i}">
                    <div class="result__title">Result {i}</div>
                </a>
                <div class="result__snippet">Snippet {i}</div>
            </div>"#
        ));
    }
    html
}

fn sr(i: usize) -> SearchResult {
    SearchResult {
        title: format!("t{i}"),
        url: format!("https://example.com/{i}"),
        snippet: format!("s{i}"),
    }
}

#[test]
fn test_scenario_three_of_five() {
    let html = result_page(5);
    let params = SearchParams::new("rust programming", 3, 0);
    let resp = search_from_html(&params, &html);
    assert_eq!(resp.returned, 3);
    assert_eq!(resp.total_results, 5);
    assert_eq!(resp.results.len(), 3);
    for i in 0..3 {
        assert_eq!(resp.results[i].title, format!("Result {i}"));
        assert_eq!(resp.results[i].url, format!("https://example.com/{i}"));
    }
    assert_eq!(resp.query, "rust programming");
    assert_eq!(resp.offset, 0);
}

#[test]
fn test_returned_matches_formula() {
    let html = result_page(5);
    // returned == min(limit, max(0, total - offset)) over several shapes
    let cases: Vec<(usize, usize, usize)> = vec![
        (3, 0, 3),
        (10, 0, 5),
        (2, 4, 1),
        (2, 5, 0),
        (2, 100, 0),
        (1, 0, 1),
    ];
    for (limit, offset, expected) in cases {
        let params = SearchParams::new("q", limit, offset);
        let resp = search_from_html(&params, &html);
        assert_eq!(resp.total_results, 5);
        assert_eq!(resp.returned, expected);
        assert_eq!(resp.results.len(), expected);
    }
}

#[test]
fn test_zero_valid_entries_zero_totals() {
    let params = SearchParams::new("q", 10, 0);
    let resp = search_from_html(&params, "<div><p>nothing structured here</p></div>");
    assert_eq!(resp.total_results, 0);
    assert_eq!(resp.returned, 0);
    assert!(resp.results.is_empty());
}

#[test]
fn test_challenge_page_yields_zero_result_success() {
    let params = SearchParams::new("q", 10, 0);
    let challenge = format!(
        "<html><body><div class=\"anomaly-modal\">{}</div></body></html>",
        result_page(3)
    );
    assert!(is_challenge_page(&challenge));
    let resp = search_from_html(&params, &challenge);
    assert_eq!(resp.total_results, 0);
    assert_eq!(resp.returned, 0);
    assert!(resp.results.is_empty());

    let challenge2 = "<form id=\"challenge-submit\"></form>";
    assert!(is_challenge_page(challenge2));
    let resp2 = search_from_html(&params, challenge2);
    assert_eq!(resp2.returned, 0);

    assert!(!is_challenge_page(&result_page(1)));
}

#[test]
fn test_routing_by_size() {
    assert!(!use_extended_path(1));
    assert!(!use_extended_path(50));
    assert!(use_extended_path(51));
    assert!(use_extended_path(9999));
}

#[test]
fn test_pages_needed() {
    assert_eq!(pages_needed(100, 0), 4); // ceil(100/30)
    assert_eq!(pages_needed(30, 0), 1);
    assert_eq!(pages_needed(31, 0), 2);
    assert_eq!(pages_needed(60, 30), 3);
    assert_eq!(pages_needed(9999, 0), 100); // capped
    assert_eq!(pages_needed(1, usize::MAX), 100); // capped whatever the offset
}

#[test]
fn test_merge_pages_stops_at_target() {
    let pages = vec![
        vec![sr(0), sr(1)],
        vec![sr(2), sr(3)],
        vec![sr(4), sr(5)],
    ];
    // Two results short of the target after page one; page two is consumed
    // whole and page three is never touched.
    let merged = merge_pages(&pages, 3);
    assert_eq!(merged.len(), 4);
    for (i, r) in merged.iter().enumerate() {
        assert_eq!(r.title, format!("t{i}"));
    }
    // A zero target consumes nothing.
    assert_eq!(merge_pages(&pages, 0).len(), 0);
    // A huge target consumes everything that is there.
    assert_eq!(merge_pages(&pages, 100).len(), 6);
}

#[test]
fn test_rate_limiter_window() {
    let mut limiter = RateLimiter::new(2);
    // An empty window imposes no wait.
    assert_eq!(limiter.wait_millis(0), 0);
    limiter.record(0);
    assert_eq!(limiter.wait_millis(1000), 0);
    limiter.record(1000);
    // The window is full: wait until the oldest entry leaves the minute.
    assert_eq!(limiter.wait_millis(2000), 58000);
    assert_eq!(limiter.wait_millis(59999), 1);
    assert_eq!(limiter.wait_millis(60000), 0);
    // Pruning at a later time empties the window and clears the wait.
    limiter.prune(70000);
    assert_eq!(limiter.wait_millis(70000), 0);
    // Pruning keeps entries still inside the trailing minute.
    limiter.record(70000);
    limiter.record(100000);
    limiter.prune(120000);
    // 70000 left the window at 130000; it is still inside at 120000.
    assert_eq!(limiter.wait_millis(120000), 10000);
}
