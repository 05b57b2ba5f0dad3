use mcp_websearch::dispatch::{
    missing_params_error, plan_tool_call, route_method, text_response, unknown_method_error,
    unknown_tool_response, MethodRoute, ToolPlan,
};
use mcp_websearch::format::format_results_for_llm;
use mcp_websearch::models::{SearchResponse, SearchResult};

#[test]
fn test_route_method() {
    assert_eq!(route_method("tools/list"), MethodRoute::ToolsList);
    assert_eq!(route_method("tools/call"), MethodRoute::ToolsCall);
    assert_eq!(route_method("initialize"), MethodRoute::Initialize);
    assert_eq!(route_method("unknown/method"), MethodRoute::Unknown);
    assert_eq!(route_method(""), MethodRoute::Unknown);
}

#[test]
fn test_plan_fetch_content() {
    let plan = plan_tool_call("fetch_content", Some("https://example.com"), None, None, None);
    match plan {
        ToolPlan::FetchContent { url } => assert_eq!(url, "https://example.com"),
        _ => panic!("expected a fetch plan"),
    }

    let plan = plan_tool_call("fetch_content", None, None, None, None);
    match plan {
        ToolPlan::MissingParameter { message } => {
            assert_eq!(message, "Missing 'url' parameter")
        }
        _ => panic!("expected a parameter error"),
    }
}

#[test]
fn test_plan_web_search() {
    let plan = plan_tool_call("web_search", None, Some("test query"), Some(5), Some(2));
    match plan {
        ToolPlan::WebSearch { params } => {
            assert_eq!(params.query, "test query");
            assert_eq!(params.limit, 5);
            assert_eq!(params.offset, 2);
        }
        _ => panic!("expected a search plan"),
    }

    // Defaults apply when limit and offset are absent; the limit is clamped.
    let plan = plan_tool_call("web_search", None, Some("q"), None, None);
    match plan {
        ToolPlan::WebSearch { params } => {
            assert_eq!(params.limit, 10);
            assert_eq!(params.offset, 0);
        }
        _ => panic!("expected a search plan"),
    }
    let plan = plan_tool_call("web_search", None, Some("q"), Some(0), None);
    match plan {
        ToolPlan::WebSearch { params } => assert_eq!(params.limit, 1),
        _ => panic!("expected a search plan"),
    }

    let plan = plan_tool_call("web_search", None, None, Some(5), Some(2));
    match plan {
        ToolPlan::MissingParameter { message } => {
            assert_eq!(message, "Missing 'query' parameter")
        }
        _ => panic!("expected a parameter error"),
    }
}

#[test]
fn test_plan_unknown_tool() {
    let plan = plan_tool_call("unknown_tool", None, Some("test"), None, None);
    match plan {
        ToolPlan::UnknownTool { name } => assert_eq!(name, "unknown_tool"),
        _ => panic!("expected an unknown-tool plan"),
    }
}

#[test]
fn test_tool_responses() {
    let r = unknown_tool_response("unknown_tool");
    assert_eq!(r.content.len(), 1);
    assert_eq!(r.content[0].content_type, "text");
    assert!(r.content[0].text.contains("Unknown tool"));
    assert_eq!(r.content[0].text, "Unknown tool: unknown_tool");
    assert_eq!(r.is_error, Some(true));

    let ok = text_response("payload".to_string());
    assert_eq!(ok.content.len(), 1);
    assert_eq!(ok.content[0].content_type, "text");
    assert_eq!(ok.content[0].text, "payload");
    assert_eq!(ok.is_error, None);
}

#[test]
fn test_protocol_errors() {
    let e = unknown_method_error("unknown/method");
    assert_eq!(e.code, -32600);
    assert_eq!(e.message, "Unknown method: unknown/method");

    let e = missing_params_error();
    assert_eq!(e.code, -32600);
    assert_eq!(e.message, "Missing params");
}

#[test]
fn test_format_results_listing() {
    let resp = SearchResponse {
        query: "q".to_string(),
        results: vec![
            SearchResult {
                title: "T1".to_string(),
                url: "https://example.com/1".to_string(),
                snippet: "S1".to_string(),
            },
            SearchResult {
                title: "T2".to_string(),
                url: "https://example.com/2".to_string(),
                snippet: "S2".to_string(),
            },
        ],
        total_results: 2,
        returned: 2,
        offset: 0,
    };
    let text = format_results_for_llm(&resp);
    assert_eq!(
        text,
        "Found 2 search results for \"q\":\n\n\
         1. T1\n   URL: https://example.com/1\n   Summary: S1\n\n\
         2. T2\n   URL: https://example.com/2\n   Summary: S2\n\n"
    );
}

#[test]
fn test_format_results_empty() {
    let resp = SearchResponse {
        query: "nothing here".to_string(),
        results: vec![],
        total_results: 0,
        returned: 0,
        offset: 0,
    };
    let text = format_results_for_llm(&resp);
    assert_eq!(
        text,
        "No results found for: nothing here\n\n\
         This could be due to rate limiting or no matches. Try rephrasing your search."
    );
}
