//! Request-routing decisions: which operation a protocol method names, what
//! a tool invocation does with its arguments, and the error payloads for
//! malformed requests.

use vstd::prelude::*;
use crate::models::{clamped_limit, JsonRpcError, SearchParams, ToolContent, ToolResponse};
use crate::text::str_eq;

verus! {

/// The protocol error code for a request that cannot be served.
pub const INVALID_REQUEST_CODE: i32 = -32600;

/// Where a protocol request is routed.
#[derive(Debug, PartialEq, Eq, Structural)]
pub enum MethodRoute {
    ToolsList,
    ToolsCall,
    Initialize,
    Unknown,
}

/// Routes a protocol method name to the operation it names.
pub fn route_method(method: &str) -> (r: MethodRoute)
    ensures
        method@ == "tools/list"@ ==> r == MethodRoute::ToolsList,
        method@ == "tools/call"@ ==> r == MethodRoute::ToolsCall,
        method@ == "initialize"@ ==> r == MethodRoute::Initialize,
        method@ != "tools/list"@ && method@ != "tools/call"@ && method@ != "initialize"@
            ==> r == MethodRoute::Unknown,
{
    proof {
        reveal_strlit("tools/list");
        reveal_strlit("tools/call");
        reveal_strlit("initialize");
        assert("tools/list"@ != "tools/call"@) by {
            assert("tools/list"@[6] == 'l');
            assert("tools/call"@[6] == 'c');
        }
        assert("tools/list"@ != "initialize"@) by {
            assert("tools/list"@[0] == 't');
            assert("initialize"@[0] == 'i');
        }
        assert("tools/call"@ != "initialize"@) by {
            assert("tools/call"@[0] == 't');
            assert("initialize"@[0] == 'i');
        }
    }
    if str_eq(method, "tools/list") {
        MethodRoute::ToolsList
    } else if str_eq(method, "tools/call") {
        MethodRoute::ToolsCall
    } else if str_eq(method, "initialize") {
        MethodRoute::Initialize
    } else {
        MethodRoute::Unknown
    }
}

/// What a tool invocation was decided to do.
pub enum ToolPlan {
    /// Fetch and extract the page behind the given URL.
    FetchContent { url: String },
    /// Run a web search with the given parameters.
    WebSearch { params: SearchParams },
    /// The tool name is not known.
    UnknownTool { name: String },
    /// A required argument is missing; the message names it.
    MissingParameter { message: String },
}

/// Decides what a tool invocation does: a content fetch needs a URL, a web
/// search needs a query (its limit defaults to 10 and is clamped, its offset
/// defaults to 0), a missing required argument yields a parameter error, and
/// any other tool name is unknown.
pub fn plan_tool_call(
    name: &str,
    url: Option<&str>,
    query: Option<&str>,
    limit: Option<usize>,
    offset: Option<usize>,
) -> (r: ToolPlan)
    ensures
        name@ == "fetch_content"@ && url is Some ==> (r matches ToolPlan::FetchContent {
            url: u,
        } && u@ == url->Some_0@),
        name@ == "fetch_content"@ && url is None ==> (r matches ToolPlan::MissingParameter {
            message,
        } && message@ == "Missing 'url' parameter"@),
        name@ != "fetch_content"@ && name@ == "web_search"@ && query is Some ==> (
        r matches ToolPlan::WebSearch { params } && params.query@ == query->Some_0@
            && params.limit == clamped_limit(
            (if limit is Some {
                limit->Some_0
            } else {
                10usize
            }) as int,
        ) && params.offset == (if offset is Some {
            offset->Some_0
        } else {
            0usize
        }) && params.wf()),
        name@ != "fetch_content"@ && name@ == "web_search"@ && query is None ==> (
        r matches ToolPlan::MissingParameter { message } && message@
            == "Missing 'query' parameter"@),
        name@ != "fetch_content"@ && name@ != "web_search"@ ==> (r matches ToolPlan::UnknownTool {
            name: n,
        } && n@ == name@),
{
    if str_eq(name, "fetch_content") {
        match url {
            Some(u) => ToolPlan::FetchContent { url: u.to_owned() },
            None => ToolPlan::MissingParameter {
                message: "Missing 'url' parameter".to_owned(),
            },
        }
    } else if str_eq(name, "web_search") {
        match query {
            Some(q) => {
                let lim = match limit {
                    Some(l) => l,
                    None => 10,
                };
                let off = match offset {
                    Some(o) => o,
                    None => 0,
                };
                ToolPlan::WebSearch { params: SearchParams::new(q, lim, off) }
            },
            None => ToolPlan::MissingParameter {
                message: "Missing 'query' parameter".to_owned(),
            },
        }
    } else {
        ToolPlan::UnknownTool { name: name.to_owned() }
    }
}

/// The tool response for an unknown tool name: a single text item naming the
/// tool, flagged as an error.
pub fn unknown_tool_response(name: &str) -> (r: ToolResponse)
    ensures
        r.content@.len() == 1,
        r.content@[0].content_type@ == "text"@,
        r.content@[0].text@ == "Unknown tool: "@ + name@,
        r.is_error == Some(true),
{
    let mut text = String::new();
    text.append("Unknown tool: ");
    text.append(name);
    proof {
        assert(text@ =~= "Unknown tool: "@ + name@);
    }
    let mut content: Vec<ToolContent> = Vec::new();
    content.push(ToolContent { content_type: "text".to_owned(), text });
    ToolResponse { content, is_error: Some(true) }
}

/// A successful tool response carrying one text item.
pub fn text_response(text: String) -> (r: ToolResponse)
    ensures
        r.content@.len() == 1,
        r.content@[0].content_type@ == "text"@,
        r.content@[0].text == text,
        r.is_error is None,
{
    let mut content: Vec<ToolContent> = Vec::new();
    content.push(ToolContent { content_type: "text".to_owned(), text });
    ToolResponse { content, is_error: None }
}

/// The protocol error for a method this service does not offer.
pub fn unknown_method_error(method: &str) -> (r: JsonRpcError)
    ensures
        r.code == INVALID_REQUEST_CODE,
        r.message@ == "Unknown method: "@ + method@,
{
    let mut message = String::new();
    message.append("Unknown method: ");
    message.append(method);
    proof {
        assert(message@ =~= "Unknown method: "@ + method@);
    }
    JsonRpcError { code: INVALID_REQUEST_CODE, message }
}

/// The protocol error for a tool call without parameters.
pub fn missing_params_error() -> (r: JsonRpcError)
    ensures
        r.code == INVALID_REQUEST_CODE,
        r.message@ == "Missing params"@,
{
    JsonRpcError::new(INVALID_REQUEST_CODE, "Missing params")
}

} // verus!
