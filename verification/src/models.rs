//! Data model: search parameters, results, responses, protocol error and
//! tool-response shapes, and extracted page content.

use vstd::prelude::*;

verus! {

/// Smallest admitted result limit.
pub const LIMIT_MIN: usize = 1;

/// Largest admitted result limit.
pub const LIMIT_MAX: usize = 9999;

/// The limit a query is clamped to.
pub open spec fn clamped_limit(limit: int) -> int {
    if limit < LIMIT_MIN as int {
        LIMIT_MIN as int
    } else if limit > LIMIT_MAX as int {
        LIMIT_MAX as int
    } else {
        limit
    }
}

/// Search parameters; the limit is clamped at construction and never
/// silently changed afterwards.
pub struct SearchParams {
    pub query: String,
    pub limit: usize,
    pub offset: usize,
}

impl SearchParams {
    /// A parameter set is well formed when its limit lies in the clamp range.
    pub open spec fn wf(&self) -> bool {
        LIMIT_MIN <= self.limit <= LIMIT_MAX
    }

    /// Builds a parameter set, clamping the limit into its admitted range.
    pub fn new(query: &str, limit: usize, offset: usize) -> (r: SearchParams)
        ensures
            r.query@ == query@,
            r.limit == clamped_limit(limit as int),
            r.offset == offset,
            r.wf(),
    {
        let clamped = if limit < LIMIT_MIN {
            LIMIT_MIN
        } else if limit > LIMIT_MAX {
            LIMIT_MAX
        } else {
            limit
        };
        SearchParams { query: query.to_owned(), limit: clamped, offset }
    }
}

/// One search result; all three fields are non-empty for admitted entries.
pub struct SearchResult {
    pub title: String,
    pub url: String,
    pub snippet: String,
}

impl DeepView for SearchResult {
    type V = (Seq<char>, Seq<char>, Seq<char>);

    open spec fn deep_view(&self) -> Self::V {
        (self.title@, self.url@, self.snippet@)
    }
}

impl Clone for SearchResult {
    fn clone(&self) -> (r: Self)
        ensures
            r == *self,
    {
        SearchResult {
            title: self.title.clone(),
            url: self.url.clone(),
            snippet: self.snippet.clone(),
        }
    }
}

/// A search response: the slice of results asked for, together with how many
/// the page matched in total.
pub struct SearchResponse {
    pub query: String,
    pub results: Vec<SearchResult>,
    pub total_results: usize,
    pub returned: usize,
    pub offset: usize,
}

impl SearchResponse {
    /// The counters agree with the carried results.
    pub open spec fn wf(&self) -> bool {
        self.returned == self.results@.len() && self.total_results >= self.returned
    }
}

/// JSON-RPC error payload.
pub struct JsonRpcError {
    pub code: i32,
    pub message: String,
}

impl JsonRpcError {
    /// Builds an error value carrying the given code and message.
    pub fn new(code: i32, message: &str) -> (r: JsonRpcError)
        ensures
            r.code == code,
            r.message@ == message@,
    {
        JsonRpcError { code, message: message.to_owned() }
    }
}

/// One item of tool output.
pub struct ToolContent {
    pub content_type: String,
    pub text: String,
}

/// The payload a tool invocation hands back.
pub struct ToolResponse {
    pub content: Vec<ToolContent>,
    pub is_error: Option<bool>,
}

/// Cleaned page text together with whether it was cut at the size ceiling.
pub struct ExtractedPage {
    pub text: String,
    pub truncated: bool,
}

} // verus!
