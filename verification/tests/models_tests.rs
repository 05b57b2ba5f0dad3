use mcp_websearch::models::{JsonRpcError, SearchParams};

#[test]
fn test_search_params_clamping() {
    // Test lower bound
    let params = SearchParams::new("test", 0, 0);
    assert_eq!(params.limit, 1); // Should clamp to minimum

    // Test upper bound
    let params = SearchParams::new("test", 10000, 0);
    assert_eq!(params.limit, 9999); // Should clamp to maximum

    // Test normal values
    let params = SearchParams::new("test", 10, 5);
    assert_eq!(params.limit, 10);
    assert_eq!(params.offset, 5);
    assert_eq!(params.query, "test");
}

#[test]
fn test_json_rpc_error_creation() {
    let error = JsonRpcError::new(-32600, "Test error");
    assert_eq!(error.code, -32600);
    assert_eq!(error.message, "Test error");
}
