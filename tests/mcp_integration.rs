use tetrad::cache::EvaluationCache;
use tetrad::hooks::{Hook, HookContext, HookEvent, HookResult, HookSystem, LoggingHook};
use tetrad::protocol::{
    JsonRpcError, JsonRpcId, JsonRpcResponse, ToolResult, INTERNAL_ERROR, INVALID_PARAMS,
    INVALID_REQUEST, METHOD_NOT_FOUND, PARSE_ERROR,
};
use tetrad::transport::parse_request;
use tetrad::types::{EvaluationRequest, EvaluationResult, EvaluationType};

fn sample_result() -> EvaluationResult {
    EvaluationResult::success("test-123", 85, "Looks good!")
}

fn sample_request() -> EvaluationRequest {
    EvaluationRequest::new("fn main() {}", "rust")
}

#[test]
fn test_json_rpc_request_parsing() {
    let json_str = r#"{"jsonrpc":"2.0","id":1,"method":"initialize","params":{}}"#;
    let request = parse_request(json_str).unwrap();
    assert_eq!(request.jsonrpc, "2.0");
    assert!(matches!(request.id, Some(JsonRpcId::Number(1))));
    assert_eq!(request.method, "initialize");
}

#[test]
fn mcp_integration_test_json_rpc_response_success() {
    let response = JsonRpcResponse::success(Some(JsonRpcId::Number(1)), serde_json::from_str(r#"{"status": "ok"}"#).unwrap());
    assert_eq!(response.jsonrpc, "2.0");
    assert!(response.error.is_none());
    assert!(response.result.is_some());
}

#[test]
fn mcp_integration_test_json_rpc_response_error() {
    let response = JsonRpcResponse::error(
        Some(JsonRpcId::Number(1)),
        JsonRpcError::method_not_found("unknown_method"),
    );
    assert_eq!(response.jsonrpc, "2.0");
    assert!(response.error.is_some());
    assert!(response.result.is_none());
    let error = response.error.unwrap();
    assert_eq!(error.code, METHOD_NOT_FOUND);
}

#[test]
fn mcp_integration_test_tool_result_success() {
    let result = ToolResult::success("Hello, World!");
    assert!(!result.is_error);
    assert_eq!(result.content.len(), 1);
}

#[test]
fn mcp_integration_test_tool_result_error() {
    let result = ToolResult::error("Something went wrong");
    assert!(result.is_error);
}

#[test]
fn test_error_codes() {
    assert_eq!(PARSE_ERROR, -32700);
    assert_eq!(INVALID_REQUEST, -32600);
    assert_eq!(METHOD_NOT_FOUND, -32601);
    assert_eq!(INVALID_PARAMS, -32602);
    assert_eq!(INTERNAL_ERROR, -32603);
}

#[test]
fn test_json_rpc_error_constructors() {
    assert_eq!(JsonRpcError::parse_error().code, PARSE_ERROR);
    assert_eq!(JsonRpcError::invalid_request().code, INVALID_REQUEST);
    assert_eq!(JsonRpcError::method_not_found("unknown").code, METHOD_NOT_FOUND);
    assert_eq!(JsonRpcError::invalid_params("bad param").code, INVALID_PARAMS);
    assert_eq!(JsonRpcError::internal_error("unexpected").code, INTERNAL_ERROR);
}

#[test]
fn test_cache_insert_and_get() {
    let mut cache = EvaluationCache::new(10, 300);
    cache.insert_by_code("fn main() {}", "rust", &EvaluationType::Code, sample_result());
    let cached = cache.get_by_code("fn main() {}", "rust", &EvaluationType::Code);
    assert!(cached.is_some());
    assert_eq!(cached.unwrap().score, 85);
}

#[test]
fn mcp_integration_test_cache_miss() {
    let mut cache = EvaluationCache::new(10, 300);
    assert!(cache.get_by_code("fn main() {}", "rust", &EvaluationType::Code).is_none());
}

#[test]
fn test_cache_different_keys() {
    let mut cache = EvaluationCache::new(10, 300);
    cache.insert_by_code("fn main() {}", "rust", &EvaluationType::Code, sample_result());
    assert!(cache.get_by_code("fn main() { println!(); }", "rust", &EvaluationType::Code).is_none());
    assert!(cache.get_by_code("fn main() {}", "python", &EvaluationType::Code).is_none());
    assert!(cache.get_by_code("fn main() {}", "rust", &EvaluationType::Tests).is_none());
}

#[test]
fn mcp_integration_test_cache_lru_eviction() {
    let mut cache = EvaluationCache::new(2, 300);
    cache.insert_by_code("code1", "rust", &EvaluationType::Code, sample_result());
    cache.insert_by_code("code2", "rust", &EvaluationType::Code, sample_result());
    cache.insert_by_code("code3", "rust", &EvaluationType::Code, sample_result());
    assert!(cache.get_by_code("code1", "rust", &EvaluationType::Code).is_none());
    assert!(cache.get_by_code("code3", "rust", &EvaluationType::Code).is_some());
}

#[test]
fn mcp_integration_test_cache_clear() {
    let mut cache = EvaluationCache::new(10, 300);
    cache.insert_by_code("code1", "rust", &EvaluationType::Code, sample_result());
    cache.insert_by_code("code2", "rust", &EvaluationType::Code, sample_result());
    cache.clear();
    assert!(cache.get_by_code("code1", "rust", &EvaluationType::Code).is_none());
}

#[test]
fn mcp_integration_test_cache_stats() {
    let cache = EvaluationCache::new(100, 300);
    let stats = cache.stats();
    assert_eq!(stats.capacity, 100);
    assert_eq!(stats.size, 0);
}

#[test]
fn mcp_integration_test_logging_hook_name() {
    let hook = LoggingHook;
    assert_eq!(hook.name(), "logging");
}

#[test]
fn mcp_integration_test_logging_hook_event() {
    let hook = LoggingHook;
    assert_eq!(hook.event(), HookEvent::PostEvaluate);
}

#[test]
fn mcp_integration_test_logging_hook_execute() {
    let mut hook = LoggingHook;
    let request = sample_request();
    let result = sample_result();
    let ctx = HookContext::PostEvaluate { request: &request, result: &result };
    assert!(matches!(hook.execute(&ctx), Ok(HookResult::Continue)));
}

#[test]
fn test_hook_system_registration() {
    let mut system: HookSystem<LoggingHook> = HookSystem::new();
    system.register(LoggingHook);
    let request = sample_request();
    let result = sample_result();
    system.run_post_evaluate(&request, &result).unwrap();
}

#[test]
fn test_hook_system_pre_evaluate() {
    let mut system: HookSystem<LoggingHook> = HookSystem::new();
    let request = sample_request();
    let result = system.run_pre_evaluate(&request).unwrap();
    assert!(matches!(result, HookResult::Continue));
}

#[test]
fn test_hook_result_variants() {
    let _continue = HookResult::Continue;
    let _skip = HookResult::Skip;
    let _modify = HookResult::ModifyRequest(sample_request());
}

#[test]
fn test_hook_context_variants() {
    let request = sample_request();
    let result = sample_result();
    let _pre = HookContext::PreEvaluate { request: &request };
    let _post = HookContext::PostEvaluate { request: &request, result: &result };
    let _consensus = HookContext::OnConsensus { result: &result };
    let _block = HookContext::OnBlock { result: &result };
}
