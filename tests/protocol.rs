use tetrad::hooks::{HookEvent, LoggingHook, MetricsHook, Hook, HookContext, HookResult, HookSystem, BuiltinHook};
use tetrad::protocol::{
    InitializeResult, JsonRpcError, JsonRpcId, JsonRpcNotification, JsonRpcRequest, JsonRpcResponse,
    ToolContent, ToolResult, INVALID_PARAMS, INVALID_REQUEST, METHOD_NOT_FOUND, PARSE_ERROR,
};
use tetrad::server::{respond, McpServer, Step};
use tetrad::types::{Decision, EvaluationRequest, EvaluationResult};

fn mcp_message(content: &str) -> String {
    format!("Content-Length: {}\r\n\r\n{}", content.len(), content)
}

#[test]
fn test_mcp_message_format() {
    let content = r#"{"jsonrpc":"2.0","id":1,"method":"test"}"#;
    let msg = mcp_message(content);
    assert!(msg.starts_with("Content-Length: "));
    assert!(msg.contains("\r\n\r\n"));
    assert!(msg.ends_with(content));
}

#[test]
fn protocol_test_json_rpc_id_number() {
    let id: JsonRpcId = 42.into();
    assert_eq!(id, JsonRpcId::Number(42));
}

#[test]
fn protocol_test_json_rpc_id_string() {
    let id: JsonRpcId = "test-id".into();
    assert_eq!(id, JsonRpcId::String("test-id".to_string()));
}

#[test]
fn protocol_test_tool_result_success() {
    let result = ToolResult::success("Operation completed");
    assert!(!result.is_error);
    assert_eq!(result.content.len(), 1);
}

#[test]
fn protocol_test_tool_result_error() {
    let result = ToolResult::error("Something went wrong");
    assert!(result.is_error);
}

#[test]
fn tool_content_text() {
    match ToolContent::text("hi") {
        ToolContent::Text { text } => assert_eq!(text, "hi"),
    }
}

#[test]
fn test_initialize_result_default() {
    let result = InitializeResult::default_result();
    assert_eq!(result.server_info.name, "tetrad");
    assert!(result.capabilities.tools.is_some());
    assert_eq!(result.protocol_version, "2024-11-05");
}

#[test]
fn test_json_rpc_error_codes() {
    assert_eq!(JsonRpcError::parse_error().code, PARSE_ERROR);
    assert_eq!(JsonRpcError::invalid_request().code, INVALID_REQUEST);
    assert_eq!(JsonRpcError::method_not_found("test").code, METHOD_NOT_FOUND);
    assert_eq!(JsonRpcError::invalid_params("x").code, INVALID_PARAMS);
    assert_eq!(JsonRpcError::method_not_found("foo").message, "Method not found: foo");
}

#[test]
fn protocol_test_json_rpc_response_error() {
    let response = JsonRpcResponse::error(Some(1.into()), JsonRpcError::method_not_found("unknown"));
    assert!(response.is_error());
    assert!(response.result.is_none());
    assert!(response.error.is_some());
}

#[test]
fn test_notification() {
    let notif = JsonRpcNotification::new("initialized");
    assert_eq!(notif.method, "initialized");
    assert!(notif.params.is_none());
}

#[test]
fn every_request_gets_one_response_with_its_id() {
    let r = respond(&Some(JsonRpcId::Number(7)), Ok(serde_json::Value::Null)).unwrap();
    assert_eq!(r.id, Some(JsonRpcId::Number(7)));
    assert_eq!(r.jsonrpc, "2.0");
    assert!(!r.is_error());
    let e = respond(&Some(JsonRpcId::String("a".to_string())), Err(JsonRpcError::invalid_request())).unwrap();
    assert_eq!(e.id, Some(JsonRpcId::String("a".to_string())));
    assert!(e.is_error());
    assert!(respond(&None, Ok(serde_json::Value::Null)).is_none());
}

#[test]
fn server_lifecycle_and_routing() {
    let mut server = McpServer::new();
    assert!(!server.is_initialized());
    assert!(matches!(server.step(&JsonRpcRequest::new("initialize", Some(1.into()))), Step::Initialize));
    assert!(server.is_initialized());
    assert!(matches!(server.step(&JsonRpcRequest::new("tools/list", Some(2.into()))), Step::ListTools));
    match server.step(&JsonRpcRequest::new("nope", Some(3.into()))) {
        Step::Fail(e) => assert_eq!(e.code, METHOD_NOT_FOUND),
        _ => panic!("expected method not found"),
    }
    match server.step(&JsonRpcRequest::new("tools/call", Some(4.into()))) {
        Step::Fail(e) => assert_eq!(e.code, INVALID_PARAMS),
        _ => panic!("expected invalid params"),
    }
    let call = JsonRpcRequest::new("tools/call", Some(5.into()))
        .with_params(serde_json::from_str(r#"{"name":"tetrad_status","arguments":{}}"#).unwrap());
    match server.step(&call) {
        Step::CallTool { name, arguments } => {
            assert_eq!(name, "tetrad_status");
            assert!(arguments.is_some());
        }
        _ => panic!("expected a tool call"),
    }
    assert!(matches!(server.step(&JsonRpcRequest::new("shutdown", Some(6.into()))), Step::Shutdown));
    assert!(!server.is_initialized());
}

#[test]
fn builtin_test_logging_hook_name() {
    let hook = LoggingHook::new();
    assert_eq!(hook.name(), "logging");
}

#[test]
fn builtin_test_logging_hook_event() {
    let hook = LoggingHook::new();
    assert_eq!(hook.event(), HookEvent::PostEvaluate);
}

#[test]
fn test_metrics_hook_name() {
    let hook = MetricsHook::new();
    assert_eq!(hook.name(), "metrics");
}

#[test]
fn test_metrics_hook_event() {
    let hook = MetricsHook::new();
    assert_eq!(hook.event(), HookEvent::PostEvaluate);
}

#[test]
fn test_hook_event_display() {
    assert_eq!(HookEvent::PreEvaluate.to_string(), "pre_evaluate");
    assert_eq!(HookEvent::PostEvaluate.to_string(), "post_evaluate");
    assert_eq!(HookEvent::OnConsensus.to_string(), "on_consensus");
    assert_eq!(HookEvent::OnBlock.to_string(), "on_block");
}

fn result_with(decision: Decision, score: u8) -> EvaluationResult {
    let mut r = EvaluationResult::success("test-123", score, "Test feedback");
    r.decision = decision;
    r
}

#[test]
fn metrics_hook_counts_by_decision() {
    let mut hook = MetricsHook::new();
    let request = EvaluationRequest::new("fn main() {}", "rust");
    for (d, s) in [(Decision::Pass, 90), (Decision::Revise, 60), (Decision::Block, 30)] {
        let result = result_with(d, s);
        let ctx = HookContext::PostEvaluate { request: &request, result: &result };
        assert!(matches!(hook.execute(&ctx), Ok(HookResult::Continue)));
    }
    assert_eq!(hook.total_evaluations(), 3);
    assert_eq!(hook.total_passes(), 1);
    assert_eq!(hook.total_revises(), 1);
    assert_eq!(hook.total_blocks(), 1);
    assert_eq!(hook.score_sum(), 180);
}

#[test]
fn metrics_hook_starts_empty_snapshot() {
    let hook = MetricsHook::new();
    assert_eq!(hook.total_evaluations(), 0);
    assert_eq!(hook.metrics().score_sum, 0);
}

#[test]
fn test_hook_context_event() {
    let request = EvaluationRequest::new("fn main() {}", "rust");
    let result = result_with(Decision::Pass, 85);
    assert_eq!(HookContext::PreEvaluate { request: &request }.event(), HookEvent::PreEvaluate);
    assert_eq!(
        HookContext::PostEvaluate { request: &request, result: &result }.event(),
        HookEvent::PostEvaluate
    );
    assert_eq!(HookContext::OnConsensus { result: &result }.event(), HookEvent::OnConsensus);
    assert_eq!(HookContext::OnBlock { result: &result }.event(), HookEvent::OnBlock);
}

#[test]
fn test_hook_system_with_defaults() {
    let system = HookSystem::with_defaults();
    assert_eq!(system.count(), 1);
    assert_eq!(system.count_for_event(HookEvent::PostEvaluate), 1);
}

#[test]
fn hook_registration_by_event() {
    let mut system: HookSystem<BuiltinHook> = HookSystem::new();
    assert_eq!(system.count(), 0);
    system.register(BuiltinHook::Metrics(MetricsHook::new()));
    assert_eq!(system.count(), 1);
    assert_eq!(system.count_for_event(HookEvent::PostEvaluate), 1);
    assert_eq!(system.count_for_event(HookEvent::PreEvaluate), 0);
}

#[test]
fn pre_evaluate_without_hooks_continues() {
    let mut system = HookSystem::with_defaults();
    let request = EvaluationRequest::new("x", "rust");
    assert!(matches!(system.run_pre_evaluate(&request), Ok(HookResult::Continue)));
}
