use std::sync::atomic::{AtomicUsize, Ordering};
use std::sync::Arc;

use tetrad::errors::TetradError;
use tetrad::hooks::{Hook, HookContext, HookEvent, HookResult, HookSystem, MetricsHook};
use tetrad::tools::{Prepared, ToolHandler};
use tetrad::config::Config;
use tetrad::types::{EvaluationRequest, EvaluationResult};

struct CountingHook {
    name: String,
    event: HookEvent,
    count: Arc<AtomicUsize>,
    answer: fn() -> HookResult,
}

fn keep_going() -> HookResult {
    HookResult::Continue
}

fn skip() -> HookResult {
    HookResult::Skip
}

impl CountingHook {
    fn new(name: &str, event: HookEvent, count: Arc<AtomicUsize>) -> Self {
        CountingHook { name: name.to_string(), event, count, answer: keep_going }
    }
}

impl Hook for CountingHook {
    fn name(&self) -> &str {
        &self.name
    }

    fn event(&self) -> HookEvent {
        self.event
    }

    fn execute(&mut self, _context: &HookContext) -> Result<HookResult, TetradError> {
        self.count.fetch_add(1, Ordering::SeqCst);
        Ok((self.answer)())
    }
}

fn create_test_request() -> EvaluationRequest {
    EvaluationRequest::new("fn main() {}", "rust")
}

fn create_test_result() -> EvaluationResult {
    EvaluationResult::success("test-123", 85, "Test feedback")
}

#[test]
fn test_hook_system_new() {
    let system: HookSystem<CountingHook> = HookSystem::new();
    assert_eq!(system.count(), 0);
}

#[test]
fn test_hook_registration() {
    let mut system = HookSystem::new();
    let count = Arc::new(AtomicUsize::new(0));
    system.register(CountingHook::new("test", HookEvent::PreEvaluate, count));
    assert_eq!(system.count_for_event(HookEvent::PreEvaluate), 1);
    assert_eq!(system.count_for_event(HookEvent::PostEvaluate), 0);
}

#[test]
fn test_pre_evaluate_hook() {
    let mut system = HookSystem::new();
    let count = Arc::new(AtomicUsize::new(0));
    system.register(CountingHook::new("test", HookEvent::PreEvaluate, count.clone()));
    let request = create_test_request();
    let result = system.run_pre_evaluate(&request).unwrap();
    assert!(matches!(result, HookResult::Continue));
    assert_eq!(count.load(Ordering::SeqCst), 1);
}

#[test]
fn test_post_evaluate_hook() {
    let mut system = HookSystem::new();
    let count = Arc::new(AtomicUsize::new(0));
    system.register(CountingHook::new("test", HookEvent::PostEvaluate, count.clone()));
    system.run_post_evaluate(&create_test_request(), &create_test_result()).unwrap();
    assert_eq!(count.load(Ordering::SeqCst), 1);
}

#[test]
fn test_on_consensus_hook() {
    let mut system = HookSystem::new();
    let count = Arc::new(AtomicUsize::new(0));
    system.register(CountingHook::new("test", HookEvent::OnConsensus, count.clone()));
    system.run_on_consensus(&create_test_result()).unwrap();
    assert_eq!(count.load(Ordering::SeqCst), 1);
}

#[test]
fn test_on_block_hook() {
    let mut system = HookSystem::new();
    let count = Arc::new(AtomicUsize::new(0));
    system.register(CountingHook::new("test", HookEvent::OnBlock, count.clone()));
    system.run_on_block(&create_test_result()).unwrap();
    assert_eq!(count.load(Ordering::SeqCst), 1);
}

#[test]
fn test_multiple_hooks_chain() {
    let mut system = HookSystem::new();
    let count1 = Arc::new(AtomicUsize::new(0));
    let count2 = Arc::new(AtomicUsize::new(0));
    system.register(CountingHook::new("first", HookEvent::PreEvaluate, count1.clone()));
    system.register(CountingHook::new("second", HookEvent::PreEvaluate, count2.clone()));
    system.run_pre_evaluate(&create_test_request()).unwrap();
    assert_eq!(count1.load(Ordering::SeqCst), 1);
    assert_eq!(count2.load(Ordering::SeqCst), 1);
}

#[test]
fn first_non_continue_short_circuits() {
    let mut system = HookSystem::new();
    let count1 = Arc::new(AtomicUsize::new(0));
    let count2 = Arc::new(AtomicUsize::new(0));
    let mut skipper = CountingHook::new("first", HookEvent::PreEvaluate, count1.clone());
    skipper.answer = skip;
    system.register(skipper);
    system.register(CountingHook::new("second", HookEvent::PreEvaluate, count2.clone()));
    let r = system.run_pre_evaluate(&create_test_request()).unwrap();
    assert!(matches!(r, HookResult::Skip));
    assert_eq!(count1.load(Ordering::SeqCst), 1);
    assert_eq!(count2.load(Ordering::SeqCst), 0);
}

#[test]
fn test_metrics_hook_empty() {
    let hook = MetricsHook::new();
    assert_eq!(hook.total_evaluations(), 0);
    assert_eq!(hook.total_passes(), 0);
    assert_eq!(hook.score_sum(), 0);
}

#[test]
fn test_list_tools() {
    let tools = ToolHandler::list_tools();
    assert_eq!(tools.len(), 6);
    let tool_names: Vec<&str> = tools.iter().map(|t| t.name.as_str()).collect();
    assert!(tool_names.contains(&"tetrad_review_plan"));
    assert!(tool_names.contains(&"tetrad_review_code"));
    assert!(tool_names.contains(&"tetrad_review_tests"));
    assert!(tool_names.contains(&"tetrad_confirm"));
    assert!(tool_names.contains(&"tetrad_final_check"));
    assert!(tool_names.contains(&"tetrad_status"));
    assert!(tools[1].cacheable);
}

#[test]
fn plain_request_goes_to_evaluators() {
    let mut handler = ToolHandler::new(Config::default_config());
    match handler.prepare(create_test_request(), 0).unwrap() {
        Prepared::Run(_) => {}
        _ => panic!("without hooks that skip, the evaluators are asked"),
    }
}
