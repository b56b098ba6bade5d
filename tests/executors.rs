use tetrad::classifier::analyze_text_response;
use tetrad::executors::{build_prompt, CodexExecutor, GeminiExecutor, QwenExecutor, SpawnOutcome};
use tetrad::errors::TetradError;
use tetrad::parser::ExecutorResponse;
use tetrad::types::{EvaluationRequest, EvaluationType, Vote};

#[test]
fn test_executor_response_into_vote() {
    let response = ExecutorResponse {
        vote: "PASS".to_string(),
        score: 85,
        reasoning: "Código bom".to_string(),
        issues: vec![],
        suggestions: vec!["Adicionar testes".to_string()],
    };
    let vote = response.into_vote("test");
    assert_eq!(vote.executor, "test");
    assert_eq!(vote.score, 85);
    assert_eq!(vote.suggestions.len(), 1);
}

#[test]
fn into_vote_reads_labels_in_any_case() {
    let mk = |v: &str| ExecutorResponse {
        vote: v.to_string(),
        score: 1,
        reasoning: String::new(),
        issues: vec![],
        suggestions: vec![],
    };
    assert_eq!(mk("pass").into_vote("x").vote, Vote::Pass);
    assert_eq!(mk("Warn").into_vote("x").vote, Vote::Warn);
    assert_eq!(mk("maybe").into_vote("x").vote, Vote::Fail);
}

#[test]
fn test_parse_json_with_code_fence() {
    let output = r#"
Here is my analysis:
```json
{"vote": "PASS", "score": 90, "reasoning": "Good", "issues": [], "suggestions": []}
```
That's my response.
"#;
    let response = ExecutorResponse::parse_from_output(output, "Test");
    assert!(response.is_ok());
    let response = response.unwrap();
    assert_eq!(response.vote, "PASS");
    assert_eq!(response.score, 90);
}

#[test]
fn test_parse_json_with_multiple_braces() {
    let output = r#"
The function `fn foo() { bar() }` looks good.
{"vote": "WARN", "score": 70, "reasoning": "Minor issues", "issues": ["issue1"], "suggestions": []}
End of response.
"#;
    let response = ExecutorResponse::parse_from_output(output, "Test");
    assert!(response.is_ok());
    let response = response.unwrap();
    assert_eq!(response.vote, "WARN");
    assert_eq!(response.score, 70);
}

#[test]
fn test_parse_json_with_nested_json() {
    let output = r#"
Some text with nested object: {"other": "data"}
{"vote": "FAIL", "score": 30, "reasoning": "Bad code", "issues": ["bug"], "suggestions": ["fix"]}
"#;
    let response = ExecutorResponse::parse_from_output(output, "Test");
    assert!(response.is_ok());
    let response = response.unwrap();
    assert_eq!(response.vote, "FAIL");
    assert_eq!(response.score, 30);
}

#[test]
fn test_parse_json_direct() {
    let output = r#"{"vote": "PASS", "score": 100, "reasoning": "Perfect", "issues": [], "suggestions": []}"#;
    let response = ExecutorResponse::parse_from_output(output, "Test");
    assert!(response.is_ok());
    let response = response.unwrap();
    assert_eq!(response.vote, "PASS");
    assert_eq!(response.score, 100);
}

#[test]
fn test_parse_json_no_valid_json() {
    let output = "No JSON here, just some text with { random braces }";
    let response = ExecutorResponse::parse_from_output(output, "Test");
    assert!(response.is_err());
}

#[test]
fn parse_error_names_the_evaluator() {
    match ExecutorResponse::parse_from_output("nothing", "Qwen") {
        Err(TetradError::ExecutorFailed(name, _)) => assert_eq!(name, "Qwen"),
        _ => panic!("expected an ExecutorFailed error"),
    }
}

#[test]
fn balanced_scan_honours_strings_and_escapes() {
    let text: Vec<char> = r#"x {"a": "}\"{", "vote": 1, "score": 2} y"#.chars().collect();
    let found = ExecutorResponse::find_balanced_json(&text).unwrap();
    let s: String = found.iter().collect();
    assert_eq!(s, r#"{"a": "}\"{", "vote": 1, "score": 2}"#);
}

#[test]
fn strip_fences_keeps_content() {
    let text: Vec<char> = "a```json\nX\n```b".chars().collect();
    let out: String = ExecutorResponse::strip_code_fences(&text).iter().collect();
    assert_eq!(out, "aX\nb");
}

#[test]
fn codex_test_parse_response_valid() {
    let output = r#"
            Some text before
            {"vote": "PASS", "score": 85, "reasoning": "Good code", "issues": [], "suggestions": []}
            Some text after
        "#;
    let response = ExecutorResponse::parse_from_output(output, "Codex");
    assert!(response.is_ok());
    let response = response.unwrap();
    assert_eq!(response.vote, "PASS");
    assert_eq!(response.score, 85);
}

#[test]
fn test_parse_response_invalid() {
    let output = "No JSON here";
    let response = ExecutorResponse::parse_from_output(output, "Codex");
    assert!(response.is_err());
}

#[test]
fn codex_test_specialization() {
    let executor = CodexExecutor::new();
    assert_eq!(executor.specialization(), "syntax");
}

#[test]
fn test_parse_codex_events() {
    let output = r#"{"type":"thread.started","thread_id":"test-123"}
{"type":"turn.started"}
{"type":"item.completed","item":{"id":"item_0","type":"reasoning","text":"Thinking..."}}
{"type":"item.completed","item":{"id":"item_1","type":"agent_message","text":"Código aprovado sem problemas."}}
{"type":"turn.completed","usage":{"input_tokens":100,"output_tokens":50}}"#;
    let message = CodexExecutor::parse_codex_events(output);
    assert!(message.is_some());
    assert_eq!(message.unwrap(), "Código aprovado sem problemas.");
}

#[test]
fn test_parse_codex_events_no_agent_message() {
    let output = r#"{"type":"thread.started","thread_id":"test-123"}
{"type":"turn.started"}
{"type":"item.completed","item":{"id":"item_0","type":"reasoning","text":"Thinking..."}}"#;
    let message = CodexExecutor::parse_codex_events(output);
    assert!(message.is_none());
}

#[test]
fn codex_test_analyze_text_response_pass() {
    let text = "O código está correto e bem estruturado. Bom trabalho!";
    let response = analyze_text_response(text);
    assert_eq!(response.vote, "PASS");
    assert!(response.score >= 80);
}

#[test]
fn codex_test_analyze_text_response_warn() {
    let text = "O código funciona, mas considere adicionar tratamento de overflow.";
    let response = analyze_text_response(text);
    assert_eq!(response.vote, "WARN");
    assert!(response.score >= 50 && response.score < 80);
}

#[test]
fn codex_test_analyze_text_response_fail() {
    let text = "Erro crítico: vulnerabilidade de segurança detectada.";
    let response = analyze_text_response(text);
    assert_eq!(response.vote, "FAIL");
    assert!(response.score < 50);
}

#[test]
fn codex_test_default_args() {
    let executor = CodexExecutor::new();
    assert_eq!(executor.args, vec!["exec", "--json"]);
}

#[test]
fn gemini_test_specialization() {
    let executor = GeminiExecutor::new();
    assert_eq!(executor.specialization(), "architecture");
}

#[test]
fn gemini_wrapper_with_vote_object() {
    let output = r#"{"session_id": "abc", "response": "{\"vote\": \"PASS\", \"score\": 88, \"reasoning\": \"ok\"}", "stats": {}}"#;
    let response = GeminiExecutor::parse_gemini_output(output).unwrap();
    assert_eq!(response.vote, "PASS");
    assert_eq!(response.score, 88);
}

#[test]
fn gemini_log_prefix_keyword_score() {
    let output = "Loaded cached credentials.\n{\"response\": \"Código perfeito\"}";
    let response = GeminiExecutor::parse_gemini_output(output).unwrap();
    assert_eq!(response.vote, "PASS");
    assert_eq!(response.score, 95);
}

#[test]
fn gemini_test_analyze_text_response_pass() {
    let text = "A função está correta e bem estruturada. Código idiomático.";
    let response = analyze_text_response(text);
    assert_eq!(response.vote, "PASS");
    assert!(response.score >= 80);
}

#[test]
fn gemini_test_analyze_text_response_warn() {
    let text = "O código funciona, mas considere adicionar tratamento de overflow para maior segurança.";
    let response = analyze_text_response(text);
    assert_eq!(response.vote, "WARN");
    assert!(response.score >= 50 && response.score < 80);
}

#[test]
fn gemini_test_analyze_text_response_fail() {
    let text = "Erro crítico: vulnerabilidade de segurança detectada no código.";
    let response = analyze_text_response(text);
    assert_eq!(response.vote, "FAIL");
    assert!(response.score < 50);
}

#[test]
fn test_analyze_text_extracts_issues() {
    let text = "Problemas encontrados:\n- Falta documentação\n- Nomes de variáveis pouco claros\n* Ausência de testes";
    let response = analyze_text_response(text);
    assert_eq!(response.issues.len(), 3);
}

#[test]
fn analyze_text_caps_and_strips_bullets() {
    let text = "- a\n- b\n* c\n• d\n  - - e\n- f";
    let response = analyze_text_response(text);
    assert_eq!(response.issues, vec!["a", "b", "c", "d", "e"]);
    assert_eq!(response.score, 80);
    let long: String = "x".repeat(600);
    assert_eq!(analyze_text_response(&long).reasoning.chars().count(), 500);
}

#[test]
fn analyze_text_score_bands() {
    assert_eq!(analyze_text_response("Excelente").score, 95);
    assert_eq!(analyze_text_response("Código bom").score, 85);
    assert_eq!(analyze_text_response("issue menor").score, 70);
    assert_eq!(analyze_text_response("issue").score, 60);
    assert_eq!(analyze_text_response("Security vulnerability").score, 35);
}

#[test]
fn gemini_test_default_args() {
    let executor = GeminiExecutor::new();
    assert_eq!(executor.args, vec!["-o", "json"]);
}

#[test]
fn qwen_test_specialization() {
    let executor = QwenExecutor::new();
    assert_eq!(executor.specialization(), "logic");
}

#[test]
fn missing_binary_gives_neutral_vote() {
    let vote = QwenExecutor::new().interpret(&SpawnOutcome::NotFound).unwrap();
    assert_eq!(vote.executor, "Qwen");
    assert_eq!(vote.vote, Vote::Warn);
    assert_eq!(vote.score, 50);
}

#[test]
fn timeout_is_an_error() {
    match CodexExecutor::new().interpret(&SpawnOutcome::TimedOut) {
        Err(TetradError::ExecutorTimeout(name)) => assert_eq!(name, "Codex"),
        _ => panic!("expected a timeout"),
    }
}

#[test]
fn qwen_failed_run_reports_stderr() {
    let outcome = SpawnOutcome::Finished {
        success: false,
        stdout: String::new(),
        stderr: "boom".to_string(),
    };
    match QwenExecutor::new().interpret(&outcome) {
        Err(TetradError::ExecutorFailed(name, msg)) => {
            assert_eq!(name, "Qwen");
            assert_eq!(msg, "boom");
        }
        _ => panic!("expected a failure"),
    }
}

#[test]
fn prompt_exact_header() {
    let request = EvaluationRequest::new("fn main() {}", "rust");
    let prompt = build_prompt(&request);
    assert!(prompt.starts_with("Evaluate the following rust code for code.\n\nCode:\n```\nfn main() {}\n```\n\n"));
    assert!(prompt.contains("\"vote\""));
}

#[test]
fn prompt_with_kind_and_context() {
    let request = EvaluationRequest::new("x", "python")
        .with_type(EvaluationType::Tests)
        .with_context("Este é um teste");
    let prompt = build_prompt(&request);
    assert!(prompt.contains("Additional context:\nEste é um teste\n\n"));
    assert!(prompt.contains("python code for tests"));
}

#[test]
fn test_parse_gemini_wrapper() {
    let output = r#"{
            "session_id": "test-123",
            "response": "A função está correta e bem estruturada.",
            "stats": {}
        }"#;
    let response = GeminiExecutor::parse_gemini_output(output);
    assert!(response.is_ok());
    let response = response.unwrap();
    assert_eq!(response.vote, "PASS");
    assert!(response.score >= 80);
}

#[test]
fn test_parse_gemini_with_log_prefix() {
    let output = r#"Loaded cached credentials.
{
    "session_id": "test-123",
    "response": "Código aprovado.",
    "stats": {}
}"#;
    let response = GeminiExecutor::parse_gemini_output(output);
    assert!(response.is_ok());
}

#[test]
fn test_build_prompt() {
    let request = EvaluationRequest::new("fn main() {}", "rust");
    let prompt = build_prompt(&request);
    assert!(prompt.contains("rust"));
    assert!(prompt.contains("fn main() {}"));
    assert!(prompt.contains("JSON"));
}

#[test]
fn test_build_prompt_with_context() {
    let request = EvaluationRequest::new("fn main() {}", "rust").with_context("Este é um teste");
    let prompt = build_prompt(&request);
    assert!(prompt.contains("Este é um teste"));
}

#[test]
fn test_parse_gemini_wrapper_with_json_response() {
    let output = r#"{
            "session_id": "test-123",
            "response": "{\"vote\": \"PASS\", \"score\": 95, \"reasoning\": \"Excelente!\", \"issues\": [], \"suggestions\": []}",
            "stats": {}
        }"#;
    let response = GeminiExecutor::parse_gemini_output(output);
    assert!(response.is_ok());
    let response = response.unwrap();
    assert_eq!(response.vote, "PASS");
    assert_eq!(response.score, 95);
}

#[test]
fn gemini_test_parse_response_valid() {
    let output = r#"{"vote": "WARN", "score": 70, "reasoning": "Some issues", "issues": ["issue1"], "suggestions": []}"#;
    let response = ExecutorResponse::parse_from_output(output, "Gemini");
    assert!(response.is_ok());
    let response = response.unwrap();
    assert_eq!(response.vote, "WARN");
    assert_eq!(response.score, 70);
    assert_eq!(response.issues.len(), 1);
}

#[test]
fn qwen_test_parse_response_valid() {
    let output = r#"{"vote": "FAIL", "score": 30, "reasoning": "Critical bug", "issues": ["bug1", "bug2"], "suggestions": ["fix1"]}"#;
    let response = ExecutorResponse::parse_from_output(output, "Qwen");
    assert!(response.is_ok());
    let response = response.unwrap();
    assert_eq!(response.vote, "FAIL");
    assert_eq!(response.score, 30);
    assert_eq!(response.issues.len(), 2);
}
