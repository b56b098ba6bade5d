use tetrad::aggregator::VoteAggregator;
use tetrad::config::{ConsensusConfig, ConsensusRule as ConsensusRuleConfig};
use tetrad::engine::ConsensusEngine;
use tetrad::rules::{create_rule, ConsensusRule, GoldenRule, StrongRule, WeakRule};
use tetrad::types::{Decision, Finding, ModelVote, Severity, Vote};

fn create_vote(name: &str, vote: Vote, score: u8) -> ModelVote {
    ModelVote::new(name, vote, score)
}

fn create_votes(votes: Vec<(&str, Vote, u8)>) -> Vec<ModelVote> {
    votes.into_iter().map(|(n, v, s)| create_vote(n, v, s)).collect()
}

fn create_vote_with_issues(
    name: &str,
    vote: Vote,
    score: u8,
    issues: Vec<&str>,
    suggestions: Vec<&str>,
) -> ModelVote {
    let mut mv = ModelVote::new(name, vote, score);
    mv.issues = issues.into_iter().map(String::from).collect();
    mv.suggestions = suggestions.into_iter().map(String::from).collect();
    mv
}

fn create_config(rule: ConsensusRuleConfig, min_score: u8, max_loops: u8) -> ConsensusConfig {
    ConsensusConfig { default_rule: rule, min_score, max_loops }
}

#[test]
fn test_golden_rule_all_pass() {
    let rule = GoldenRule;
    let votes = create_votes(vec![
        ("Codex", Vote::Pass, 85),
        ("Gemini", Vote::Pass, 90),
        ("Qwen", Vote::Pass, 88),
    ]);
    assert_eq!(rule.evaluate(&votes, 70), Decision::Pass);
    assert!(rule.is_consensus_achieved(&votes, 70));
}

#[test]
fn rules_test_golden_rule_one_fail() {
    let rule = GoldenRule;
    let votes = create_votes(vec![
        ("Codex", Vote::Pass, 85),
        ("Gemini", Vote::Fail, 40),
        ("Qwen", Vote::Pass, 88),
    ]);
    assert_eq!(rule.evaluate(&votes, 70), Decision::Block);
    assert!(!rule.is_consensus_achieved(&votes, 70));
}

#[test]
fn test_golden_rule_low_score() {
    let rule = GoldenRule;
    let votes = create_votes(vec![
        ("Codex", Vote::Pass, 60),
        ("Gemini", Vote::Pass, 65),
        ("Qwen", Vote::Pass, 68),
    ]);
    assert_eq!(rule.evaluate(&votes, 70), Decision::Revise);
}

#[test]
fn test_strong_rule_all_pass() {
    let rule = StrongRule;
    let votes = create_votes(vec![
        ("Codex", Vote::Pass, 85),
        ("Gemini", Vote::Pass, 90),
        ("Qwen", Vote::Pass, 88),
    ]);
    assert_eq!(rule.evaluate(&votes, 70), Decision::Pass);
    assert!(rule.is_consensus_achieved(&votes, 70));
}

#[test]
fn test_strong_rule_not_unanimous_revise() {
    let rule = StrongRule;
    let votes = create_votes(vec![
        ("Codex", Vote::Pass, 85),
        ("Gemini", Vote::Pass, 90),
        ("Qwen", Vote::Warn, 65),
    ]);
    assert_eq!(rule.evaluate(&votes, 70), Decision::Revise);
}

#[test]
fn test_strong_rule_not_unanimous_fail() {
    let rule = StrongRule;
    let votes = create_votes(vec![
        ("Codex", Vote::Fail, 30),
        ("Gemini", Vote::Fail, 25),
        ("Qwen", Vote::Pass, 85),
    ]);
    assert_eq!(rule.evaluate(&votes, 70), Decision::Revise);
}

#[test]
fn test_strong_rule_all_fail() {
    let rule = StrongRule;
    let votes = create_votes(vec![
        ("Codex", Vote::Fail, 30),
        ("Gemini", Vote::Fail, 25),
        ("Qwen", Vote::Fail, 20),
    ]);
    assert_eq!(rule.evaluate(&votes, 70), Decision::Block);
}

#[test]
fn test_weak_rule_two_pass() {
    let rule = WeakRule;
    let votes = create_votes(vec![
        ("Codex", Vote::Pass, 85),
        ("Gemini", Vote::Pass, 90),
        ("Qwen", Vote::Fail, 30),
    ]);
    assert_eq!(rule.evaluate(&votes, 70), Decision::Pass);
    assert!(rule.is_consensus_achieved(&votes, 70));
}

#[test]
fn test_weak_rule_two_fail() {
    let rule = WeakRule;
    let votes = create_votes(vec![
        ("Codex", Vote::Fail, 30),
        ("Gemini", Vote::Fail, 25),
        ("Qwen", Vote::Pass, 85),
    ]);
    assert_eq!(rule.evaluate(&votes, 70), Decision::Block);
}

#[test]
fn test_weak_rule_no_majority() {
    let rule = WeakRule;
    let votes = create_votes(vec![
        ("Codex", Vote::Pass, 85),
        ("Gemini", Vote::Warn, 60),
        ("Qwen", Vote::Fail, 30),
    ]);
    assert_eq!(rule.evaluate(&votes, 70), Decision::Revise);
}

#[test]
fn test_create_rule() {
    let golden = create_rule(&ConsensusRuleConfig::Golden);
    assert_eq!(golden.name(), "golden");
    let strong = create_rule(&ConsensusRuleConfig::Strong);
    assert_eq!(strong.name(), "strong");
    let weak = create_rule(&ConsensusRuleConfig::Weak);
    assert_eq!(weak.name(), "weak");
}

#[test]
fn test_new_engine() {
    let engine = ConsensusEngine::new(create_config(ConsensusRuleConfig::Strong, 70, 3));
    assert_eq!(engine.rule_name(), "strong");
    assert_eq!(engine.min_score(), 70);
    assert_eq!(engine.max_loops(), 3);
}

#[test]
fn test_evaluate_pass() {
    let engine = ConsensusEngine::new(create_config(ConsensusRuleConfig::Strong, 70, 3));
    let votes = create_votes(vec![
        ("Codex", Vote::Pass, 85),
        ("Gemini", Vote::Pass, 90),
        ("Qwen", Vote::Pass, 88),
    ]);
    let result = engine.evaluate(votes, "test-123");
    assert_eq!(result.decision, Decision::Pass);
    assert!(result.consensus_achieved);
}

#[test]
fn test_evaluate_block() {
    let engine = ConsensusEngine::new(create_config(ConsensusRuleConfig::Strong, 70, 3));
    let votes = create_votes(vec![
        ("Codex", Vote::Fail, 30),
        ("Gemini", Vote::Fail, 25),
        ("Qwen", Vote::Fail, 20),
    ]);
    let result = engine.evaluate(votes, "test-123");
    assert_eq!(result.decision, Decision::Block);
}

#[test]
fn test_can_retry() {
    let engine = ConsensusEngine::new(create_config(ConsensusRuleConfig::Strong, 70, 3));
    assert!(engine.can_retry(0));
    assert!(engine.can_retry(1));
    assert!(engine.can_retry(2));
    assert!(!engine.can_retry(3));
    assert!(!engine.can_retry(4));
}

#[test]
fn engine_test_golden_rule_engine() {
    let engine = ConsensusEngine::new(create_config(ConsensusRuleConfig::Golden, 80, 3));
    assert_eq!(engine.rule_name(), "golden");
    let votes = create_votes(vec![
        ("Codex", Vote::Pass, 85),
        ("Gemini", Vote::Warn, 75),
        ("Qwen", Vote::Pass, 88),
    ]);
    let result = engine.evaluate(votes, "test-123");
    assert_eq!(result.decision, Decision::Revise);
}

#[test]
fn engine_test_weak_rule_engine() {
    let engine = ConsensusEngine::new(create_config(ConsensusRuleConfig::Weak, 70, 3));
    assert_eq!(engine.rule_name(), "weak");
    let votes = create_votes(vec![
        ("Codex", Vote::Pass, 85),
        ("Gemini", Vote::Pass, 80),
        ("Qwen", Vote::Fail, 30),
    ]);
    let result = engine.evaluate(votes, "test-123");
    assert_eq!(result.decision, Decision::Pass);
}

#[test]
fn test_calculate_score() {
    let votes = create_votes(vec![
        ("Codex", Vote::Pass, 80),
        ("Gemini", Vote::Pass, 90),
        ("Qwen", Vote::Pass, 85),
    ]);
    assert_eq!(VoteAggregator::calculate_score(&votes), 85);
}

#[test]
fn test_calculate_min_score() {
    let votes = create_votes(vec![
        ("Codex", Vote::Pass, 80),
        ("Gemini", Vote::Pass, 90),
        ("Qwen", Vote::Warn, 60),
    ]);
    assert_eq!(VoteAggregator::calculate_min_score(&votes), 60);
}

#[test]
fn test_extract_findings_common_issues() {
    let votes = vec![
        create_vote_with_issues(
            "Codex",
            Vote::Warn,
            70,
            vec!["SQL injection vulnerability"],
            vec!["Use parameterized queries"],
        ),
        create_vote_with_issues(
            "Gemini",
            Vote::Warn,
            65,
            vec!["sql injection vulnerability"],
            vec!["Sanitize inputs"],
        ),
        create_vote_with_issues("Qwen", Vote::Pass, 85, vec![], vec![]),
    ];
    let findings = VoteAggregator::extract_findings(&votes);
    assert!(!findings.is_empty());
    let sql_finding = findings.iter().find(|f| f.issue.contains("sql injection"));
    assert!(sql_finding.is_some());
}

#[test]
fn test_aggregate_pass() {
    let votes = create_votes(vec![
        ("Codex", Vote::Pass, 85),
        ("Gemini", Vote::Pass, 90),
        ("Qwen", Vote::Pass, 88),
    ]);
    let rule = StrongRule;
    let result = VoteAggregator::aggregate(votes, &rule, 70, "test-123");
    assert_eq!(result.decision, Decision::Pass);
    assert!(result.consensus_achieved);
    assert_eq!(result.score, 87);
}

#[test]
fn test_consolidate_feedback_pass() {
    let votes = create_votes(vec![("Codex", Vote::Pass, 85), ("Gemini", Vote::Pass, 90)]);
    let feedback = VoteAggregator::consolidate_feedback(&votes, &Decision::Pass);
    assert!(feedback.contains("Evaluation Approved"));
    assert!(feedback.contains("2 PASS"));
}

#[test]
fn test_consolidate_feedback_block() {
    let votes = create_votes(vec![("Codex", Vote::Fail, 30), ("Gemini", Vote::Fail, 25)]);
    let feedback = VoteAggregator::consolidate_feedback(&votes, &Decision::Block);
    assert!(feedback.contains("Evaluation Blocked"));
    assert!(feedback.contains("2 FAIL"));
}

#[test]
fn test_infer_severity() {
    assert_eq!(VoteAggregator::infer_severity("SQL injection vulnerability"), Severity::Critical);
    assert_eq!(VoteAggregator::infer_severity("Error in logic"), Severity::Error);
    assert_eq!(VoteAggregator::infer_severity("Warning: consider refactoring"), Severity::Warning);
    assert_eq!(VoteAggregator::infer_severity("Minor style issue"), Severity::Info);
}

#[test]
fn test_calculate_confidence_high() {
    let engine = ConsensusEngine::new(create_config(ConsensusRuleConfig::Strong, 70, 3));
    let votes = create_votes(vec![
        ("Codex", Vote::Pass, 95),
        ("Gemini", Vote::Pass, 98),
        ("Qwen", Vote::Pass, 97),
    ]);
    let result = engine.evaluate(votes, "test-123");
    assert!(engine.calculate_confidence(&result) > 800);
}

#[test]
fn test_calculate_confidence_low() {
    let engine = ConsensusEngine::new(create_config(ConsensusRuleConfig::Strong, 70, 3));
    let votes = create_votes(vec![
        ("Codex", Vote::Pass, 72),
        ("Gemini", Vote::Warn, 65),
        ("Qwen", Vote::Fail, 40),
    ]);
    let result = engine.evaluate(votes, "test-123");
    assert!(engine.calculate_confidence(&result) < 500);
}

#[test]
fn high_scores_do_not_block() {
    let engine = ConsensusEngine::new(create_config(ConsensusRuleConfig::Strong, 70, 3));
    let votes = create_votes(vec![
        ("Codex", Vote::Pass, 95),
        ("Gemini", Vote::Pass, 98),
        ("Qwen", Vote::Pass, 97),
    ]);
    let result = engine.evaluate(votes, "test-123");
    assert!(result.consensus_achieved);
    assert_eq!(result.score, 96);
    assert!(!engine.should_block_immediately(&result));
}

#[test]
fn scenario_unanimous_pass() {
    let engine = ConsensusEngine::new(create_config(ConsensusRuleConfig::Strong, 70, 3));
    let votes = create_votes(vec![
        ("Codex", Vote::Pass, 85),
        ("Gemini", Vote::Pass, 90),
        ("Qwen", Vote::Pass, 88),
    ]);
    let result = engine.evaluate(votes, "req-1");
    assert_eq!(result.request_id, "req-1");
    assert_eq!(result.decision, Decision::Pass);
    assert_eq!(result.score, 87);
    assert!(result.consensus_achieved);
    assert!(result.findings.is_empty());
    assert!(result.feedback.contains("Evaluation Approved"));
    assert!(result.feedback.contains("3 PASS | 0 WARN | 0 FAIL"));
}

#[test]
fn scenario_unanimous_fail() {
    let engine = ConsensusEngine::new(create_config(ConsensusRuleConfig::Strong, 70, 3));
    let votes = create_votes(vec![
        ("Codex", Vote::Fail, 30),
        ("Gemini", Vote::Fail, 25),
        ("Qwen", Vote::Fail, 20),
    ]);
    let result = engine.evaluate(votes, "req-2");
    assert_eq!(result.decision, Decision::Block);
    assert_eq!(result.score, 25);
    assert!(result.consensus_achieved);
}

#[test]
fn scenario_strong_disagreement() {
    let engine = ConsensusEngine::new(create_config(ConsensusRuleConfig::Strong, 70, 3));
    let votes = create_votes(vec![
        ("Codex", Vote::Pass, 85),
        ("Gemini", Vote::Pass, 90),
        ("Qwen", Vote::Warn, 65),
    ]);
    let result = engine.evaluate(votes, "req-3");
    assert_eq!(result.decision, Decision::Revise);
    assert!(!result.consensus_achieved);
}

#[test]
fn scenario_weak_majority() {
    let engine = ConsensusEngine::new(create_config(ConsensusRuleConfig::Weak, 70, 3));
    let votes = create_votes(vec![
        ("Codex", Vote::Pass, 85),
        ("Gemini", Vote::Pass, 80),
        ("Qwen", Vote::Fail, 30),
    ]);
    let result = engine.evaluate(votes, "req-4");
    assert_eq!(result.decision, Decision::Pass);
}

#[test]
fn weak_rule_pass_mean_below_minimum_revises() {
    let rule = WeakRule;
    let votes = create_votes(vec![
        ("Codex", Vote::Pass, 60),
        ("Gemini", Vote::Pass, 65),
        ("Qwen", Vote::Fail, 30),
    ]);
    assert_eq!(rule.evaluate(&votes, 70), Decision::Revise);
    assert!(!rule.is_consensus_achieved(&votes, 70));
}

#[test]
fn weak_rule_no_votes_blocks() {
    let rule = WeakRule;
    assert_eq!(rule.evaluate(&Vec::new(), 70), Decision::Block);
    assert!(!rule.is_consensus_achieved(&Vec::new(), 70));
}

#[test]
fn strong_and_golden_need_three_votes() {
    let votes = create_votes(vec![("Codex", Vote::Pass, 90), ("Gemini", Vote::Pass, 90)]);
    assert_eq!(StrongRule.evaluate(&votes, 70), Decision::Revise);
    assert_eq!(GoldenRule.evaluate(&votes, 70), Decision::Revise);
}

#[test]
fn golden_flip_pass_to_fail_never_passes() {
    let mut votes = create_votes(vec![
        ("Codex", Vote::Pass, 90),
        ("Gemini", Vote::Pass, 90),
        ("Qwen", Vote::Pass, 90),
    ]);
    assert_eq!(GoldenRule.evaluate(&votes, 70), Decision::Pass);
    votes[1].vote = Vote::Fail;
    assert_eq!(GoldenRule.evaluate(&votes, 70), Decision::Block);
}

#[test]
fn findings_sorted_and_strength() {
    let votes = vec![
        create_vote_with_issues("Codex", Vote::Warn, 60, vec!["Minor naming", "Crash on empty input"], vec![]),
        create_vote_with_issues("Gemini", Vote::Warn, 60, vec!["crash on empty input "], vec!["Guard the empty case"]),
        create_vote_with_issues("Qwen", Vote::Fail, 30, vec!["Security hole in auth", "CRASH ON EMPTY INPUT"], vec![]),
    ];
    let findings = VoteAggregator::extract_findings(&votes);
    assert_eq!(findings.len(), 3);
    assert_eq!(findings[0].severity, Severity::Critical);
    assert_eq!(findings[0].category, "security");
    assert_eq!(findings[1].severity, Severity::Error);
    assert_eq!(findings[1].issue, "crash on empty input");
    assert_eq!(findings[1].consensus_strength, "strong");
    assert_eq!(findings[1].source, "Codex, Gemini, Qwen");
    assert_eq!(findings[1].suggestion.as_deref(), Some("Guard the empty case"));
    assert_eq!(findings[2].severity, Severity::Info);
    assert_eq!(findings[2].category, "style");
    assert_eq!(findings[2].consensus_strength, "weak");
}

#[test]
fn feedback_has_sections() {
    let votes = vec![create_vote_with_issues("Codex", Vote::Warn, 60, vec!["x"], vec!["y"])
        .with_reasoning("Looks fine")];
    let feedback = VoteAggregator::consolidate_feedback(&votes, &Decision::Revise);
    assert!(feedback.starts_with("## Revision Required\n\n**Votes:** 0 PASS | 1 WARN | 0 FAIL\n\n"));
    assert!(feedback.contains("**⚠ Codex** (score: 60)\n> Looks fine\n\nIssues:\n- x\n\nSuggestions:\n- y\n"));
}

#[test]
fn test_severity_ordering() {
    assert!(Severity::Critical > Severity::Error);
    assert!(Severity::Error > Severity::Warning);
    assert!(Severity::Warning > Severity::Info);
}

#[test]
fn test_decision_display() {
    assert_eq!(Decision::Pass.to_string(), "PASS");
    assert_eq!(Decision::Revise.to_string(), "REVISE");
    assert_eq!(Decision::Block.to_string(), "BLOCK");
}

#[test]
fn test_vote_display() {
    assert_eq!(Vote::Pass.to_string(), "PASS");
    assert_eq!(Vote::Warn.to_string(), "WARN");
    assert_eq!(Vote::Fail.to_string(), "FAIL");
}

#[test]
fn test_model_vote_new() {
    let vote = ModelVote::new("codex", Vote::Pass, 85);
    assert_eq!(vote.executor, "codex");
    assert_eq!(vote.vote, Vote::Pass);
    assert_eq!(vote.score, 85);
}

#[test]
fn test_model_vote_builder() {
    let vote = ModelVote::new("codex", Vote::Warn, 75)
        .with_reasoning("Code has minor issues")
        .with_issues(vec!["Missing error handling".to_string()])
        .with_suggestions(vec!["Add try-catch".to_string()]);
    assert_eq!(vote.reasoning, "Code has minor issues");
    assert_eq!(vote.issues.len(), 1);
    assert_eq!(vote.suggestions.len(), 1);
}

#[test]
fn test_finding_new() {
    let finding = Finding::new(Severity::Warning, "style", "Missing semicolon");
    assert_eq!(finding.severity, Severity::Warning);
    assert_eq!(finding.category, "style");
    assert_eq!(finding.issue, "Missing semicolon");
}

#[test]
fn test_finding_builder() {
    let finding = Finding::new(Severity::Error, "logic", "Null pointer dereference")
        .with_lines(vec![42, 43])
        .with_suggestion("Add null check")
        .with_source("codex,gemini")
        .with_consensus_strength("strong");
    assert_eq!(finding.lines, Some(vec![42, 43]));
    assert_eq!(finding.suggestion, Some("Add null check".to_string()));
    assert_eq!(finding.source, "codex,gemini");
    assert_eq!(finding.consensus_strength, "strong");
}

#[test]
fn test_severity_display() {
    assert_eq!(Severity::Info.to_string(), "INFO");
    assert_eq!(Severity::Warning.to_string(), "WARNING");
    assert_eq!(Severity::Error.to_string(), "ERROR");
    assert_eq!(Severity::Critical.to_string(), "CRITICAL");
}

#[test]
fn keyword_inference_ignores_case() {
    assert_eq!(VoteAggregator::infer_severity("SECURITY HOLE"), Severity::Critical);
    assert_eq!(VoteAggregator::infer_category("PASSWORD stored in clear"), "security");
    assert_eq!(VoteAggregator::infer_category("Slow loop"), "performance");
    assert_eq!(VoteAggregator::infer_category("Wrong result"), "logic");
    assert_eq!(VoteAggregator::infer_category("Bad naming"), "style");
    assert_eq!(VoteAggregator::infer_category("Poor DESIGN"), "architecture");
    assert_eq!(VoteAggregator::infer_category("Hmm"), "general");
}

#[test]
fn error_constructors() {
    match tetrad::errors::TetradError::other("x") {
        tetrad::errors::TetradError::Other(m) => assert_eq!(m, "x"),
        _ => panic!("expected Other"),
    }
    match tetrad::errors::TetradError::config("bad") {
        tetrad::errors::TetradError::Config(m) => assert_eq!(m, "bad"),
        _ => panic!("expected Config"),
    }
}

#[test]
fn critical_alone_is_not_a_security_word() {
    assert_eq!(VoteAggregator::infer_severity("critical path is slow"), Severity::Info);
}
