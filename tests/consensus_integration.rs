use tetrad::config::{ConsensusConfig, ConsensusRule as ConsensusRuleConfig};
use tetrad::engine::ConsensusEngine;
use tetrad::types::{Decision, ModelVote, Vote};

fn create_vote(executor: &str, vote: Vote, score: u8) -> ModelVote {
    ModelVote::new(executor, vote, score)
}

fn create_config(rule: ConsensusRuleConfig, min_score: u8, max_loops: u8) -> ConsensusConfig {
    ConsensusConfig { default_rule: rule, min_score, max_loops }
}

#[test]
fn test_golden_rule_unanimous_pass() {
    let engine = ConsensusEngine::new(create_config(ConsensusRuleConfig::Golden, 70, 3));
    let votes = vec![
        create_vote("codex", Vote::Pass, 85),
        create_vote("gemini", Vote::Pass, 88),
        create_vote("qwen", Vote::Pass, 82),
    ];
    let result = engine.evaluate(votes, "test-123");
    assert!(matches!(result.decision, Decision::Pass));
}

#[test]
fn consensus_integration_test_golden_rule_one_fail() {
    let engine = ConsensusEngine::new(create_config(ConsensusRuleConfig::Golden, 70, 3));
    let votes = vec![
        create_vote("codex", Vote::Pass, 85),
        create_vote("gemini", Vote::Fail, 45),
        create_vote("qwen", Vote::Pass, 82),
    ];
    let result = engine.evaluate(votes, "test-123");
    assert!(matches!(result.decision, Decision::Block) || matches!(result.decision, Decision::Revise));
}

#[test]
fn test_golden_rule_all_fail() {
    let engine = ConsensusEngine::new(create_config(ConsensusRuleConfig::Golden, 70, 3));
    let votes = vec![
        create_vote("codex", Vote::Fail, 30),
        create_vote("gemini", Vote::Fail, 25),
        create_vote("qwen", Vote::Fail, 35),
    ];
    let result = engine.evaluate(votes, "test-123");
    assert!(matches!(result.decision, Decision::Block));
}

#[test]
fn test_strong_rule_3_of_3() {
    let engine = ConsensusEngine::new(create_config(ConsensusRuleConfig::Strong, 70, 3));
    let votes = vec![
        create_vote("codex", Vote::Pass, 85),
        create_vote("gemini", Vote::Pass, 88),
        create_vote("qwen", Vote::Pass, 82),
    ];
    let result = engine.evaluate(votes, "test-123");
    assert!(matches!(result.decision, Decision::Pass));
}

#[test]
fn test_strong_rule_2_of_3_pass_one_warn() {
    let engine = ConsensusEngine::new(create_config(ConsensusRuleConfig::Strong, 70, 3));
    let votes = vec![
        create_vote("codex", Vote::Pass, 85),
        create_vote("gemini", Vote::Pass, 88),
        create_vote("qwen", Vote::Warn, 65),
    ];
    let result = engine.evaluate(votes, "test-123");
    assert!(matches!(result.decision, Decision::Pass) || matches!(result.decision, Decision::Revise));
}

#[test]
fn test_strong_rule_1_of_3() {
    let engine = ConsensusEngine::new(create_config(ConsensusRuleConfig::Strong, 70, 3));
    let votes = vec![
        create_vote("codex", Vote::Pass, 85),
        create_vote("gemini", Vote::Fail, 45),
        create_vote("qwen", Vote::Fail, 35),
    ];
    let result = engine.evaluate(votes, "test-123");
    assert!(matches!(result.decision, Decision::Revise));
}

#[test]
fn test_weak_rule_majority_pass() {
    let engine = ConsensusEngine::new(create_config(ConsensusRuleConfig::Weak, 70, 3));
    let votes = vec![
        create_vote("codex", Vote::Pass, 85),
        create_vote("gemini", Vote::Pass, 88),
        create_vote("qwen", Vote::Fail, 45),
    ];
    let result = engine.evaluate(votes, "test-123");
    assert!(matches!(result.decision, Decision::Pass));
}

#[test]
fn test_weak_rule_majority_fail() {
    let engine = ConsensusEngine::new(create_config(ConsensusRuleConfig::Weak, 70, 3));
    let votes = vec![
        create_vote("codex", Vote::Fail, 40),
        create_vote("gemini", Vote::Fail, 35),
        create_vote("qwen", Vote::Pass, 75),
    ];
    let result = engine.evaluate(votes, "test-123");
    assert!(matches!(result.decision, Decision::Block));
}

#[test]
fn test_engine_new() {
    let engine = ConsensusEngine::new(create_config(ConsensusRuleConfig::Strong, 70, 3));
    assert_eq!(engine.rule_name(), "strong");
    assert_eq!(engine.min_score(), 70);
    assert_eq!(engine.max_loops(), 3);
}

#[test]
fn test_engine_evaluate_pass() {
    let engine = ConsensusEngine::new(create_config(ConsensusRuleConfig::Strong, 70, 3));
    let votes = vec![
        create_vote("codex", Vote::Pass, 85),
        create_vote("gemini", Vote::Pass, 90),
        create_vote("qwen", Vote::Pass, 88),
    ];
    let result = engine.evaluate(votes, "test-123");
    assert!(matches!(result.decision, Decision::Pass));
    assert!(result.consensus_achieved);
}

#[test]
fn test_engine_evaluate_block() {
    let engine = ConsensusEngine::new(create_config(ConsensusRuleConfig::Strong, 70, 3));
    let votes = vec![
        create_vote("codex", Vote::Fail, 30),
        create_vote("gemini", Vote::Fail, 25),
        create_vote("qwen", Vote::Fail, 20),
    ];
    let result = engine.evaluate(votes, "test-123");
    assert!(matches!(result.decision, Decision::Block));
}

#[test]
fn test_engine_can_retry() {
    let engine = ConsensusEngine::new(create_config(ConsensusRuleConfig::Strong, 70, 3));
    assert!(engine.can_retry(0));
    assert!(engine.can_retry(1));
    assert!(engine.can_retry(2));
    assert!(!engine.can_retry(3));
    assert!(!engine.can_retry(4));
}

#[test]
fn test_engine_calculate_confidence_high() {
    let engine = ConsensusEngine::new(create_config(ConsensusRuleConfig::Strong, 70, 3));
    let votes = vec![
        create_vote("codex", Vote::Pass, 95),
        create_vote("gemini", Vote::Pass, 98),
        create_vote("qwen", Vote::Pass, 97),
    ];
    let result = engine.evaluate(votes, "test-123");
    let confidence = engine.calculate_confidence(&result);
    assert!(confidence > 800);
}

#[test]
fn test_engine_calculate_confidence_low() {
    let engine = ConsensusEngine::new(create_config(ConsensusRuleConfig::Strong, 70, 3));
    let votes = vec![
        create_vote("codex", Vote::Pass, 72),
        create_vote("gemini", Vote::Warn, 65),
        create_vote("qwen", Vote::Fail, 40),
    ];
    let result = engine.evaluate(votes, "test-123");
    let confidence = engine.calculate_confidence(&result);
    assert!(confidence < 500);
}

#[test]
fn confidence_exact_values() {
    let engine = ConsensusEngine::new(create_config(ConsensusRuleConfig::Strong, 70, 3));
    let votes = vec![
        create_vote("codex", Vote::Pass, 85),
        create_vote("gemini", Vote::Pass, 90),
        create_vote("qwen", Vote::Pass, 88),
    ];
    let result = engine.evaluate(votes, "r");
    // 400 + 300 * 17 / 30 + 300
    assert_eq!(engine.calculate_confidence(&result), 870);
    let empty = engine.evaluate(vec![], "r");
    assert_eq!(engine.calculate_confidence(&empty), 0);
}

#[test]
fn consensus_integration_test_golden_rule_engine() {
    let engine = ConsensusEngine::new(create_config(ConsensusRuleConfig::Golden, 80, 3));
    assert_eq!(engine.rule_name(), "golden");
    let votes = vec![
        create_vote("codex", Vote::Pass, 85),
        create_vote("gemini", Vote::Warn, 75),
        create_vote("qwen", Vote::Pass, 88),
    ];
    let result = engine.evaluate(votes, "test-123");
    assert!(matches!(result.decision, Decision::Revise));
}

#[test]
fn consensus_integration_test_weak_rule_engine() {
    let engine = ConsensusEngine::new(create_config(ConsensusRuleConfig::Weak, 70, 3));
    assert_eq!(engine.rule_name(), "weak");
    let votes = vec![
        create_vote("codex", Vote::Pass, 85),
        create_vote("gemini", Vote::Pass, 80),
        create_vote("qwen", Vote::Fail, 30),
    ];
    let result = engine.evaluate(votes, "test-123");
    assert!(matches!(result.decision, Decision::Pass));
}

#[test]
fn test_engine_with_empty_votes() {
    let engine = ConsensusEngine::new(create_config(ConsensusRuleConfig::Golden, 70, 3));
    let result = engine.evaluate(Vec::new(), "test-123");
    assert!(matches!(result.decision, Decision::Revise));
}

#[test]
fn test_engine_with_single_vote() {
    let engine = ConsensusEngine::new(create_config(ConsensusRuleConfig::Golden, 70, 3));
    let result = engine.evaluate(vec![create_vote("codex", Vote::Pass, 85)], "test-123");
    assert!(!result.votes.is_empty());
}

#[test]
fn test_engine_default() {
    let engine = ConsensusEngine::default();
    assert!(!engine.rule_name().is_empty());
}

#[test]
fn test_consensus_rule_variants() {
    let golden = ConsensusRuleConfig::Golden;
    let strong = ConsensusRuleConfig::Strong;
    let weak = ConsensusRuleConfig::Weak;
    assert!(matches!(golden, ConsensusRuleConfig::Golden));
    assert!(matches!(strong, ConsensusRuleConfig::Strong));
    assert!(matches!(weak, ConsensusRuleConfig::Weak));
}
