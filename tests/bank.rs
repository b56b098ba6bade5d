use tetrad::bank::{PatternType, ReasoningBank};
use tetrad::config::ReasoningConfig;
use tetrad::patterns::PatternMatcher;
use tetrad::types::{Decision, EvaluationResult, Finding, ModelVote, Severity, Vote};

fn create_test_bank() -> ReasoningBank {
    ReasoningBank::new(ReasoningConfig::default_config())
}

fn create_test_result(decision: Decision, score: u8, findings: Vec<Finding>) -> EvaluationResult {
    let mut r = EvaluationResult::success("test-123", score, "");
    r.decision = decision;
    r.consensus_achieved = decision == Decision::Pass;
    r.findings = findings;
    r
}

const NOW: i64 = 1_700_000_000;

#[test]
fn test_create_bank() {
    let bank = create_test_bank();
    assert_eq!(bank.count_patterns(), 0);
    assert_eq!(bank.count_trajectories(), 0);
}

#[test]
fn test_judge_creates_pattern() {
    let mut bank = create_test_bank();
    let finding = Finding::new(Severity::Warning, "security", "SQL injection vulnerability");
    let result = create_test_result(Decision::Revise, 60, vec![finding]);
    let judgment = bank.judge("test-123", "SELECT * FROM users", "sql", &result, 3, 3, NOW);
    assert!(!judgment.was_successful);
    assert_eq!(judgment.new_patterns_created, 1);
}

#[test]
fn test_good_pattern_creation() {
    let mut bank = create_test_bank();
    let result = create_test_result(Decision::Pass, 95, vec![]);
    let judgment = bank.judge("test-123", "fn main() { println!(\"Hello\"); }", "rust", &result, 1, 3, NOW);
    assert!(judgment.was_successful);
    assert_eq!(judgment.new_patterns_created, 1);
    let p = &bank.get_all_patterns()[0];
    assert_eq!(p.pattern_type, PatternType::GoodPattern);
    assert_eq!(p.issue_category, "success");
}

#[test]
fn judge_twice_adds_two() {
    let mut bank = create_test_bank();
    let finding = Finding::new(Severity::Error, "logic", "Null pointer");
    let result = create_test_result(Decision::Block, 30, vec![finding]);
    bank.judge("a", "data.unwrap()", "rust", &result, 1, 3, NOW);
    bank.judge("b", "data.unwrap()", "rust", &result, 1, 3, NOW + 1);
    let patterns = bank.get_all_patterns();
    assert_eq!(patterns.len(), 1);
    assert_eq!(patterns[0].success_count + patterns[0].failure_count, 2);
    assert_eq!(patterns[0].failure_count, 2);
    assert_eq!(patterns[0].confidence, 0);
    assert_eq!(bank.count_trajectories(), 2);
}

#[test]
fn trajectory_records_scores() {
    let mut bank = create_test_bank();
    let mut result = create_test_result(Decision::Pass, 88, vec![]);
    result.votes = vec![ModelVote::new("A", Vote::Pass, 90), ModelVote::new("B", Vote::Pass, 86)];
    let j = bank.judge("req", "x", "rust", &result, 4, 3, NOW);
    assert!(!j.was_successful);
    let t = &bank.get_all_trajectories()[0];
    assert_eq!(t.initial_score, 86);
    assert_eq!(t.final_score, 88);
    assert_eq!(t.code_hash, PatternMatcher::compute_signature("x"));
}

#[test]
fn pattern_exists_after_judge() {
    let mut bank = create_test_bank();
    let finding = Finding::new(Severity::Warning, "style", "naming");
    let result = create_test_result(Decision::Revise, 60, vec![finding]);
    bank.judge("a", "let x = 1;", "rust", &result, 1, 3, NOW);
    let sig = PatternMatcher::compute_signature("let x = 1;");
    assert!(bank.pattern_exists(&sig, "style"));
    assert!(!bank.pattern_exists(&sig, "logic"));
}

#[test]
fn bank_test_consolidate() {
    let mut bank = create_test_bank();
    let result = create_test_result(Decision::Pass, 90, vec![]);
    for i in 0..5 {
        bank.judge(&format!("test-{}", i), "fn good() {}", "rust", &result, 1, 3, NOW);
    }
    let consolidation = bank.consolidate(NOW);
    assert_eq!(consolidation.patterns_merged, 0);
    assert_eq!(consolidation.patterns_pruned, 0);
    let p = &bank.get_all_patterns()[0];
    assert_eq!(p.success_count, 5);
    assert_eq!(p.confidence, 1000);
    assert_eq!(p.pattern_type, PatternType::GoodPattern);
}

#[test]
fn consolidate_prunes_old_low_confidence_and_is_a_fixpoint() {
    let mut bank = create_test_bank();
    let finding = Finding::new(Severity::Error, "logic", "bug");
    let bad = create_test_result(Decision::Block, 20, vec![finding]);
    bank.judge("a", "old code", "rust", &bad, 1, 3, 0);
    bank.judge("b", "old code", "rust", &bad, 1, 3, 0);
    bank.judge("c", "new code", "rust", &bad, 1, 3, NOW);
    bank.judge("d", "new code", "rust", &bad, 1, 3, NOW);
    let first = bank.consolidate(NOW);
    assert_eq!(first.patterns_pruned, 1);
    assert_eq!(bank.count_patterns(), 1);
    let again = bank.consolidate(NOW);
    assert_eq!(again.patterns_pruned, 0);
    assert_eq!(bank.count_patterns(), 1);
    assert_eq!(bank.get_all_patterns()[0].pattern_type, PatternType::AntiPattern);
}

#[test]
fn pattern_type_labels() {
    assert_eq!(PatternType::AntiPattern.to_string(), "anti_pattern");
    assert_eq!(PatternType::GoodPattern.to_string(), "good_pattern");
    assert_eq!(PatternType::Ambiguous.to_string(), "ambiguous");
    assert_eq!(PatternType::from_str("GOOD_PATTERN"), PatternType::GoodPattern);
    assert_eq!(PatternType::from_str("antipattern"), PatternType::AntiPattern);
    assert_eq!(PatternType::from_str("other"), PatternType::Ambiguous);
}

#[test]
fn test_retrieve_empty() {
    let bank = create_test_bank();
    let matches = bank.retrieve("fn main() {}", "rust");
    assert!(matches.is_empty());
}

#[test]
fn test_retrieve_after_judge() {
    let mut bank = create_test_bank();
    let finding = Finding::new(Severity::Warning, "security", "SQL injection");
    let result = create_test_result(Decision::Revise, 60, vec![finding]);
    bank.judge("test-123", "SELECT * FROM users", "sql", &result, 3, 3, NOW);
    let matches = bank.retrieve("SELECT * FROM users", "sql");
    assert!(!matches.is_empty());
    assert_eq!(matches[0].relevance, 1000);
    assert_eq!(matches.len(), 1);
}

#[test]
fn retrieve_by_keyword_and_ranking() {
    let mut bank = create_test_bank();
    let f = Finding::new(Severity::Warning, "sql", "Unsafe query building");
    let r = create_test_result(Decision::Revise, 60, vec![f]);
    bank.judge("a", "other code", "rust", &r, 1, 3, NOW);
    let matches = bank.retrieve("let q = sql_query();", "rust");
    assert_eq!(matches.len(), 1);
    assert_eq!(matches[0].relevance, 700);
    assert!(bank.retrieve("let q = sql_query();", "python").is_empty());
}

#[test]
fn bank_test_distill() {
    let mut bank = create_test_bank();
    let finding = Finding::new(Severity::Error, "logic", "Null pointer");
    let result = create_test_result(Decision::Block, 30, vec![finding]);
    bank.judge("test-1", "data.unwrap()", "rust", &result, 5, 3, NOW);
    let result2 = create_test_result(Decision::Pass, 95, vec![]);
    bank.judge("test-2", "fn safe() {}", "rust", &result2, 1, 3, NOW);
    let knowledge = bank.distill();
    assert!(knowledge.total_patterns > 0);
    assert!(knowledge.total_trajectories > 0);
    assert_eq!(knowledge.top_antipatterns.len(), 1);
    assert_eq!(knowledge.top_good_patterns.len(), 1);
    assert_eq!(knowledge.problematic_categories, vec![("logic".to_string(), 1)]);
    assert_eq!(knowledge.successful_trajectories, 1);
    assert_eq!(knowledge.successful_loops, 1);
    assert_eq!(knowledge.language_stats[0].total_patterns, 2);
    assert_eq!(knowledge.language_stats[0].good_patterns, 1);
}

#[test]
fn import_into_other_bank() {
    let mut source = create_test_bank();
    let finding = Finding::new(Severity::Warning, "style", "naming");
    let result = create_test_result(Decision::Revise, 60, vec![finding]);
    source.judge("a", "let a = 1;", "rust", &result, 1, 3, NOW);
    source.judge("b", "let b = 2;", "rust", &result, 1, 3, NOW);
    let exported = source.get_all_patterns().clone();
    let mut target = create_test_bank();
    let first = target.import(&exported);
    assert_eq!(first.imported, 2);
    assert_eq!(first.merged, 0);
    let again = target.import(&exported);
    assert_eq!(again.imported, 0);
    assert_eq!(again.skipped, 2);
    assert_eq!(target.count_patterns(), 2);
}

#[test]
fn import_merges_newer() {
    let mut bank = create_test_bank();
    let finding = Finding::new(Severity::Warning, "style", "naming");
    let result = create_test_result(Decision::Revise, 60, vec![finding]);
    bank.judge("a", "let a = 1;", "rust", &result, 1, 3, NOW);
    let mut newer = bank.get_all_patterns()[0].clone();
    newer.last_seen = NOW + 10;
    newer.success_count = 3;
    newer.failure_count = 0;
    let r = bank.import(&vec![newer]);
    assert_eq!(r.merged, 1);
    let p = &bank.get_all_patterns()[0];
    assert_eq!(p.success_count, 3);
    assert_eq!(p.failure_count, 1);
    assert_eq!(p.last_seen, NOW + 10);
    assert_eq!(p.confidence, 750);
}

fn sample_result() -> EvaluationResult {
    EvaluationResult::success("test-123", 85, "Looks good!")
}

#[test]
fn test_reasoning_bank_retrieve_empty() {
    let bank = create_test_bank();
    let code = "fn main() { println!(\"Hello\"); }";
    assert!(bank.retrieve(code, "rust").is_empty());
}

#[test]
fn test_judge_without_patterns() {
    let mut bank = create_test_bank();
    let judgment = bank.judge("test-req-1", "fn main() { unsafe { *ptr } }", "rust", &sample_result(), 1, 3, NOW);
    let _ = judgment.patterns_updated;
}

#[test]
fn reasoning_integration_test_distill() {
    let bank = create_test_bank();
    let knowledge = bank.distill();
    assert_eq!(knowledge.total_patterns, 0);
}

#[test]
fn reasoning_integration_test_consolidate() {
    let mut bank = create_test_bank();
    let result = bank.consolidate(NOW);
    assert_eq!(result.patterns_merged, 0);
}

#[test]
fn test_full_cycle() {
    let mut bank = create_test_bank();
    let code = "fn main() { let x = 5; println!(\"{}\", x); }";
    let result = sample_result();
    let _matches = bank.retrieve(code, "rust");
    let _judgment = bank.judge("req-1", code, "rust", &result, 1, 3, NOW);
    let _knowledge = bank.distill();
    let _consolidation = bank.consolidate(NOW);
    assert_eq!(bank.count_trajectories(), 1);
}

#[test]
fn test_count_trajectories() {
    let mut bank = create_test_bank();
    assert_eq!(bank.count_trajectories(), 0);
    let _ = bank.judge("req-1", "fn test() {}", "rust", &sample_result(), 1, 3, NOW);
    assert_eq!(bank.count_trajectories(), 1);
}

#[test]
fn test_pattern_types() {
    let anti = PatternType::AntiPattern;
    let good = PatternType::GoodPattern;
    let ambiguous = PatternType::Ambiguous;
    assert!(matches!(anti, PatternType::AntiPattern));
    assert!(matches!(good, PatternType::GoodPattern));
    assert!(matches!(ambiguous, PatternType::Ambiguous));
}

#[test]
fn test_pattern_type_display() {
    assert_eq!(PatternType::AntiPattern.to_string(), "anti_pattern");
    assert_eq!(PatternType::GoodPattern.to_string(), "good_pattern");
    assert_eq!(PatternType::Ambiguous.to_string(), "ambiguous");
}

#[test]
fn test_get_all_patterns() {
    let bank = create_test_bank();
    assert!(bank.get_all_patterns().is_empty());
}

#[test]
fn test_pattern_exists() {
    let bank = create_test_bank();
    assert!(!bank.pattern_exists("test_signature", "test_category"));
}

#[test]
fn test_import_skip_existing() {
    let mut bank = create_test_bank();
    let finding = Finding::new(Severity::Warning, "security", "Test issue");
    let result = create_test_result(Decision::Revise, 60, vec![finding]);
    bank.judge("test-1", "test code", "rust", &result, 3, 3, NOW);
    let exported = bank.get_all_patterns().clone();
    let import_result = bank.import(&exported);
    assert_eq!(import_result.imported, 0);
    assert!(import_result.skipped > 0 || import_result.merged > 0);
}

#[test]
fn consolidation_cadence() {
    assert!(tetrad::bank::consolidation_due(100, 100));
    assert!(!tetrad::bank::consolidation_due(99, 100));
    assert!(!tetrad::bank::consolidation_due(0, 0));
}
