use tetrad::config::Config;
use tetrad::tools::{certify, ConfirmParams, Confirmations, FinalCheckParams, Prepared, ToolHandler};
use tetrad::types::{EvaluationRequest, EvaluationResult, EvaluationType, ModelVote, Vote};

fn passing_votes() -> Vec<ModelVote> {
    vec![
        ModelVote::new("Codex", Vote::Pass, 90),
        ModelVote::new("Gemini", Vote::Pass, 92),
        ModelVote::new("Qwen", Vote::Pass, 94),
    ]
}

#[test]
fn scenario_cache_hit_on_second_review() {
    let mut handler = ToolHandler::new(Config::default_config());
    let request = EvaluationRequest::new("fn main() {}", "rust").with_type(EvaluationType::Code);
    let first = match handler.prepare(request.clone(), 1_000).unwrap() {
        Prepared::Run(r) => handler.conclude(&r, passing_votes(), 2_000).unwrap(),
        _ => panic!("the first review must ask the evaluators"),
    };
    let again = EvaluationRequest::new("fn main() {}", "rust").with_type(EvaluationType::Code);
    match handler.prepare(again, 3_000).unwrap() {
        Prepared::Cached(hit) => {
            assert_eq!(hit.request_id, first.request_id);
            assert_eq!(hit.score, first.score);
        }
        _ => panic!("the second review must come from the cache"),
    }
    let stats = handler.cache.stats();
    assert_eq!(stats.hits, 1);
    assert_eq!(stats.misses, 1);
}

#[test]
fn plan_reviews_are_not_cached() {
    let mut handler = ToolHandler::new(Config::default_config());
    let request = EvaluationRequest::new("step 1", "text").with_type(EvaluationType::Plan);
    if let Prepared::Run(r) = handler.prepare(request, 1).unwrap() {
        handler.conclude(&r, passing_votes(), 2).unwrap();
    }
    let again = EvaluationRequest::new("step 1", "text").with_type(EvaluationType::Plan);
    assert!(matches!(handler.prepare(again, 3).unwrap(), Prepared::Run(_)));
    assert_eq!(handler.cache.stats().size, 0);
}

#[test]
fn scenario_certification_requires_prior_confirm() {
    let mut handler = ToolHandler::new(Config::default_config());
    let request = EvaluationRequest::new("fn main() {}", "rust").with_type(EvaluationType::FinalCheck);
    let result = handler.conclude(&request, passing_votes(), 5).unwrap();
    let params = FinalCheckParams {
        code: "fn main() {}".to_string(),
        language: "rust".to_string(),
        previous_request_id: Some("prev-42".to_string()),
    };
    let before = handler.final_check(&result, &params);
    assert!(!before.certified);
    assert!(before.message.contains("Prior confirmation pending"));
    assert!(before.certificate_id.is_none());
    let can_proceed = handler.confirm(&ConfirmParams {
        request_id: "prev-42".to_string(),
        agreed: true,
        notes: None,
    });
    assert!(can_proceed);
    let after = handler.final_check(&result, &params);
    assert!(after.certified);
    assert_eq!(after.certificate_id, Some(format!("TETRAD-{}", result.request_id)));
}

#[test]
fn certification_without_previous_request() {
    let result = EvaluationResult::success("r-1", 90, "ok");
    let c = certify(&result, 70, &None, &Confirmations::new());
    assert!(c.certified);
    assert_eq!(c.certificate_id, Some("TETRAD-r-1".to_string()));
    let low = EvaluationResult::success("r-2", 60, "ok");
    let d = certify(&low, 70, &None, &Confirmations::new());
    assert!(!d.certified);
    assert!(!d.meets_requirements);
}

#[test]
fn confirm_disagreement_blocks_certification() {
    let mut confirmations = Confirmations::new();
    confirmations.record("p", true);
    confirmations.record("p", false);
    assert!(!confirmations.is_confirmed("p"));
    let result = EvaluationResult::success("r", 90, "ok");
    let c = certify(&result, 70, &Some("p".to_string()), &confirmations);
    assert!(!c.certified);
}
