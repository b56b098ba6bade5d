//! The consensus engine: a configuration plus the voting rule it names.
use vstd::prelude::*;
use crate::aggregator::{expected_findings, feedback_text, finding_view, VoteAggregator};
use crate::config::ConsensusConfig;
use crate::rules::{create_rule, rule_for, ConsensusRule, VotingRule};
use crate::tally::{count_vote, lemma_count_le_len, mean_score, tally};
use crate::types::{Decision, EvaluationResult, Finding, ModelVote, Severity, Vote};

verus! {

/// Applies a voting rule to votes and reports the retry budget.
pub struct ConsensusEngine {
    config: ConsensusConfig,
    rule: VotingRule,
}

/// Confidence in thousandths: 400 times the share of Pass votes, plus 300
/// times how far the score stands above `min_score` towards 100 (clamped to
/// [0, 1]), plus 300 when consensus was reached; each term rounded down,
/// and 0 without votes.
pub open spec fn confidence_of(result: EvaluationResult, min_score: u8) -> int {
    if result.votes@.len() == 0 {
        0
    } else {
        let unanimity = (400 * count_vote(result.votes@, Vote::Pass)) as int / (result.votes@.len() as int);
        let margin = if result.score <= min_score {
            0
        } else if min_score >= 100 {
            300
        } else if 300 * (result.score - min_score) / (100 - min_score) >= 300 {
            300
        } else {
            300 * (result.score - min_score) / (100 - min_score)
        };
        unanimity + margin + if result.consensus_achieved {
            300int
        } else {
            0int
        }
    }
}

/// Some finding is Critical.
pub open spec fn has_critical(fs: Seq<Finding>) -> bool {
    exists|i: int| 0 <= i < fs.len() && (#[trigger] fs[i]).severity == Severity::Critical
}

impl ConsensusEngine {
    pub closed spec fn config_spec(&self) -> ConsensusConfig {
        self.config
    }

    pub closed spec fn rule_spec(&self) -> VotingRule {
        self.rule
    }

    /// An engine applying the rule that `config` names.
    pub fn new(config: ConsensusConfig) -> (r: ConsensusEngine)
        ensures
            r.config_spec() == config,
            r.rule_spec() == rule_for(config.default_rule),
    {
        let rule = create_rule(&config.default_rule);
        ConsensusEngine { config, rule }
    }

    /// Applies the rule and consolidates the votes into a result.
    pub fn evaluate(&self, votes: Vec<ModelVote>, request_id: &str) -> (r: EvaluationResult)
        ensures
            r.request_id@ == request_id@,
            r.decision == self.rule_spec().decide(votes@, self.config_spec().min_score),
            r.consensus_achieved == self.rule_spec().achieved(
                votes@,
                self.config_spec().min_score,
            ),
            r.consensus_achieved ==> r.decision != Decision::Revise,
            r.score as nat == mean_score(votes@),
            r.findings@.map_values(|f: Finding| finding_view(f)) == expected_findings(votes@),
            r.feedback@ == feedback_text(votes@, r.decision),
            r.votes@ == votes@,
    {
        VoteAggregator::aggregate(votes, &self.rule, self.config.min_score, request_id)
    }

    /// Whether the result reached consensus.
    pub fn is_consensus_achieved(&self, result: &EvaluationResult) -> (r: bool)
        ensures
            r == result.consensus_achieved,
    {
        result.consensus_achieved
    }

    /// More refinement loops are allowed while `current_loop < max_loops`.
    pub fn can_retry(&self, current_loop: u8) -> (r: bool)
        ensures
            r == (current_loop < self.config_spec().max_loops),
    {
        current_loop < self.config.max_loops
    }

    /// The rule's decision for `votes`.
    pub fn get_decision(&self, votes: &Vec<ModelVote>) -> (r: Decision)
        ensures
            r == self.rule_spec().decide(votes@, self.config_spec().min_score),
    {
        self.rule.evaluate(votes, self.config.min_score)
    }

    pub fn min_score(&self) -> (r: u8)
        ensures
            r == self.config_spec().min_score,
    {
        self.config.min_score
    }

    pub fn max_loops(&self) -> (r: u8)
        ensures
            r == self.config_spec().max_loops,
    {
        self.config.max_loops
    }

    pub fn rule_name(&self) -> (r: &'static str)
        ensures
            r@ == self.rule_spec().label(),
    {
        self.rule.name()
    }

    /// Replaces the rule; the configuration is kept.
    pub fn set_rule(&mut self, rule: VotingRule)
        ensures
            final(self).rule_spec() == rule,
            final(self).config_spec() == old(self).config_spec(),
    {
        self.rule = rule;
    }

    /// Confidence of a result, in thousandths (at most 1000).
    pub fn calculate_confidence(&self, result: &EvaluationResult) -> (r: u64)
        ensures
            r as int == confidence_of(*result, self.config_spec().min_score),
            r <= 1000,
    {
        if result.votes.len() == 0 {
            return 0;
        }
        let t = tally(&result.votes);
        proof {
            lemma_count_le_len(result.votes@, Vote::Pass);
        }
        let n = result.votes.len() as u128;
        assert(400 * (t.pass as int) / (n as int) <= 400) by (nonlinear_arith)
            requires
                t.pass as int <= n as int,
                n > 0,
        ;
        let unanimity: u128 = 400 * (t.pass as u128) / n;
        let min = self.config.min_score;
        let margin: u128 = if result.score <= min {
            0
        } else if min >= 100 {
            300
        } else {
            let m = 300 * ((result.score - min) as u128) / ((100 - min) as u128);
            if m >= 300 {
                300
            } else {
                m
            }
        };
        let bonus: u128 = if result.consensus_achieved {
            300
        } else {
            0
        };
        (unanimity + margin + bonus) as u64
    }

    /// A Critical finding asks for an immediate block.
    pub fn should_block_immediately(&self, result: &EvaluationResult) -> (r: bool)
        ensures
            r == has_critical(result.findings@),
    {
        let mut i: usize = 0;
        while i < result.findings.len()
            invariant
                i <= result.findings@.len(),
                forall|k: int|
                    0 <= k < i ==> (#[trigger] result.findings@[k]).severity != Severity::Critical,
            decreases result.findings.len() - i,
        {
            if result.findings[i].severity == Severity::Critical {
                return true;
            }
            i += 1;
        }
        false
    }
}

impl Default for ConsensusEngine {
    /// An engine with the default configuration (Strong rule, 70, 3 loops).
    fn default() -> (r: ConsensusEngine)
        ensures
            r.config_spec() == ConsensusConfig::default_spec(),
            r.rule_spec() == rule_for(ConsensusConfig::default_spec().default_rule),
    {
        ConsensusEngine::new(ConsensusConfig::default_config())
    }
}

} // verus!
