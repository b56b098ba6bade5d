//! The voting rules: Golden (unanimity), Strong (3/3) and Weak (2+ majority).
use vstd::prelude::*;
use crate::config::ConsensusRule as RuleKind;
use crate::tally::{
    count_vote, lemma_counts_total, mean_of, mean_of_pass, mean_score, mean_score_of, tally,
};
use crate::types::{Decision, ModelVote, Vote};

verus! {

/// Every vote is Pass with a score of at least `min_score`.
pub open spec fn all_pass_above(vs: Seq<ModelVote>, min_score: u8) -> bool {
    forall|i: int| 0 <= i < vs.len() ==> #[trigger] vs[i].vote == Vote::Pass && vs[i].score
        >= min_score
}

pub open spec fn golden_decision(vs: Seq<ModelVote>, min_score: u8) -> Decision {
    if vs.len() < 3 {
        Decision::Revise
    } else if all_pass_above(vs, min_score) {
        Decision::Pass
    } else if count_vote(vs, Vote::Fail) > 0 {
        Decision::Block
    } else {
        Decision::Revise
    }
}

pub open spec fn strong_decision(vs: Seq<ModelVote>, min_score: u8) -> Decision {
    if vs.len() < 3 {
        Decision::Revise
    } else if count_vote(vs, Vote::Pass) == 3 && mean_score(vs) >= min_score {
        Decision::Pass
    } else if count_vote(vs, Vote::Fail) == 3 {
        Decision::Block
    } else {
        Decision::Revise
    }
}

pub open spec fn weak_decision(vs: Seq<ModelVote>, min_score: u8) -> Decision {
    if vs.len() == 0 {
        Decision::Block
    } else if count_vote(vs, Vote::Pass) >= 2 && mean_score_of(vs, Vote::Pass) >= min_score {
        Decision::Pass
    } else if count_vote(vs, Vote::Fail) >= 2 {
        Decision::Block
    } else {
        Decision::Revise
    }
}

/// A rule that turns a set of votes into a decision.
pub trait ConsensusRule {
    spec fn decide(&self, votes: Seq<ModelVote>, min_score: u8) -> Decision;

    spec fn required(&self) -> nat;

    spec fn achieved(&self, votes: Seq<ModelVote>, min_score: u8) -> bool;

    spec fn label(&self) -> Seq<char>;

    fn name(&self) -> (r: &'static str)
        ensures
            r@ == self.label(),
    ;

    fn evaluate(&self, votes: &Vec<ModelVote>, min_score: u8) -> (d: Decision)
        ensures
            d == self.decide(votes@, min_score),
    ;

    fn min_required(&self) -> (n: usize)
        ensures
            n as nat == self.required(),
    ;

    fn is_consensus_achieved(&self, votes: &Vec<ModelVote>, min_score: u8) -> (b: bool)
        ensures
            b == self.achieved(votes@, min_score),
            b ==> self.decide(votes@, min_score) != Decision::Revise,
    ;
}

/// Unanimity: every evaluator passes with a score of at least the minimum.
#[derive(Debug, Clone, Copy, Default)]
pub struct GoldenRule;

/// Three evaluators agree.
#[derive(Debug, Clone, Copy, Default)]
pub struct StrongRule;

/// Two evaluators agree.
#[derive(Debug, Clone, Copy, Default)]
pub struct WeakRule;

fn all_pass_at_least(votes: &Vec<ModelVote>, min_score: u8) -> (b: bool)
    ensures
        b == all_pass_above(votes@, min_score),
{
    let mut i: usize = 0;
    while i < votes.len()
        invariant
            i <= votes@.len(),
            forall|k: int| 0 <= k < i ==> #[trigger] votes@[k].vote == Vote::Pass && votes@[k].score
                >= min_score,
        decreases votes.len() - i,
    {
        if votes[i].vote != Vote::Pass || votes[i].score < min_score {
            return false;
        }
        i += 1;
    }
    true
}

impl ConsensusRule for GoldenRule {
    open spec fn decide(&self, votes: Seq<ModelVote>, min_score: u8) -> Decision {
        golden_decision(votes, min_score)
    }

    open spec fn required(&self) -> nat {
        3
    }

    open spec fn achieved(&self, votes: Seq<ModelVote>, min_score: u8) -> bool {
        votes.len() >= 3 && golden_decision(votes, min_score) == Decision::Pass
    }

    open spec fn label(&self) -> Seq<char> {
        "golden"@
    }

    fn name(&self) -> (r: &'static str) {
        "golden"
    }

    fn evaluate(&self, votes: &Vec<ModelVote>, min_score: u8) -> (d: Decision) {
        if votes.len() < 3 {
            return Decision::Revise;
        }
        let t = tally(votes);
        if all_pass_at_least(votes, min_score) {
            Decision::Pass
        } else if t.fail > 0 {
            Decision::Block
        } else {
            Decision::Revise
        }
    }

    fn min_required(&self) -> (n: usize) {
        3
    }

    fn is_consensus_achieved(&self, votes: &Vec<ModelVote>, min_score: u8) -> (b: bool) {
        if votes.len() < 3 {
            return false;
        }
        self.evaluate(votes, min_score) == Decision::Pass
    }
}

impl ConsensusRule for StrongRule {
    open spec fn decide(&self, votes: Seq<ModelVote>, min_score: u8) -> Decision {
        strong_decision(votes, min_score)
    }

    open spec fn required(&self) -> nat {
        3
    }

    open spec fn achieved(&self, votes: Seq<ModelVote>, min_score: u8) -> bool {
        votes.len() >= 3 && (strong_decision(votes, min_score) == Decision::Pass
            || strong_decision(votes, min_score) == Decision::Block)
    }

    open spec fn label(&self) -> Seq<char> {
        "strong"@
    }

    fn name(&self) -> (r: &'static str) {
        "strong"
    }

    fn evaluate(&self, votes: &Vec<ModelVote>, min_score: u8) -> (d: Decision) {
        if votes.len() < 3 {
            return Decision::Revise;
        }
        let t = tally(votes);
        let avg = mean_of(votes);
        if t.pass == 3 && avg >= min_score {
            Decision::Pass
        } else if t.fail == 3 {
            Decision::Block
        } else {
            Decision::Revise
        }
    }

    fn min_required(&self) -> (n: usize) {
        3
    }

    fn is_consensus_achieved(&self, votes: &Vec<ModelVote>, min_score: u8) -> (b: bool) {
        if votes.len() < 3 {
            return false;
        }
        let d = self.evaluate(votes, min_score);
        d == Decision::Pass || d == Decision::Block
    }
}

impl ConsensusRule for WeakRule {
    open spec fn decide(&self, votes: Seq<ModelVote>, min_score: u8) -> Decision {
        weak_decision(votes, min_score)
    }

    open spec fn required(&self) -> nat {
        2
    }

    open spec fn achieved(&self, votes: Seq<ModelVote>, min_score: u8) -> bool {
        votes.len() >= 2 && (weak_decision(votes, min_score) == Decision::Pass || weak_decision(
            votes,
            min_score,
        ) == Decision::Block)
    }

    open spec fn label(&self) -> Seq<char> {
        "weak"@
    }

    fn name(&self) -> (r: &'static str) {
        "weak"
    }

    fn evaluate(&self, votes: &Vec<ModelVote>, min_score: u8) -> (d: Decision) {
        if votes.len() == 0 {
            return Decision::Block;
        }
        let t = tally(votes);
        if t.pass >= 2 {
            let avg = mean_of_pass(votes);
            if avg >= min_score {
                return Decision::Pass;
            }
        }
        if t.fail >= 2 {
            Decision::Block
        } else {
            Decision::Revise
        }
    }

    fn min_required(&self) -> (n: usize) {
        2
    }

    fn is_consensus_achieved(&self, votes: &Vec<ModelVote>, min_score: u8) -> (b: bool) {
        if votes.len() < 2 {
            return false;
        }
        let d = self.evaluate(votes, min_score);
        d == Decision::Pass || d == Decision::Block
    }
}

/// One of the three rules, chosen at run time.
#[derive(Debug, Clone, Copy)]
pub enum VotingRule {
    Golden(GoldenRule),
    Strong(StrongRule),
    Weak(WeakRule),
}

impl ConsensusRule for VotingRule {
    open spec fn decide(&self, votes: Seq<ModelVote>, min_score: u8) -> Decision {
        match self {
            VotingRule::Golden(r) => r.decide(votes, min_score),
            VotingRule::Strong(r) => r.decide(votes, min_score),
            VotingRule::Weak(r) => r.decide(votes, min_score),
        }
    }

    open spec fn required(&self) -> nat {
        match self {
            VotingRule::Golden(r) => r.required(),
            VotingRule::Strong(r) => r.required(),
            VotingRule::Weak(r) => r.required(),
        }
    }

    open spec fn achieved(&self, votes: Seq<ModelVote>, min_score: u8) -> bool {
        match self {
            VotingRule::Golden(r) => r.achieved(votes, min_score),
            VotingRule::Strong(r) => r.achieved(votes, min_score),
            VotingRule::Weak(r) => r.achieved(votes, min_score),
        }
    }

    open spec fn label(&self) -> Seq<char> {
        match self {
            VotingRule::Golden(r) => r.label(),
            VotingRule::Strong(r) => r.label(),
            VotingRule::Weak(r) => r.label(),
        }
    }

    fn name(&self) -> (r: &'static str) {
        match self {
            VotingRule::Golden(r) => r.name(),
            VotingRule::Strong(r) => r.name(),
            VotingRule::Weak(r) => r.name(),
        }
    }

    fn evaluate(&self, votes: &Vec<ModelVote>, min_score: u8) -> (d: Decision) {
        match self {
            VotingRule::Golden(r) => r.evaluate(votes, min_score),
            VotingRule::Strong(r) => r.evaluate(votes, min_score),
            VotingRule::Weak(r) => r.evaluate(votes, min_score),
        }
    }

    fn min_required(&self) -> (n: usize) {
        match self {
            VotingRule::Golden(r) => r.min_required(),
            VotingRule::Strong(r) => r.min_required(),
            VotingRule::Weak(r) => r.min_required(),
        }
    }

    fn is_consensus_achieved(&self, votes: &Vec<ModelVote>, min_score: u8) -> (b: bool) {
        match self {
            VotingRule::Golden(r) => r.is_consensus_achieved(votes, min_score),
            VotingRule::Strong(r) => r.is_consensus_achieved(votes, min_score),
            VotingRule::Weak(r) => r.is_consensus_achieved(votes, min_score),
        }
    }
}

pub open spec fn rule_for(kind: RuleKind) -> VotingRule {
    match kind {
        RuleKind::Golden => VotingRule::Golden(GoldenRule),
        RuleKind::Strong => VotingRule::Strong(StrongRule),
        RuleKind::Weak => VotingRule::Weak(WeakRule),
    }
}

/// The rule that a configuration names.
pub fn create_rule(config: &RuleKind) -> (r: VotingRule)
    ensures
        r == rule_for(*config),
{
    match config {
        RuleKind::Golden => VotingRule::Golden(GoldenRule),
        RuleKind::Strong => VotingRule::Strong(StrongRule),
        RuleKind::Weak => VotingRule::Weak(WeakRule),
    }
}

/// Under the Golden rule, a vote list that holds a Fail never passes; in
/// particular, flipping any single Pass of a list to Fail cannot give Pass.
pub proof fn lemma_golden_fail_never_passes(vs: Seq<ModelVote>, k: int, min_score: u8)
    requires
        0 <= k < vs.len(),
        vs[k].vote == Vote::Pass,
    ensures
        golden_decision(vs.update(k, ModelVote { vote: Vote::Fail, ..vs[k] }), min_score)
            != Decision::Pass,
{
    let ws = vs.update(k, ModelVote { vote: Vote::Fail, ..vs[k] });
    if ws.len() >= 3 && all_pass_above(ws, min_score) {
        assert(ws[k].vote == Vote::Pass);
    }
}

/// Under the Strong rule with three votes, the decision depends only on the
/// counts of Pass and Fail: all Pass decides Pass exactly when the mean score
/// reaches `min_score`, all Fail decides Block, anything else is Revise.
pub proof fn lemma_strong_by_counts(vs: Seq<ModelVote>, min_score: u8)
    requires
        vs.len() == 3,
    ensures
        count_vote(vs, Vote::Pass) == 3 ==> (strong_decision(vs, min_score) == Decision::Pass
            <==> mean_score(vs) >= min_score),
        count_vote(vs, Vote::Pass) == 3 && mean_score(vs) < min_score ==> strong_decision(
            vs,
            min_score,
        ) == Decision::Revise,
        count_vote(vs, Vote::Fail) == 3 ==> strong_decision(vs, min_score) == Decision::Block,
        count_vote(vs, Vote::Pass) < 3 && count_vote(vs, Vote::Fail) < 3 ==> strong_decision(
            vs,
            min_score,
        ) == Decision::Revise,
{
    lemma_counts_total(vs);
}

/// Under the Weak rule with at most three votes, at least two Pass votes and
/// at least two Fail votes never hold together, so the Pass branch never
/// overrides a Fail majority.
pub proof fn lemma_weak_majorities_exclusive(vs: Seq<ModelVote>, min_score: u8)
    requires
        vs.len() <= 3,
    ensures
        !(count_vote(vs, Vote::Pass) >= 2 && count_vote(vs, Vote::Fail) >= 2),
        count_vote(vs, Vote::Fail) >= 2 ==> weak_decision(vs, min_score) == Decision::Block,
        count_vote(vs, Vote::Pass) >= 2 && mean_score_of(vs, Vote::Pass) >= min_score
            ==> weak_decision(vs, min_score) == Decision::Pass,
{
    lemma_counts_total(vs);
}

} // verus!
