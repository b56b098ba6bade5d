//! Extension points around an evaluation: before it, after it, on consensus
//! and on block.
use vstd::prelude::*;
use vstd::string::StringExecFns;
use crate::errors::TetradError;
use crate::types::{Decision, EvaluationRequest, EvaluationResult};

verus! {

#[derive(Debug, Clone, Copy, PartialEq, Eq, Structural)]
pub enum HookEvent {
    PreEvaluate,
    PostEvaluate,
    OnConsensus,
    OnBlock,
}

impl HookEvent {
    pub fn to_string(&self) -> (r: String)
        ensures
            r@ == match *self {
                HookEvent::PreEvaluate => "pre_evaluate"@,
                HookEvent::PostEvaluate => "post_evaluate"@,
                HookEvent::OnConsensus => "on_consensus"@,
                HookEvent::OnBlock => "on_block"@,
            },
    {
        match self {
            HookEvent::PreEvaluate => String::from_str("pre_evaluate"),
            HookEvent::PostEvaluate => String::from_str("post_evaluate"),
            HookEvent::OnConsensus => String::from_str("on_consensus"),
            HookEvent::OnBlock => String::from_str("on_block"),
        }
    }
}

/// What a hook sees.
pub enum HookContext<'a> {
    PreEvaluate { request: &'a EvaluationRequest },
    PostEvaluate { request: &'a EvaluationRequest, result: &'a EvaluationResult },
    OnConsensus { result: &'a EvaluationResult },
    OnBlock { result: &'a EvaluationResult },
}

impl<'a> HookContext<'a> {
    pub fn event(&self) -> (r: HookEvent)
        ensures
            r == match *self {
                HookContext::PreEvaluate { .. } => HookEvent::PreEvaluate,
                HookContext::PostEvaluate { .. } => HookEvent::PostEvaluate,
                HookContext::OnConsensus { .. } => HookEvent::OnConsensus,
                HookContext::OnBlock { .. } => HookEvent::OnBlock,
            },
    {
        match self {
            HookContext::PreEvaluate { .. } => HookEvent::PreEvaluate,
            HookContext::PostEvaluate { .. } => HookEvent::PostEvaluate,
            HookContext::OnConsensus { .. } => HookEvent::OnConsensus,
            HookContext::OnBlock { .. } => HookEvent::OnBlock,
        }
    }
}

/// What a hook asks for. Only pre-evaluate hooks may skip or modify.
#[derive(Debug, Clone)]
pub enum HookResult {
    Continue,
    Skip,
    ModifyRequest(EvaluationRequest),
}

/// An extension that reacts to one event.
pub trait Hook {
    /// The hook always answers `Continue` and never fails; a hook claims
    /// this only by overriding it.
    open spec fn passive(&self) -> bool {
        false
    }

    fn name(&self) -> &str;

    fn event(&self) -> HookEvent;

    fn execute(&mut self, context: &HookContext) -> (r: Result<HookResult, TetradError>)
        ensures
            old(self).passive() ==> (r matches Ok(HookResult::Continue)) && final(self).passive(),
    ;
}

/// The hooks after position `k` were not run: `b` holds them as `a` did.
pub open spec fn untouched_after<H>(a: Seq<H>, b: Seq<H>, k: int) -> bool {
    a.len() == b.len() && forall|j: int| k < j < a.len() ==> #[trigger] b[j] == a[j]
}

/// Every hook of `hs` is passive.
pub open spec fn all_passive<H: Hook>(hs: Seq<H>) -> bool {
    forall|k: int| 0 <= k < hs.len() ==> (#[trigger] hs[k]).passive()
}

/// Logs each evaluation; its records go to the host's logger.
#[derive(Debug, Clone, Copy, Default)]
pub struct LoggingHook;

impl LoggingHook {
    pub fn new() -> (r: LoggingHook) {
        LoggingHook
    }
}

impl Hook for LoggingHook {
    open spec fn passive(&self) -> bool {
        true
    }

    fn name(&self) -> &str {
        "logging"
    }

    fn event(&self) -> HookEvent {
        HookEvent::PostEvaluate
    }

    fn execute(&mut self, context: &HookContext) -> (r: Result<HookResult, TetradError>) {
        Ok(HookResult::Continue)
    }
}

/// Counts of evaluations by decision, with the sum of their scores.
#[derive(Debug, Clone, Copy, Default)]
pub struct MetricsHook {
    evaluations: u64,
    passes: u64,
    revises: u64,
    blocks: u64,
    score_sum: u64,
}

/// A snapshot of the metrics.
#[derive(Debug, Clone, Copy)]
pub struct Metrics {
    pub total_evaluations: u64,
    pub passes: u64,
    pub revises: u64,
    pub blocks: u64,
    pub score_sum: u64,
}

pub open spec fn sat_add(a: u64, b: u64) -> u64 {
    if a + b <= u64::MAX {
        (a + b) as u64
    } else {
        u64::MAX
    }
}

impl MetricsHook {
    pub closed spec fn view_metrics(&self) -> Metrics {
        Metrics {
            total_evaluations: self.evaluations,
            passes: self.passes,
            revises: self.revises,
            blocks: self.blocks,
            score_sum: self.score_sum,
        }
    }

    pub fn new() -> (r: MetricsHook)
        ensures
            r.view_metrics() == (Metrics {
                total_evaluations: 0,
                passes: 0,
                revises: 0,
                blocks: 0,
                score_sum: 0,
            }),
    {
        MetricsHook { evaluations: 0, passes: 0, revises: 0, blocks: 0, score_sum: 0 }
    }

    pub fn total_evaluations(&self) -> (r: u64)
        ensures
            r == self.view_metrics().total_evaluations,
    {
        self.evaluations
    }

    pub fn total_passes(&self) -> (r: u64)
        ensures
            r == self.view_metrics().passes,
    {
        self.passes
    }

    pub fn total_revises(&self) -> (r: u64)
        ensures
            r == self.view_metrics().revises,
    {
        self.revises
    }

    pub fn total_blocks(&self) -> (r: u64)
        ensures
            r == self.view_metrics().blocks,
    {
        self.blocks
    }

    pub fn score_sum(&self) -> (r: u64)
        ensures
            r == self.view_metrics().score_sum,
    {
        self.score_sum
    }

    pub fn metrics(&self) -> (r: Metrics)
        ensures
            r == self.view_metrics(),
    {
        Metrics {
            total_evaluations: self.evaluations,
            passes: self.passes,
            revises: self.revises,
            blocks: self.blocks,
            score_sum: self.score_sum,
        }
    }

    /// Counts one evaluation (counters saturate at the largest `u64`).
    pub fn record(&mut self, result: &EvaluationResult)
        ensures
            final(self).view_metrics().total_evaluations == sat_add(
                old(self).view_metrics().total_evaluations,
                1,
            ),
            final(self).view_metrics().passes == sat_add(
                old(self).view_metrics().passes,
                if result.decision == Decision::Pass {
                    1u64
                } else {
                    0u64
                },
            ),
            final(self).view_metrics().revises == sat_add(
                old(self).view_metrics().revises,
                if result.decision == Decision::Revise {
                    1u64
                } else {
                    0u64
                },
            ),
            final(self).view_metrics().blocks == sat_add(
                old(self).view_metrics().blocks,
                if result.decision == Decision::Block {
                    1u64
                } else {
                    0u64
                },
            ),
            final(self).view_metrics().score_sum == sat_add(
                old(self).view_metrics().score_sum,
                result.score as u64,
            ),
    {
        self.evaluations = add_sat(self.evaluations, 1);
        match result.decision {
            Decision::Pass => {
                self.passes = add_sat(self.passes, 1);
            },
            Decision::Revise => {
                self.revises = add_sat(self.revises, 1);
            },
            Decision::Block => {
                self.blocks = add_sat(self.blocks, 1);
            },
        }
        self.score_sum = add_sat(self.score_sum, result.score as u64);
    }
}

fn add_sat(a: u64, b: u64) -> (r: u64)
    ensures
        r == sat_add(a, b),
{
    if a <= u64::MAX - b {
        a + b
    } else {
        u64::MAX
    }
}

impl Hook for MetricsHook {
    open spec fn passive(&self) -> bool {
        true
    }

    fn name(&self) -> &str {
        "metrics"
    }

    fn event(&self) -> HookEvent {
        HookEvent::PostEvaluate
    }

    fn execute(&mut self, context: &HookContext) -> (r: Result<HookResult, TetradError>) {
        match context {
            HookContext::PostEvaluate { result, .. } => self.record(result),
            _ => {},
        }
        Ok(HookResult::Continue)
    }
}

/// The two built-in hooks.
#[derive(Debug, Clone, Copy)]
pub enum BuiltinHook {
    Logging(LoggingHook),
    Metrics(MetricsHook),
}

impl Hook for BuiltinHook {
    open spec fn passive(&self) -> bool {
        true
    }

    fn name(&self) -> &str {
        match self {
            BuiltinHook::Logging(h) => h.name(),
            BuiltinHook::Metrics(h) => h.name(),
        }
    }

    fn event(&self) -> HookEvent {
        match self {
            BuiltinHook::Logging(h) => h.event(),
            BuiltinHook::Metrics(h) => h.event(),
        }
    }

    fn execute(&mut self, context: &HookContext) -> (r: Result<HookResult, TetradError>) {
        match self {
            BuiltinHook::Logging(h) => h.execute(context),
            BuiltinHook::Metrics(h) => h.execute(context),
        }
    }
}

/// The hooks of each event, in registration order.
pub struct HookSystem<H: Hook> {
    pre_evaluate: Vec<H>,
    post_evaluate: Vec<H>,
    on_consensus: Vec<H>,
    on_block: Vec<H>,
}

impl<H: Hook> HookSystem<H> {
    pub closed spec fn counts(&self) -> (nat, nat, nat, nat) {
        (
            self.pre_evaluate@.len(),
            self.post_evaluate@.len(),
            self.on_consensus@.len(),
            self.on_block@.len(),
        )
    }

    /// The pre-evaluate hooks, in registration order.
    pub closed spec fn pre_hooks(&self) -> Seq<H> {
        self.pre_evaluate@
    }

    /// Every registered hook is passive.
    pub closed spec fn passive_hooks(&self) -> bool {
        all_passive(self.pre_evaluate@) && all_passive(self.post_evaluate@) && all_passive(
            self.on_consensus@,
        ) && all_passive(self.on_block@)
    }

    pub open spec fn total_count(&self) -> nat {
        self.counts().0 + self.counts().1 + self.counts().2 + self.counts().3
    }

    pub fn new() -> (r: HookSystem<H>)
        ensures
            r.counts() == (0nat, 0nat, 0nat, 0nat),
            r.passive_hooks(),
    {
        HookSystem {
            pre_evaluate: Vec::new(),
            post_evaluate: Vec::new(),
            on_consensus: Vec::new(),
            on_block: Vec::new(),
        }
    }

    /// Adds a hook to the list of the event it handles.
    pub fn register(&mut self, hook: H)
        ensures
            final(self).total_count() == old(self).total_count() + 1,
            old(self).passive_hooks() && hook.passive() ==> final(self).passive_hooks(),
    {
        let ghost p = hook.passive();
        match hook.event() {
            HookEvent::PreEvaluate => self.pre_evaluate.push(hook),
            HookEvent::PostEvaluate => self.post_evaluate.push(hook),
            HookEvent::OnConsensus => self.on_consensus.push(hook),
            HookEvent::OnBlock => self.on_block.push(hook),
        }
        proof {
            if old(self).passive_hooks() && p {
                assert(all_passive(self.pre_evaluate@));
                assert(all_passive(self.post_evaluate@));
                assert(all_passive(self.on_consensus@));
                assert(all_passive(self.on_block@));
            }
        }
    }

    /// Number of hooks registered.
    pub fn count(&self) -> (r: usize)
        ensures
            self.total_count() <= usize::MAX ==> r == self.total_count(),
    {
        let a = self.pre_evaluate.len() as u128 + self.post_evaluate.len() as u128;
        let b = self.on_consensus.len() as u128 + self.on_block.len() as u128;
        let t = a + b;
        if t <= usize::MAX as u128 {
            t as usize
        } else {
            usize::MAX
        }
    }

    /// Number of hooks registered for `event`.
    pub fn count_for_event(&self, event: HookEvent) -> (r: usize)
        ensures
            r == match event {
                HookEvent::PreEvaluate => self.counts().0,
                HookEvent::PostEvaluate => self.counts().1,
                HookEvent::OnConsensus => self.counts().2,
                HookEvent::OnBlock => self.counts().3,
            },
    {
        match event {
            HookEvent::PreEvaluate => self.pre_evaluate.len(),
            HookEvent::PostEvaluate => self.post_evaluate.len(),
            HookEvent::OnConsensus => self.on_consensus.len(),
            HookEvent::OnBlock => self.on_block.len(),
        }
    }

    /// Runs the pre-evaluate hooks in order; the first that does not
    /// continue decides. With no such hook the result is `Continue`.
    pub fn run_pre_evaluate(&mut self, request: &EvaluationRequest) -> (r: Result<
        HookResult,
        TetradError,
    >)
        ensures
            old(self).counts().0 == 0 ==> (r matches Ok(HookResult::Continue)),
            old(self).passive_hooks() ==> (r matches Ok(HookResult::Continue)),
            old(self).passive_hooks() ==> final(self).passive_hooks(),
            final(self).counts() == old(self).counts(),
            !(r matches Ok(HookResult::Continue)) ==> exists|k: int|
                0 <= k < old(self).pre_hooks().len() && #[trigger] untouched_after(
                    old(self).pre_hooks(),
                    final(self).pre_hooks(),
                    k,
                ),
    {
        let ctx = HookContext::PreEvaluate { request };
        let mut i: usize = 0;
        while i < self.pre_evaluate.len()
            invariant
                i <= self.pre_evaluate@.len(),
                self.counts() == old(self).counts(),
                forall|j: int|
                    i <= j < self.pre_evaluate@.len() ==> #[trigger] self.pre_evaluate@[j]
                        == old(self).pre_evaluate@[j],
                old(self).passive_hooks() ==> self.passive_hooks(),
                self.post_evaluate == old(self).post_evaluate,
                self.on_consensus == old(self).on_consensus,
                self.on_block == old(self).on_block,
            decreases self.pre_evaluate.len() - i,
        {
            let ghost before = self.pre_evaluate@;
            let mut h = self.pre_evaluate.remove(i);
            let out = h.execute(&ctx);
            self.pre_evaluate.insert(i, h);
            proof {
                assert forall|j: int| i < j < self.pre_evaluate@.len() implies #[trigger] self.pre_evaluate@[j]
                    == old(self).pre_evaluate@[j] by {
                    assert(self.pre_evaluate@[j] == before[j]);
                }
                if old(self).passive_hooks() {
                    assert(before[i as int].passive());
                    assert forall|k: int| 0 <= k < self.pre_evaluate@.len() implies (#[trigger] self.pre_evaluate@[k]).passive() by {
                        if k != i {
                            assert(self.pre_evaluate@[k] == before[k]);
                        }
                    }
                }
            }
            proof {
                assert(untouched_after(old(self).pre_evaluate@, self.pre_evaluate@, i as int));
                assert(untouched_after(old(self).pre_hooks(), self.pre_hooks(), i as int));
            }
            match out {
                Ok(HookResult::Continue) => {},
                Ok(other) => {
                    return Ok(other);
                },
                Err(e) => {
                    return Err(e);
                },
            }
            i += 1;
        }
        Ok(HookResult::Continue)
    }

    fn run_list(list: &mut Vec<H>, ctx: &HookContext) -> (r: Result<(), TetradError>)
        ensures
            final(list)@.len() == old(list)@.len(),
            old(list)@.len() == 0 ==> r is Ok,
            all_passive(old(list)@) ==> r is Ok && all_passive(final(list)@),
    {
        let mut i: usize = 0;
        while i < list.len()
            invariant
                i <= list@.len(),
                list@.len() == old(list)@.len(),
                all_passive(old(list)@) ==> all_passive(list@),
            decreases list.len() - i,
        {
            let ghost before = list@;
            let mut h = list.remove(i);
            let out = h.execute(ctx);
            list.insert(i, h);
            proof {
                if all_passive(old(list)@) {
                    assert(before[i as int].passive());
                    assert forall|k: int| 0 <= k < list@.len() implies (#[trigger] list@[k]).passive() by {
                        if k != i {
                            assert(list@[k] == before[k]);
                        }
                    }
                }
            }
            match out {
                Ok(_) => {},
                Err(e) => {
                    return Err(e);
                },
            }
            i += 1;
        }
        Ok(())
    }

    /// Runs the post-evaluate hooks in order; their results are ignored
    /// beyond errors.
    pub fn run_post_evaluate(&mut self, request: &EvaluationRequest, result: &EvaluationResult) -> (r:
        Result<(), TetradError>)
        ensures
            final(self).counts() == old(self).counts(),
            old(self).counts().1 == 0 ==> r is Ok,
            old(self).passive_hooks() ==> r is Ok && final(self).passive_hooks(),
    {
        let ctx = HookContext::PostEvaluate { request, result };
        Self::run_list(&mut self.post_evaluate, &ctx)
    }

    pub fn run_on_consensus(&mut self, result: &EvaluationResult) -> (r: Result<(), TetradError>)
        ensures
            final(self).counts() == old(self).counts(),
            old(self).counts().2 == 0 ==> r is Ok,
            old(self).passive_hooks() ==> r is Ok && final(self).passive_hooks(),
    {
        let ctx = HookContext::OnConsensus { result };
        Self::run_list(&mut self.on_consensus, &ctx)
    }

    pub fn run_on_block(&mut self, result: &EvaluationResult) -> (r: Result<(), TetradError>)
        ensures
            final(self).counts() == old(self).counts(),
            old(self).counts().3 == 0 ==> r is Ok,
            old(self).passive_hooks() ==> r is Ok && final(self).passive_hooks(),
    {
        let ctx = HookContext::OnBlock { result };
        Self::run_list(&mut self.on_block, &ctx)
    }
}

impl HookSystem<BuiltinHook> {
    /// A system holding the logging hook.
    pub fn with_defaults() -> (r: HookSystem<BuiltinHook>)
        ensures
            r.counts() == (0nat, 1nat, 0nat, 0nat),
            r.passive_hooks(),
    {
        let mut s = HookSystem {
            pre_evaluate: Vec::new(),
            post_evaluate: Vec::new(),
            on_consensus: Vec::new(),
            on_block: Vec::new(),
        };
        s.post_evaluate.push(BuiltinHook::Logging(LoggingHook));
        s
    }
}

} // verus!
