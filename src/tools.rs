//! The tool layer: the evaluation pipeline around the evaluators, the
//! confirmation record, and certification.
use vstd::prelude::*;
use vstd::string::StringExecFns;
use crate::bank::ReasoningBank;
use crate::cache::{key_of, lookup, EvaluationCache};
use crate::config::Config;
use crate::engine::ConsensusEngine;
use crate::errors::TetradError;
use crate::executors::{CodexExecutor, GeminiExecutor, QwenExecutor};
use crate::hooks::{BuiltinHook, HookResult, HookSystem};
use crate::aggregator::{expected_findings, finding_view};
use crate::rules::ConsensusRule;
use crate::tally::mean_score;
use crate::types::{
    result_view, Decision, EvaluationRequest, EvaluationResult, EvaluationType, Finding, ModelVote,
    Vote,
};

verus! {

pub struct ReviewPlanParams {
    pub plan: String,
    pub context: Option<String>,
}

pub struct ReviewCodeParams {
    pub code: String,
    pub language: String,
    pub file_path: Option<String>,
    pub context: Option<String>,
}

pub struct ReviewTestsParams {
    pub tests: String,
    pub language: String,
    pub context: Option<String>,
}

pub struct ConfirmParams {
    pub request_id: String,
    pub agreed: bool,
    pub notes: Option<String>,
}

pub struct FinalCheckParams {
    pub code: String,
    pub language: String,
    pub previous_request_id: Option<String>,
}

/// The JSON type of a tool parameter.
#[derive(Debug, Clone, Copy, PartialEq, Eq, Structural)]
pub enum ParamKind {
    Text,
    Flag,
}

/// One parameter of a tool.
pub struct ToolParam {
    pub name: String,
    pub kind: ParamKind,
    pub description: String,
    pub required: bool,
}

/// One entry of the tool directory.
pub struct ToolInfo {
    pub name: String,
    pub description: String,
    pub params: Vec<ToolParam>,
    pub cacheable: bool,
}

/// The names of the six tools, in directory order.
pub open spec fn tool_names() -> Seq<Seq<char>> {
    seq![
        "tetrad_review_plan"@,
        "tetrad_review_code"@,
        "tetrad_review_tests"@,
        "tetrad_confirm"@,
        "tetrad_final_check"@,
        "tetrad_status"@,
    ]
}

/// Each tool's parameters as (name, required), in directory order.
pub open spec fn tool_params() -> Seq<Seq<(Seq<char>, bool)>> {
    seq![
        seq![("plan"@, true), ("context"@, false)],
        seq![("code"@, true), ("language"@, true), ("file_path"@, false), ("context"@, false)],
        seq![("tests"@, true), ("language"@, true), ("context"@, false)],
        seq![("request_id"@, true), ("agreed"@, true), ("notes"@, false)],
        seq![("code"@, true), ("language"@, true), ("previous_request_id"@, false)],
        Seq::<(Seq<char>, bool)>::empty(),
    ]
}

pub open spec fn params_view(ps: Seq<ToolParam>) -> Seq<(Seq<char>, bool)> {
    ps.map_values(|p: ToolParam| (p.name@, p.required))
}

fn param(name: &str, kind: ParamKind, description: &str, required: bool) -> (r: ToolParam)
    ensures
        r.name@ == name@,
        r.kind == kind,
        r.required == required,
{
    ToolParam {
        name: String::from_str(name),
        kind,
        description: String::from_str(description),
        required,
    }
}

fn tool(name: &str, description: &str, params: Vec<ToolParam>, cacheable: bool) -> (r: ToolInfo)
    ensures
        r.name@ == name@,
        r.params == params,
        r.cacheable == cacheable,
{
    ToolInfo { name: String::from_str(name), description: String::from_str(description), params, cacheable }
}

/// The latest answer recorded for `id`, if any.
pub open spec fn confirmation_of(es: Seq<(String, bool)>, id: Seq<char>) -> Option<bool>
    decreases es.len(),
{
    if es.len() == 0 {
        None
    } else if es.last().0@ == id {
        Some(es.last().1)
    } else {
        confirmation_of(es.drop_last(), id)
    }
}

/// Agreements recorded by the confirm tool, by request id.
pub struct Confirmations {
    entries: Vec<(String, bool)>,
}

impl Confirmations {
    pub closed spec fn entries_spec(&self) -> Seq<(String, bool)> {
        self.entries@
    }

    /// Whether `id` was confirmed with agreement.
    pub open spec fn confirmed(&self, id: Seq<char>) -> bool {
        confirmation_of(self.entries_spec(), id) == Some(true)
    }

    pub fn new() -> (r: Confirmations)
        ensures
            forall|id: Seq<char>| !r.confirmed(id),
    {
        Confirmations { entries: Vec::new() }
    }

    /// Records the answer for `request_id`, replacing an earlier one.
    pub fn record(&mut self, request_id: &str, agreed: bool)
        ensures
            confirmation_of(final(self).entries_spec(), request_id@) == Some(agreed),
            forall|id: Seq<char>|
                id != request_id@ ==> confirmation_of(final(self).entries_spec(), id)
                    == confirmation_of(old(self).entries_spec(), id),
    {
        let ghost before = self.entries@;
        self.entries.push((String::from_str(request_id), agreed));
        assert(self.entries@.drop_last() =~= before);
    }

    /// Whether `request_id` was confirmed with agreement; false when never recorded.
    pub fn is_confirmed(&self, request_id: &str) -> (r: bool)
        ensures
            r == self.confirmed(request_id@),
    {
        let target = crate::text::chars_of(request_id);
        let mut i = self.entries.len();
        assert(self.entries@.subrange(0, i as int) =~= self.entries@);
        while i > 0
            invariant
                i <= self.entries@.len(),
                confirmation_of(self.entries@, request_id@) == confirmation_of(
                    self.entries@.subrange(0, i as int),
                    request_id@,
                ),
                target@ == request_id@,
            decreases i,
        {
            proof {
                assert(self.entries@.subrange(0, i as int).drop_last() =~= self.entries@.subrange(
                    0,
                    i - 1,
                ));
            }
            let k = crate::text::chars_of(self.entries[i - 1].0.as_str());
            let same = k.len() == target.len() && crate::text::matches_at(&k, &target, 0);
            proof {
                if k@.len() == target@.len() {
                    assert(k@.subrange(0, target@.len() as int) =~= k@);
                }
            }
            if same {
                return self.entries[i - 1].1;
            }
            i -= 1;
        }
        false
    }
}

/// The outcome of a certification.
pub struct Certification {
    pub certified: bool,
    pub meets_requirements: bool,
    pub previous_confirmed: bool,
    pub certificate_id: Option<String>,
    pub message: String,
}

pub open spec fn certified_spec(
    result: EvaluationResult,
    min_score: u8,
    previous: Option<Seq<char>>,
    confirmations: Confirmations,
) -> bool {
    let meets = result.consensus_achieved && result.score >= min_score;
    match previous {
        Some(p) => meets && confirmations.confirmed(p),
        None => meets,
    }
}

/// Certifies an evaluated payload. It meets the requirements with consensus
/// and a score of at least `min_score`; when a previous request is named, it
/// is certified only if that request was confirmed with agreement. A
/// certificate `TETRAD-<request id>` is issued exactly when certified.
pub fn certify(
    result: &EvaluationResult,
    min_score: u8,
    previous_request_id: &Option<String>,
    confirmations: &Confirmations,
) -> (r: Certification)
    ensures
        r.meets_requirements == (result.consensus_achieved && result.score >= min_score),
        r.previous_confirmed == match previous_request_id {
            Some(p) => confirmations.confirmed(p@),
            None => false,
        },
        r.certified == certified_spec(
            *result,
            min_score,
            match previous_request_id {
                Some(p) => Some(p@),
                None => None,
            },
            *confirmations,
        ),
        r.certified <==> r.certificate_id is Some,
        r.certificate_id matches Some(c) ==> c@ == "TETRAD-"@ + result.request_id@,
        !r.certified && r.meets_requirements ==> r.message@ == pending_message(),
{
    let previous_confirmed = match previous_request_id {
        Some(p) => confirmations.is_confirmed(p.as_str()),
        None => false,
    };
    let meets = result.consensus_achieved && result.score >= min_score;
    let certified = match previous_request_id {
        Some(_) => meets && previous_confirmed,
        None => meets,
    };
    let message = if certified {
        String::from_str("CERTIFIED: the code was approved by evaluator consensus.")
    } else if !meets {
        String::from_str("NOT CERTIFIED: consensus or the minimum score was not reached.")
    } else {
        String::from_str(
            "NOT CERTIFIED: Prior confirmation pending. Use tetrad_confirm first.",
        )
    };
    let certificate_id = if certified {
        let mut c = String::from_str("TETRAD-");
        c.append(result.request_id.as_str());
        Some(c)
    } else {
        None
    };
    Certification { certified, meets_requirements: meets, previous_confirmed, certificate_id, message }
}

pub open spec fn pending_message() -> Seq<char> {
    "NOT CERTIFIED: Prior confirmation pending. Use tetrad_confirm first."@
}

/// Where an evaluation stands before the evaluators are asked.
pub enum Prepared {
    /// A pre-evaluate hook skipped it: this synthetic result stands.
    Skipped(EvaluationResult),
    /// The cache already held a fresh result for this code.
    Cached(EvaluationResult),
    /// The evaluators must be asked about this request.
    Run(EvaluationRequest),
}

/// The vote a evaluator contributes: its own, or a neutral Warn/50 when it
/// failed.
pub fn vote_or_neutral(name: &str, outcome: Result<ModelVote, TetradError>) -> (r: ModelVote)
    ensures
        outcome is Err ==> r.executor@ == name@ && r.vote == Vote::Warn && r.score == 50,
        outcome matches Ok(v) ==> r == v,
{
    match outcome {
        Ok(v) => v,
        Err(_) => ModelVote::new(name, Vote::Warn, 50),
    }
}

/// The tool handler's state: engine, cache, reasoning bank, hooks,
/// confirmations and the three evaluators.
pub struct ToolHandler {
    pub config: Config,
    pub engine: ConsensusEngine,
    pub cache: EvaluationCache,
    pub bank: Option<ReasoningBank>,
    pub hooks: HookSystem<BuiltinHook>,
    pub confirmations: Confirmations,
    pub codex: CodexExecutor,
    pub gemini: GeminiExecutor,
    pub qwen: QwenExecutor,
}

impl ToolHandler {
    /// The tool directory: the six tools with their parameters; only the
    /// code review is cacheable.
    pub fn list_tools() -> (r: Vec<ToolInfo>)
        ensures
            r@.len() == 6,
            forall|i: int| 0 <= i < 6 ==> (#[trigger] r@[i]).name@ == tool_names()[i],
            forall|i: int| 0 <= i < 6 ==> (#[trigger] r@[i]).cacheable == (i == 1),
            forall|i: int| 0 <= i < 6 ==> params_view((#[trigger] r@[i]).params@) == tool_params()[i],
            forall|i: int, k: int|
                0 <= i < 6 && 0 <= k < r@[i].params@.len() ==> (#[trigger] r@[i].params@[k]).kind == (if i
                    == 3 && k == 1 {
                    ParamKind::Flag
                } else {
                    ParamKind::Text
                }),
    {
        let mut out: Vec<ToolInfo> = Vec::new();
        let mut p: Vec<ToolParam> = Vec::new();
        p.push(param("plan", ParamKind::Text, "The implementation plan to evaluate", true));
        p.push(param("context", ParamKind::Text, "Additional context on the project or requirements", false));
        assert(params_view(p@) =~= tool_params()[0]);
        out.push(tool("tetrad_review_plan", "Evaluate an implementation plan before writing code.", p, false));
        let mut p: Vec<ToolParam> = Vec::new();
        p.push(param("code", ParamKind::Text, "The code to evaluate", true));
        p.push(param("language", ParamKind::Text, "Programming language (rust, python, javascript, ...)", true));
        p.push(param("file_path", ParamKind::Text, "Path of the file", false));
        p.push(param("context", ParamKind::Text, "Additional context", false));
        assert(params_view(p@) =~= tool_params()[1]);
        out.push(tool("tetrad_review_code", "Evaluate code before saving it.", p, true));
        let mut p: Vec<ToolParam> = Vec::new();
        p.push(param("tests", ParamKind::Text, "The test code to evaluate", true));
        p.push(param("language", ParamKind::Text, "Programming language", true));
        p.push(param("context", ParamKind::Text, "What the tests exercise", false));
        assert(params_view(p@) =~= tool_params()[2]);
        out.push(tool("tetrad_review_tests", "Evaluate tests.", p, false));
        let mut p: Vec<ToolParam> = Vec::new();
        p.push(param("request_id", ParamKind::Text, "Id of the earlier evaluation", true));
        p.push(param("agreed", ParamKind::Flag, "Whether the feedback is accepted", true));
        p.push(param("notes", ParamKind::Text, "Notes on the corrections made", false));
        assert(params_view(p@) =~= tool_params()[3]);
        out.push(tool("tetrad_confirm", "Record agreement with an earlier result.", p, false));
        let mut p: Vec<ToolParam> = Vec::new();
        p.push(param("code", ParamKind::Text, "The final code to certify", true));
        p.push(param("language", ParamKind::Text, "Programming language", true));
        p.push(param("previous_request_id", ParamKind::Text, "Id of the confirmed earlier evaluation", false));
        assert(params_view(p@) =~= tool_params()[4]);
        out.push(tool("tetrad_final_check", "Final check before commit; certifies the code.", p, false));
        let none: Vec<ToolParam> = Vec::new();
        assert(params_view(none@) =~= tool_params()[5]);
        out.push(tool("tetrad_status", "Health of the evaluators and configuration snapshot.", none, false));
        proof {
            reveal_strlit("tetrad_review_plan");
        }
        out
    }

    pub open spec fn wf(&self) -> bool {
        self.cache.wf() && self.hooks.passive_hooks()
    }

    pub fn new(config: Config) -> (r: ToolHandler)
        ensures
            r.wf(),
            r.cache.entries_spec().len() == 0,
            r.cache.hits_spec() == 0,
            r.cache.misses_spec() == 0,
            r.engine.config_spec() == config.consensus,
    {
        let engine = ConsensusEngine::new(config.consensus);
        let cache = EvaluationCache::new(config.cache.capacity, config.cache.ttl_secs);
        let bank = if config.reasoning.enabled {
            Some(ReasoningBank::new(config.reasoning.clone()))
        } else {
            None
        };
        let codex = CodexExecutor::from_config(&config.executors.codex);
        let gemini = GeminiExecutor::from_config(&config.executors.gemini);
        let qwen = QwenExecutor::from_config(&config.executors.qwen);
        ToolHandler {
            config,
            engine,
            cache,
            bank,
            hooks: HookSystem::with_defaults(),
            confirmations: Confirmations::new(),
            codex,
            gemini,
            qwen,
        }
    }

    /// Steps 1 and 2 of an evaluation: the pre-evaluate hooks (which may
    /// skip it, with a passing result of score 100, or replace the
    /// request), then, for code evaluations with the cache on, a cache
    /// lookup at time `now` (nanoseconds since the Unix epoch).
    pub fn prepare(&mut self, request: EvaluationRequest, now: i64) -> (r: Result<
        Prepared,
        TetradError,
    >)
        requires
            old(self).wf(),
        ensures
            final(self).wf(),
            r matches Ok(Prepared::Skipped(res)) ==> res.score == 100 && res.decision
                == Decision::Pass && res.consensus_achieved && res.request_id@ == request.request_id@
                && res.votes@.len() == 0 && res.findings@.len() == 0,
            if request.evaluation_type == EvaluationType::Code && old(self).config.cache.enabled
                && lookup(
                old(self).cache.entries_spec(),
                key_of(request.code@, request.language@, EvaluationType::Code),
                now,
                old(self).cache.ttl_spec(),
            ) is Some {
                r matches Ok(Prepared::Cached(v)) && result_view(v) == result_view(
                    lookup(
                        old(self).cache.entries_spec(),
                        key_of(request.code@, request.language@, EvaluationType::Code),
                        now,
                        old(self).cache.ttl_spec(),
                    )->0,
                )
            } else {
                r matches Ok(Prepared::Run(q)) && q == request
            },
            request.evaluation_type == EvaluationType::Code && old(self).config.cache.enabled
                ==> final(self).cache.hits_spec() == (if lookup(
                old(self).cache.entries_spec(),
                key_of(request.code@, request.language@, EvaluationType::Code),
                now,
                old(self).cache.ttl_spec(),
            ) is Some {
                crate::cache::bumped(old(self).cache.hits_spec())
            } else {
                old(self).cache.hits_spec()
            }) && final(self).cache.misses_spec() == (if lookup(
                old(self).cache.entries_spec(),
                key_of(request.code@, request.language@, EvaluationType::Code),
                now,
                old(self).cache.ttl_spec(),
            ) is None {
                crate::cache::bumped(old(self).cache.misses_spec())
            } else {
                old(self).cache.misses_spec()
            }),
            !(request.evaluation_type == EvaluationType::Code && old(self).config.cache.enabled)
                ==> final(self).cache == old(self).cache,
    {
        let hook = self.hooks.run_pre_evaluate(&request)?;
        let request = match hook {
            HookResult::Skip => {
                return Ok(
                    Prepared::Skipped(
                        EvaluationResult::success(request.request_id.as_str(), 100, "Skipped by hook"),
                    ),
                );
            },
            HookResult::ModifyRequest(modified) => modified,
            HookResult::Continue => request,
        };
        if request.evaluation_type == EvaluationType::Code && self.config.cache.enabled {
            match self.cache.get_by_code_at(
                request.code.as_str(),
                request.language.as_str(),
                &request.evaluation_type,
                now,
            ) {
                Some(hit) => {
                    return Ok(Prepared::Cached(hit.duplicate()));
                },
                None => {},
            }
        }
        Ok(Prepared::Run(request))
    }

    /// Steps 5 to 8 of an evaluation, once the votes are in: consensus, the
    /// post-evaluate, on-consensus and on-block hooks, Judge (one loop, at
    /// `now` in seconds), and for code evaluations with the cache on,
    /// storing the result at `now` (nanoseconds since the Unix epoch).
    pub fn conclude(&mut self, request: &EvaluationRequest, votes: Vec<ModelVote>, now: i64) -> (r:
        Result<EvaluationResult, TetradError>)
        requires
            old(self).wf(),
        ensures
            final(self).wf(),
            r matches Ok(res) ==> res.decision == old(self).engine.rule_spec().decide(
                votes@,
                old(self).engine.config_spec().min_score,
            ) && res.consensus_achieved == old(self).engine.rule_spec().achieved(
                votes@,
                old(self).engine.config_spec().min_score,
            ) && res.score as nat == mean_score(votes@) && res.findings@.map_values(
                |f: Finding| finding_view(f),
            ) == expected_findings(votes@) && res.request_id@ == request.request_id@,
            r is Ok,
            final(self).cache.hits_spec() == old(self).cache.hits_spec(),
            final(self).cache.misses_spec() == old(self).cache.misses_spec(),
            request.evaluation_type == EvaluationType::Code && old(self).config.cache.enabled
                ==> (r matches Ok(res) && final(self).cache.entries_spec().len() >= 1
                && final(self).cache.entries_spec().last().key@ == key_of(
                request.code@,
                request.language@,
                EvaluationType::Code,
            ) && result_view(final(self).cache.entries_spec().last().result) == result_view(res)
                && final(self).cache.entries_spec().last().cached_at == now),
            !(request.evaluation_type == EvaluationType::Code && old(self).config.cache.enabled)
                ==> final(self).cache == old(self).cache,
    {
        let result = self.engine.evaluate(votes, request.request_id.as_str());
        self.hooks.run_post_evaluate(request, &result)?;
        if result.consensus_achieved {
            self.hooks.run_on_consensus(&result)?;
        }
        if result.decision == Decision::Block {
            self.hooks.run_on_block(&result)?;
        }
        let max_loops = self.engine.max_loops();
        match &mut self.bank {
            Some(b) => {
                b.judge(
                    result.request_id.as_str(),
                    request.code.as_str(),
                    request.language.as_str(),
                    &result,
                    1,
                    max_loops,
                    now / 1_000_000_000,
                );
            },
            None => {},
        }
        if request.evaluation_type == EvaluationType::Code && self.config.cache.enabled {
            self.cache.insert_by_code_at(
                request.code.as_str(),
                request.language.as_str(),
                &request.evaluation_type,
                result.duplicate(),
                now,
            );
        }
        Ok(result)
    }

    /// Records agreement with a prior result; the caller may proceed exactly
    /// when it agreed.
    pub fn confirm(&mut self, params: &ConfirmParams) -> (can_proceed: bool)
        ensures
            can_proceed == params.agreed,
            final(self).confirmations.confirmed(params.request_id@) == params.agreed,
            forall|id: Seq<char>|
                id != params.request_id@ ==> final(self).confirmations.confirmed(id)
                    == old(self).confirmations.confirmed(id),
            final(self).cache == old(self).cache,
            final(self).wf() == old(self).wf(),
    {
        self.confirmations.record(params.request_id.as_str(), params.agreed);
        params.agreed
    }

    /// Certifies a final-check result against the confirmations on record.
    pub fn final_check(&self, result: &EvaluationResult, params: &FinalCheckParams) -> (r:
        Certification)
        ensures
            r.certified == certified_spec(
                *result,
                self.engine.config_spec().min_score,
                match params.previous_request_id {
                    Some(p) => Some(p@),
                    None => None,
                },
                self.confirmations,
            ),
            r.certificate_id matches Some(c) ==> c@ == "TETRAD-"@ + result.request_id@,
            r.certified <==> r.certificate_id is Some,
            r.meets_requirements == (result.consensus_achieved && result.score
                >= self.engine.config_spec().min_score),
            !r.certified && r.meets_requirements ==> r.message@ == pending_message(),
    {
        certify(result, self.engine.min_score(), &params.previous_request_id, &self.confirmations)
    }
}

} // verus!
