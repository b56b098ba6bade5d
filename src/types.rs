//! Requests, votes, findings and results exchanged by the components.
use vstd::prelude::*;
use vstd::string::StringExecFns;

verus! {

/// What an evaluator thinks of the payload.
#[derive(Debug, Clone, Copy, PartialEq, Eq, Structural)]
pub enum Vote {
    Pass,
    Warn,
    Fail,
}

impl Vote {
    pub fn to_string(&self) -> (r: String)
        ensures
            r@ == match *self {
                Vote::Pass => "PASS"@,
                Vote::Warn => "WARN"@,
                Vote::Fail => "FAIL"@,
            },
    {
        match self {
            Vote::Pass => String::from_str("PASS"),
            Vote::Warn => String::from_str("WARN"),
            Vote::Fail => String::from_str("FAIL"),
        }
    }
}

/// Outcome of applying a consensus rule.
#[derive(Debug, Clone, Copy, PartialEq, Eq, Structural)]
pub enum Decision {
    Pass,
    Revise,
    Block,
}

impl Decision {
    pub fn to_string(&self) -> (r: String)
        ensures
            r@ == match *self {
                Decision::Pass => "PASS"@,
                Decision::Revise => "REVISE"@,
                Decision::Block => "BLOCK"@,
            },
    {
        match self {
            Decision::Pass => String::from_str("PASS"),
            Decision::Revise => String::from_str("REVISE"),
            Decision::Block => String::from_str("BLOCK"),
        }
    }
}

/// Severity of a finding, from least to most severe.
#[derive(Debug, Clone, Copy, PartialEq, Eq, Structural, PartialOrd, Ord)]
pub enum Severity {
    Info,
    Warning,
    Error,
    Critical,
}

/// Rank of a severity: `Info` is 0, `Critical` is 3.
pub open spec fn severity_rank(s: Severity) -> int {
    match s {
        Severity::Info => 0,
        Severity::Warning => 1,
        Severity::Error => 2,
        Severity::Critical => 3,
    }
}

impl Severity {
    pub fn rank(&self) -> (r: u8)
        ensures
            r as int == severity_rank(*self),
    {
        match self {
            Severity::Info => 0,
            Severity::Warning => 1,
            Severity::Error => 2,
            Severity::Critical => 3,
        }
    }

    pub fn to_string(&self) -> (r: String)
        ensures
            r@ == match *self {
                Severity::Info => "INFO"@,
                Severity::Warning => "WARNING"@,
                Severity::Error => "ERROR"@,
                Severity::Critical => "CRITICAL"@,
            },
    {
        match self {
            Severity::Info => String::from_str("INFO"),
            Severity::Warning => String::from_str("WARNING"),
            Severity::Error => String::from_str("ERROR"),
            Severity::Critical => String::from_str("CRITICAL"),
        }
    }
}

/// What a request asks to be reviewed.
#[derive(Debug, Clone, Copy, PartialEq, Eq, Structural)]
pub enum EvaluationType {
    Plan,
    Code,
    Tests,
    FinalCheck,
}

pub open spec fn evaluation_type_tag(t: EvaluationType) -> Seq<char> {
    match t {
        EvaluationType::Plan => "plan"@,
        EvaluationType::Code => "code"@,
        EvaluationType::Tests => "tests"@,
        EvaluationType::FinalCheck => "final_check"@,
    }
}

impl EvaluationType {
    pub fn to_string(&self) -> (r: String)
        ensures
            r@ == evaluation_type_tag(*self),
    {
        match self {
            EvaluationType::Plan => String::from_str("plan"),
            EvaluationType::Code => String::from_str("code"),
            EvaluationType::Tests => String::from_str("tests"),
            EvaluationType::FinalCheck => String::from_str("final_check"),
        }
    }
}

/// One evaluator's vote on a payload.
#[derive(Debug, Clone)]
pub struct ModelVote {
    pub executor: String,
    pub vote: Vote,
    pub score: u8,
    pub reasoning: String,
    pub issues: Vec<String>,
    pub suggestions: Vec<String>,
}

impl ModelVote {
    pub fn new(executor: &str, vote: Vote, score: u8) -> (r: ModelVote)
        ensures
            r.executor@ == executor@,
            r.vote == vote,
            r.score == score,
            r.reasoning@.len() == 0,
            r.issues@.len() == 0,
            r.suggestions@.len() == 0,
    {
        ModelVote {
            executor: String::from_str(executor),
            vote,
            score,
            reasoning: String::new(),
            issues: Vec::new(),
            suggestions: Vec::new(),
        }
    }

    pub fn with_reasoning(self, reasoning: &str) -> (r: ModelVote)
        ensures
            r == (ModelVote { reasoning: r.reasoning, ..self }),
            r.reasoning@ == reasoning@,
    {
        ModelVote { reasoning: String::from_str(reasoning), ..self }
    }

    pub fn with_issues(self, issues: Vec<String>) -> (r: ModelVote)
        ensures
            r == (ModelVote { issues, ..self }),
    {
        ModelVote { issues, ..self }
    }

    pub fn with_suggestions(self, suggestions: Vec<String>) -> (r: ModelVote)
        ensures
            r == (ModelVote { suggestions, ..self }),
    {
        ModelVote { suggestions, ..self }
    }
}

/// An issue reported by one or more evaluators.
#[derive(Debug, Clone)]
pub struct Finding {
    pub severity: Severity,
    pub category: String,
    pub issue: String,
    pub lines: Option<Vec<u32>>,
    pub suggestion: Option<String>,
    pub source: String,
    pub consensus_strength: String,
}

impl Finding {
    pub fn new(severity: Severity, category: &str, issue: &str) -> (r: Finding)
        ensures
            r.severity == severity,
            r.category@ == category@,
            r.issue@ == issue@,
            r.lines.is_none(),
            r.suggestion.is_none(),
            r.source@.len() == 0,
            r.consensus_strength@.len() == 0,
    {
        Finding {
            severity,
            category: String::from_str(category),
            issue: String::from_str(issue),
            lines: None,
            suggestion: None,
            source: String::new(),
            consensus_strength: String::new(),
        }
    }

    pub fn with_lines(self, lines: Vec<u32>) -> (r: Finding)
        ensures
            r == (Finding { lines: Some(lines), ..self }),
    {
        Finding { lines: Some(lines), ..self }
    }

    pub fn with_suggestion(self, suggestion: &str) -> (r: Finding)
        ensures
            r == (Finding { suggestion: r.suggestion, ..self }),
            r.suggestion is Some,
            r.suggestion->0@ == suggestion@,
    {
        Finding { suggestion: Some(String::from_str(suggestion)), ..self }
    }

    pub fn with_source(self, source: &str) -> (r: Finding)
        ensures
            r == (Finding { source: r.source, ..self }),
            r.source@ == source@,
    {
        Finding { source: String::from_str(source), ..self }
    }

    pub fn with_consensus_strength(self, strength: &str) -> (r: Finding)
        ensures
            r == (Finding { consensus_strength: r.consensus_strength, ..self }),
            r.consensus_strength@ == strength@,
    {
        Finding { consensus_strength: String::from_str(strength), ..self }
    }
}

/// A request for review.
#[derive(Debug, Clone)]
pub struct EvaluationRequest {
    pub request_id: String,
    pub code: String,
    pub language: String,
    pub evaluation_type: EvaluationType,
    pub context: Option<String>,
    pub file_path: Option<String>,
}

impl EvaluationRequest {
    /// A code review request with a fresh random identifier.
    pub fn new(code: &str, language: &str) -> (r: EvaluationRequest)
        ensures
            r.code@ == code@,
            r.language@ == language@,
            r.evaluation_type == EvaluationType::Code,
            r.context.is_none(),
            r.file_path.is_none(),
    {
        EvaluationRequest {
            request_id: crate::clock::fresh_id(),
            code: String::from_str(code),
            language: String::from_str(language),
            evaluation_type: EvaluationType::Code,
            context: None,
            file_path: None,
        }
    }

    pub fn with_type(self, eval_type: EvaluationType) -> (r: EvaluationRequest)
        ensures
            r == (EvaluationRequest { evaluation_type: eval_type, ..self }),
    {
        EvaluationRequest { evaluation_type: eval_type, ..self }
    }

    pub fn with_context(self, context: &str) -> (r: EvaluationRequest)
        ensures
            r == (EvaluationRequest { context: r.context, ..self }),
            r.context is Some,
            r.context->0@ == context@,
    {
        EvaluationRequest { context: Some(String::from_str(context)), ..self }
    }

    pub fn with_file_path(self, path: &str) -> (r: EvaluationRequest)
        ensures
            r == (EvaluationRequest { file_path: r.file_path, ..self }),
            r.file_path is Some,
            r.file_path->0@ == path@,
    {
        EvaluationRequest { file_path: Some(String::from_str(path)), ..self }
    }
}

/// The consolidated outcome of one evaluation.
///
/// `votes` holds one vote per evaluator; `timestamp` is in seconds since the
/// Unix epoch.
#[derive(Debug, Clone)]
pub struct EvaluationResult {
    pub request_id: String,
    pub decision: Decision,
    pub score: u8,
    pub consensus_achieved: bool,
    pub votes: Vec<ModelVote>,
    pub findings: Vec<Finding>,
    pub feedback: String,
    pub timestamp: i64,
}

impl EvaluationResult {
    /// An approved result that carries no votes.
    pub fn success(request_id: &str, score: u8, feedback: &str) -> (r: EvaluationResult)
        ensures
            r.request_id@ == request_id@,
            r.decision == Decision::Pass,
            r.score == score,
            r.consensus_achieved,
            r.votes@.len() == 0,
            r.findings@.len() == 0,
            r.feedback@ == feedback@,
    {
        EvaluationResult {
            request_id: String::from_str(request_id),
            decision: Decision::Pass,
            score,
            consensus_achieved: true,
            votes: Vec::new(),
            findings: Vec::new(),
            feedback: String::from_str(feedback),
            timestamp: crate::clock::now_unix(),
        }
    }

    /// A blocked result that carries no votes.
    pub fn failure(request_id: &str, score: u8, feedback: &str) -> (r: EvaluationResult)
        ensures
            r.request_id@ == request_id@,
            r.decision == Decision::Block,
            r.score == score,
            !r.consensus_achieved,
            r.votes@.len() == 0,
            r.findings@.len() == 0,
            r.feedback@ == feedback@,
    {
        EvaluationResult {
            request_id: String::from_str(request_id),
            decision: Decision::Block,
            score,
            consensus_achieved: false,
            votes: Vec::new(),
            findings: Vec::new(),
            feedback: String::from_str(feedback),
            timestamp: crate::clock::now_unix(),
        }
    }
}


/// The characters of each string.
pub open spec fn strings_of(v: Seq<String>) -> Seq<Seq<char>> {
    v.map_values(|s: String| s@)
}

/// A vote as plain values.
pub open spec fn vote_view(v: ModelVote) -> (Seq<char>, Vote, u8, Seq<char>, Seq<Seq<char>>, Seq<Seq<char>>) {
    (v.executor@, v.vote, v.score, v.reasoning@, strings_of(v.issues@), strings_of(v.suggestions@))
}

pub open spec fn opt_text(o: Option<String>) -> Option<Seq<char>> {
    match o {
        Some(s) => Some(s@),
        None => None,
    }
}

pub open spec fn opt_lines(o: Option<Vec<u32>>) -> Option<Seq<u32>> {
    match o {
        Some(v) => Some(v@),
        None => None,
    }
}

/// A finding as plain values.
pub open spec fn finding_full_view(f: Finding) -> (Severity, Seq<char>, Seq<char>, Option<Seq<u32>>, Option<Seq<char>>, Seq<char>, Seq<char>) {
    (f.severity, f.category@, f.issue@, opt_lines(f.lines), opt_text(f.suggestion), f.source@, f.consensus_strength@)
}

/// A result as plain values.
pub open spec fn result_view(r: EvaluationResult) -> (
    Seq<char>,
    Decision,
    u8,
    bool,
    Seq<(Seq<char>, Vote, u8, Seq<char>, Seq<Seq<char>>, Seq<Seq<char>>)>,
    Seq<(Severity, Seq<char>, Seq<char>, Option<Seq<u32>>, Option<Seq<char>>, Seq<char>, Seq<char>)>,
    Seq<char>,
    i64,
) {
    (
        r.request_id@,
        r.decision,
        r.score,
        r.consensus_achieved,
        r.votes@.map_values(|v: ModelVote| vote_view(v)),
        r.findings@.map_values(|f: Finding| finding_full_view(f)),
        r.feedback@,
        r.timestamp,
    )
}

fn copy_strings(v: &Vec<String>) -> (r: Vec<String>)
    ensures
        strings_of(r@) == strings_of(v@),
{
    let mut r: Vec<String> = Vec::new();
    let mut i: usize = 0;
    while i < v.len()
        invariant
            i <= v@.len(),
            r@.len() == i,
            strings_of(r@) == strings_of(v@.subrange(0, i as int)),
        decreases v.len() - i,
    {
        let ghost prev = r@;
        let c = v[i].clone();
        r.push(c);
        proof {
            let want = strings_of(v@.subrange(0, i + 1));
            let got = strings_of(r@);
            assert forall|k: int| 0 <= k < r@.len() implies #[trigger] got[k] == want[k] by {
                if k < prev.len() {
                    assert(r@[k] == prev[k]);
                    assert(strings_of(prev)[k] == strings_of(v@.subrange(0, i as int))[k]);
                    assert(v@.subrange(0, i + 1)[k] == v@.subrange(0, i as int)[k]);
                } else {
                    assert(r@[k] == c);
                    assert(v@.subrange(0, i + 1)[k] == v@[i as int]);
                }
            }
            assert(got =~= want);
        }
        i += 1;
    }
    assert(v@.subrange(0, v@.len() as int) =~= v@);
    r
}

fn copy_lines(v: &Vec<u32>) -> (r: Vec<u32>)
    ensures
        r@ == v@,
{
    let mut r: Vec<u32> = Vec::new();
    let mut i: usize = 0;
    while i < v.len()
        invariant
            i <= v@.len(),
            r@ == v@.subrange(0, i as int),
        decreases v.len() - i,
    {
        r.push(v[i]);
        i += 1;
        assert(r@ =~= v@.subrange(0, i as int));
    }
    assert(v@.subrange(0, v@.len() as int) =~= v@);
    r
}

impl ModelVote {
    /// A copy with the same contents.
    pub fn duplicate(&self) -> (r: ModelVote)
        ensures
            vote_view(r) == vote_view(*self),
    {
        ModelVote {
            executor: self.executor.clone(),
            vote: self.vote,
            score: self.score,
            reasoning: self.reasoning.clone(),
            issues: copy_strings(&self.issues),
            suggestions: copy_strings(&self.suggestions),
        }
    }
}

impl Finding {
    /// A copy with the same contents.
    pub fn duplicate(&self) -> (r: Finding)
        ensures
            finding_full_view(r) == finding_full_view(*self),
    {
        Finding {
            severity: self.severity,
            category: self.category.clone(),
            issue: self.issue.clone(),
            lines: match &self.lines {
                Some(l) => Some(copy_lines(l)),
                None => None,
            },
            suggestion: match &self.suggestion {
                Some(t) => Some(t.clone()),
                None => None,
            },
            source: self.source.clone(),
            consensus_strength: self.consensus_strength.clone(),
        }
    }
}

impl EvaluationResult {
    /// A copy with the same contents.
    pub fn duplicate(&self) -> (r: EvaluationResult)
        ensures
            result_view(r) == result_view(*self),
    {
        let mut votes: Vec<ModelVote> = Vec::new();
        let mut i: usize = 0;
        while i < self.votes.len()
            invariant
                i <= self.votes@.len(),
                votes@.len() == i,
                votes@.map_values(|v: ModelVote| vote_view(v)) == self.votes@.subrange(0, i as int).map_values(|v: ModelVote| vote_view(v)),
            decreases self.votes.len() - i,
        {
            let ghost prev = votes@;
            let d = self.votes[i].duplicate();
            votes.push(d);
            proof {
                let want = self.votes@.subrange(0, i + 1).map_values(|v: ModelVote| vote_view(v));
                let before = self.votes@.subrange(0, i as int).map_values(|v: ModelVote| vote_view(v));
                let got = votes@.map_values(|v: ModelVote| vote_view(v));
                assert forall|k: int| 0 <= k < votes@.len() implies #[trigger] got[k] == want[k] by {
                    if k < prev.len() {
                        assert(votes@[k] == prev[k]);
                        assert(prev.map_values(|v: ModelVote| vote_view(v))[k] == before[k]);
                        assert(self.votes@.subrange(0, i + 1)[k] == self.votes@.subrange(0, i as int)[k]);
                    } else {
                        assert(votes@[k] == d);
                        assert(self.votes@.subrange(0, i + 1)[k] == self.votes@[i as int]);
                    }
                }
                assert(got =~= want);
            }
            i += 1;
        }
        let mut findings: Vec<Finding> = Vec::new();
        let mut j: usize = 0;
        while j < self.findings.len()
            invariant
                j <= self.findings@.len(),
                findings@.len() == j,
                findings@.map_values(|f: Finding| finding_full_view(f)) == self.findings@.subrange(0, j as int).map_values(|f: Finding| finding_full_view(f)),
            decreases self.findings.len() - j,
        {
            let ghost prev = findings@;
            let d = self.findings[j].duplicate();
            findings.push(d);
            proof {
                let want = self.findings@.subrange(0, j + 1).map_values(|f: Finding| finding_full_view(f));
                let before = self.findings@.subrange(0, j as int).map_values(|f: Finding| finding_full_view(f));
                let got = findings@.map_values(|f: Finding| finding_full_view(f));
                assert forall|k: int| 0 <= k < findings@.len() implies #[trigger] got[k] == want[k] by {
                    if k < prev.len() {
                        assert(findings@[k] == prev[k]);
                        assert(prev.map_values(|f: Finding| finding_full_view(f))[k] == before[k]);
                        assert(self.findings@.subrange(0, j + 1)[k] == self.findings@.subrange(0, j as int)[k]);
                    } else {
                        assert(findings@[k] == d);
                        assert(self.findings@.subrange(0, j + 1)[k] == self.findings@[j as int]);
                    }
                }
                assert(got =~= want);
            }
            j += 1;
        }
        assert(self.votes@.subrange(0, self.votes@.len() as int) =~= self.votes@);
        assert(self.findings@.subrange(0, self.findings@.len() as int) =~= self.findings@);
        EvaluationResult {
            request_id: self.request_id.clone(),
            decision: self.decision,
            score: self.score,
            consensus_achieved: self.consensus_achieved,
            votes,
            findings,
            feedback: self.feedback.clone(),
            timestamp: self.timestamp,
        }
    }
}

} // verus!
