//! The three evaluator adapters: how each is invoked, the prompt it gets,
//! and how its output becomes a vote. Running the process is left to the
//! caller, which hands back a [`SpawnOutcome`].
use vstd::prelude::*;
use vstd::string::StringExecFns;
use crate::classifier::analyze_text_response;
use crate::config::ExecutorConfig;
use crate::errors::TetradError;
use crate::classifier::inferred_response;
use crate::parser::{
    first_at, json_str_member, json_str_member2, opt_chars, output_response, response_view,
    str_member, str_member2, vote_of, ExecutorResponse, ResponseView,
};
use crate::text::{
    chars_of, contains_str, eq_text, split_lines, split_lines_of, string_of, trim, trim_chars,
};
use crate::types::{evaluation_type_tag, vote_view, EvaluationRequest, ModelVote, Vote};

verus! {

/// What became of one evaluator process.
pub enum SpawnOutcome {
    /// The process ran; its exit status and its two output streams.
    Finished { success: bool, stdout: String, stderr: String },
    /// The command does not exist.
    NotFound,
    /// The process could not be started for another reason.
    Failed(String),
    /// The process outlived its timeout.
    TimedOut,
}

/// The prompt sent to a evaluator for `r`.
pub open spec fn prompt_text(r: EvaluationRequest) -> Seq<char> {
    "Evaluate the following "@ + r.language@ + " code for "@ + evaluation_type_tag(
        r.evaluation_type,
    ) + ".\n\n"@ + "Code:\n```\n"@ + r.code@ + "\n```\n\n"@ + match r.context {
        Some(c) => "Additional context:\n"@ + c@ + "\n\n"@,
        None => Seq::empty(),
    } + response_format()
}

pub open spec fn response_format() -> Seq<char> {
    "Respond in JSON with the format:\n{\n  \"vote\": \"PASS\" | \"WARN\" | \"FAIL\",\n  \"score\": 0-100,\n  \"reasoning\": \"explanation\",\n  \"issues\": [\"issue1\", \"issue2\"],\n  \"suggestions\": [\"suggestion1\", \"suggestion2\"]\n}\n"@
}

/// Builds the prompt: a header naming language and kind, the payload fenced
/// as code, the optional context, and the answer format.
pub fn build_prompt(request: &EvaluationRequest) -> (r: String)
    ensures
        r@ == prompt_text(*request),
{
    let mut p = String::from_str("Evaluate the following ");
    p.append(request.language.as_str());
    p.append(" code for ");
    p.append(request.evaluation_type.to_string().as_str());
    p.append(".\n\n");
    p.append("Code:\n```\n");
    p.append(request.code.as_str());
    p.append("\n```\n\n");
    let ghost before = p@;
    match &request.context {
        Some(c) => {
            p.append("Additional context:\n");
            p.append(c.as_str());
            p.append("\n\n");
        },
        None => {},
    }
    let ghost mid = p@;
    assert(mid =~= before + match request.context {
        Some(c) => "Additional context:\n"@ + c@ + "\n\n"@,
        None => Seq::empty(),
    });
    p.append(
        "Respond in JSON with the format:\n{\n  \"vote\": \"PASS\" | \"WARN\" | \"FAIL\",\n  \"score\": 0-100,\n  \"reasoning\": \"explanation\",\n  \"issues\": [\"issue1\", \"issue2\"],\n  \"suggestions\": [\"suggestion1\", \"suggestion2\"]\n}\n",
    );
    assert(p@ =~= prompt_text(*request));
    p
}

/// The neutral vote of a evaluator whose command is missing.
pub fn unavailable_vote(name: &str, reason: &str) -> (r: ModelVote)
    ensures
        r.executor@ == name@,
        r.vote == Vote::Warn,
        r.score == 50,
        r.reasoning@ == reason@,
        r.issues@.len() == 0,
        r.suggestions@.len() == 0,
{
    ModelVote::new(name, Vote::Warn, 50).with_reasoning(reason)
}

/// What every adapter does with an outcome that produced no output.
pub open spec fn edge_outcome_ok(o: SpawnOutcome, name: Seq<char>, r: Result<ModelVote, TetradError>) -> bool {
    match o {
        SpawnOutcome::NotFound => r matches Ok(v) && v.executor@ == name && v.vote == Vote::Warn
            && v.score == 50 && v.reasoning@ == name + " CLI not available"@,
        SpawnOutcome::TimedOut => r matches Err(TetradError::ExecutorTimeout(n)) && n@ == name,
        SpawnOutcome::Failed(m) => r matches Err(TetradError::ExecutorFailed(n, e)) && n@ == name
            && e@ == m@,
        SpawnOutcome::Finished { .. } => r matches Ok(v) ==> v.executor@ == name,
    }
}

fn edge_outcome(name: &str, outcome: &SpawnOutcome) -> (r: Option<
    Result<ModelVote, TetradError>,
>)
    ensures
        match r {
            Some(res) => edge_outcome_ok(*outcome, name@, res),
            None => outcome is Finished,
        },
        outcome is Finished ==> r is None,
{
    match outcome {
        SpawnOutcome::NotFound => {
            let mut reason = String::from_str(name);
            reason.append(" CLI not available");
            Some(Ok(unavailable_vote(name, reason.as_str())))
        },
        SpawnOutcome::TimedOut => Some(Err(TetradError::ExecutorTimeout(String::from_str(name)))),
        SpawnOutcome::Failed(m) => Some(
            Err(TetradError::ExecutorFailed(String::from_str(name), m.clone())),
        ),
        SpawnOutcome::Finished { .. } => None,
    }
}

/// The answer that text stands for: its vote object if one decodes, else
/// the keyword inference.
pub open spec fn text_response(t: Seq<char>) -> ResponseView {
    match output_response(t) {
        Some(v) => v,
        None => inferred_response(t),
    }
}

/// The text after any log lines before the first `{`.
pub open spec fn gemini_body(out: Seq<char>) -> Seq<char> {
    match first_at(out, "{"@, 0) {
        Some(k) => out.subrange(k, out.len() as int),
        None => out,
    }
}

/// The answer in Gemini's output: the text of the wrapper's `response`
/// member read by `text_response`, or without a wrapper a vote object.
pub open spec fn gemini_response(out: Seq<char>) -> Option<ResponseView> {
    match json_str_member(gemini_body(out), "response"@) {
        Some(t) => Some(text_response(t)),
        None => output_response(gemini_body(out)),
    }
}

/// The text of the first event line (from index `i` on) that is an
/// `item.completed` event whose item is an `agent_message` with a text.
pub open spec fn agent_message_from(ls: Seq<Seq<char>>, i: int) -> Option<Seq<char>>
    decreases ls.len() - i,
{
    if i < 0 || i >= ls.len() {
        None
    } else {
        let t = trim(ls[i]);
        if t.len() > 0 && json_str_member(t, "type"@) == Some("item.completed"@) && json_str_member2(
            t,
            "item"@,
            "type"@,
        ) == Some("agent_message"@) && json_str_member2(t, "item"@, "text"@) is Some {
            json_str_member2(t, "item"@, "text"@)
        } else {
            agent_message_from(ls, i + 1)
        }
    }
}

/// Reads a vote from text: the vote object if there is one, else keyword inference.
fn vote_from_text(text: &str, name: &str) -> (r: ModelVote)
    ensures
        r.executor@ == name@,
        vote_view(r) == vote_of(name@, text_response(text@)),
{
    match ExecutorResponse::parse_from_output(text, name) {
        Ok(resp) => resp.into_vote(name),
        Err(_) => analyze_text_response(text).into_vote(name),
    }
}

fn failed(name: &str, reason: &str) -> (r: TetradError)
    ensures
        r matches TetradError::ExecutorFailed(n, m) && n@ == name@ && m@ == reason@,
{
    TetradError::ExecutorFailed(String::from_str(name), String::from_str(reason))
}

/// The evaluator driven through `codex exec --json`.
#[derive(Debug, Clone)]
pub struct CodexExecutor {
    pub command_name: String,
    pub args: Vec<String>,
    pub timeout_secs: u64,
}

/// The evaluator driven through `gemini -o json`.
#[derive(Debug, Clone)]
pub struct GeminiExecutor {
    pub command_name: String,
    pub args: Vec<String>,
    pub timeout_secs: u64,
}

/// The evaluator driven through `qwen`.
#[derive(Debug, Clone)]
pub struct QwenExecutor {
    pub command_name: String,
    pub args: Vec<String>,
    pub timeout_secs: u64,
}

impl CodexExecutor {
    pub fn new() -> (r: CodexExecutor)
        ensures
            r.command_name@ == "codex"@,
            r.args@.len() == 2,
            r.args@[0]@ == "exec"@,
            r.args@[1]@ == "--json"@,
            r.timeout_secs == 60,
    {
        let mut args: Vec<String> = Vec::new();
        args.push(String::from_str("exec"));
        args.push(String::from_str("--json"));
        CodexExecutor { command_name: String::from_str("codex"), args, timeout_secs: 60 }
    }

    pub fn from_config(config: &ExecutorConfig) -> (r: CodexExecutor)
        ensures
            r.command_name@ == config.command@,
            r.args@ == config.args@,
            r.timeout_secs == config.timeout_secs,
    {
        CodexExecutor {
            command_name: config.command.clone(),
            args: config.args.clone(),
            timeout_secs: config.timeout_secs,
        }
    }

    pub fn with_timeout(self, secs: u64) -> (r: CodexExecutor)
        ensures
            r.command_name == self.command_name,
            r.args == self.args,
            r.timeout_secs == secs,
    {
        CodexExecutor { timeout_secs: secs, ..self }
    }

    pub fn name(&self) -> (r: &'static str)
        ensures
            r@ == "Codex"@,
    {
        "Codex"
    }

    pub fn command(&self) -> (r: &str)
        ensures
            r@ == self.command_name@,
    {
        self.command_name.as_str()
    }

    pub fn specialization(&self) -> (r: &'static str)
        ensures
            r@ == "syntax"@,
    {
        "syntax"
    }

    /// The text of the first `item.completed` event whose item is an
    /// `agent_message`, in newline-delimited JSON events.
    pub fn parse_codex_events(output: &str) -> (r: Option<String>)
        ensures
            opt_chars(r) == agent_message_from(split_lines(output@), 0),
    {
        let lines = split_lines_of(&chars_of(output));
        let ghost ls = lines@.map_values(|l: Vec<char>| l@);
        let mut i: usize = 0;
        while i < lines.len()
            invariant
                i <= lines@.len(),
                ls == lines@.map_values(|l: Vec<char>| l@),
                ls == split_lines(output@),
                agent_message_from(ls, 0) == agent_message_from(ls, i as int),
            decreases lines.len() - i,
        {
            let line = trim_chars(&lines[i]);
            proof {
                assert(ls[i as int] == lines@[i as int]@);
            }
            if line.len() > 0 {
                let text = string_of(line.as_slice());
                let kind = str_member(text.as_str(), "type");
                let item_kind = str_member2(text.as_str(), "item", "type");
                let item_text = str_member2(text.as_str(), "item", "text");
                let is_event = match &kind {
                    Some(k) => eq_text(k.as_str(), "item.completed"),
                    None => false,
                };
                let is_message = match &item_kind {
                    Some(k) => eq_text(k.as_str(), "agent_message"),
                    None => false,
                };
                if is_event && is_message {
                    match item_text {
                        Some(t) => {
                            return Some(t);
                        },
                        None => {},
                    }
                }
            }
            i += 1;
        }
        None
    }

    /// The vote for a finished or failed run. A missing command gives a
    /// neutral Warn/50 vote; a timeout or another spawn error is an error.
    pub fn interpret(&self, outcome: &SpawnOutcome) -> (r: Result<ModelVote, TetradError>)
        ensures
            edge_outcome_ok(*outcome, "Codex"@, r),
            outcome is Finished && outcome->stdout@.len() > 0 && agent_message_from(
                split_lines(outcome->stdout@),
                0,
            ) is Some ==> (r matches Ok(v) && vote_view(v) == vote_of(
                "Codex"@,
                text_response(agent_message_from(split_lines(outcome->stdout@), 0)->0),
            )),
    {
        match edge_outcome("Codex", outcome) {
            Some(r) => r,
            None => match outcome {
                SpawnOutcome::Finished { stdout, stderr, .. } => {
                    if stdout.as_str().unicode_len() > 0 {
                        match Self::parse_codex_events(stdout.as_str()) {
                            Some(msg) => {
                                return Ok(vote_from_text(msg.as_str(), "Codex"));
                            },
                            None => {},
                        }
                    }
                    let err = chars_of(stderr.as_str());
                    if err.len() > 0 && contains_str(&err, "Error") {
                        return Err(TetradError::ExecutorFailed(String::from_str("Codex"), stderr.clone()));
                    }
                    match ExecutorResponse::parse_from_output(stdout.as_str(), "Codex") {
                        Ok(resp) => Ok(resp.into_vote("Codex")),
                        Err(_) => Err(failed("Codex", "could not read the evaluator's answer")),
                    }
                },
                _ => Err(failed("Codex", "could not read the evaluator's answer")),
            },
        }
    }
}


impl GeminiExecutor {
    pub fn new() -> (r: GeminiExecutor)
        ensures
            r.command_name@ == "gemini"@,
            r.args@.len() == 2,
            r.args@[0]@ == "-o"@,
            r.args@[1]@ == "json"@,
            r.timeout_secs == 60,
    {
        let mut args: Vec<String> = Vec::new();
        args.push(String::from_str("-o"));
        args.push(String::from_str("json"));
        GeminiExecutor { command_name: String::from_str("gemini"), args, timeout_secs: 60 }
    }

    pub fn from_config(config: &ExecutorConfig) -> (r: GeminiExecutor)
        ensures
            r.command_name@ == config.command@,
            r.args@ == config.args@,
            r.timeout_secs == config.timeout_secs,
    {
        GeminiExecutor {
            command_name: config.command.clone(),
            args: config.args.clone(),
            timeout_secs: config.timeout_secs,
        }
    }

    pub fn with_timeout(self, secs: u64) -> (r: GeminiExecutor)
        ensures
            r.command_name == self.command_name,
            r.args == self.args,
            r.timeout_secs == secs,
    {
        GeminiExecutor { timeout_secs: secs, ..self }
    }

    pub fn name(&self) -> (r: &'static str)
        ensures
            r@ == "Gemini"@,
    {
        "Gemini"
    }

    pub fn command(&self) -> (r: &str)
        ensures
            r@ == self.command_name@,
    {
        self.command_name.as_str()
    }

    pub fn specialization(&self) -> (r: &'static str)
        ensures
            r@ == "architecture"@,
    {
        "architecture"
    }

    /// Reads the wrapper object `{"response": ...}` that follows any log
    /// lines; the response text is read as a vote object or by keywords.
    /// Without a wrapper, the output itself must hold a vote object.
    pub fn parse_gemini_output(output: &str) -> (r: Result<ExecutorResponse, TetradError>)
        ensures
            match gemini_response(output@) {
                Some(v) => r matches Ok(resp) && response_view(resp) == v,
                None => r matches Err(TetradError::ExecutorFailed(n, _)) && n@ == "Gemini"@,
            },
    {
        let all = chars_of(output);
        let brace = chars_of("{");
        let body = match ExecutorResponse::find_from(&all, &brace, 0) {
            Some(start) => {
                proof {
                    crate::parser::lemma_first_at_bounds(all@, brace@, 0);
                }
                string_of(crate::text::slice(&all, start, all.len()).as_slice())
            },
            None => String::from_str(output),
        };
        match str_member(body.as_str(), "response") {
            Some(text) => {
                let r = match ExecutorResponse::parse_from_output(text.as_str(), "Gemini") {
                    Ok(r) => r,
                    Err(_) => analyze_text_response(text.as_str()),
                };
                Ok(r)
            },
            None => match ExecutorResponse::parse_from_output(body.as_str(), "Gemini") {
                Ok(r) => Ok(r),
                Err(_) => Err(failed("Gemini", "could not read the evaluator's answer")),
            },
        }
    }

    /// The vote for a finished or failed run. Error text on stderr fails the
    /// run unless it is the credentials-cache notice.
    pub fn interpret(&self, outcome: &SpawnOutcome) -> (r: Result<ModelVote, TetradError>)
        ensures
            edge_outcome_ok(*outcome, "Gemini"@, r),
            outcome is Finished && outcome->stdout@.len() > 0 && gemini_response(
                outcome->stdout@,
            ) is Some ==> (r matches Ok(v) && vote_view(v) == vote_of(
                "Gemini"@,
                gemini_response(outcome->stdout@)->0,
            )),
    {
        match edge_outcome("Gemini", outcome) {
            Some(r) => r,
            None => match outcome {
                SpawnOutcome::Finished { stdout, stderr, .. } => {
                    let out_len = stdout.as_str().unicode_len();
                    if out_len > 0 {
                        match Self::parse_gemini_output(stdout.as_str()) {
                            Ok(resp) => {
                                return Ok(resp.into_vote("Gemini"));
                            },
                            Err(_) => {},
                        }
                    }
                    let err = chars_of(stderr.as_str());
                    if err.len() > 0 && (contains_str(&err, "Error") || contains_str(&err, "error"))
                        && !contains_str(&err, "Loaded cached credentials") {
                        return Err(TetradError::ExecutorFailed(String::from_str("Gemini"), stderr.clone()));
                    }
                    if out_len == 0 && err.len() > 0 {
                        match Self::parse_gemini_output(stderr.as_str()) {
                            Ok(resp) => {
                                return Ok(resp.into_vote("Gemini"));
                            },
                            Err(_) => {},
                        }
                    }
                    Err(failed("Gemini", "could not read the evaluator's answer"))
                },
                _ => Err(failed("Gemini", "could not read the evaluator's answer")),
            },
        }
    }
}

impl QwenExecutor {
    pub fn new() -> (r: QwenExecutor)
        ensures
            r.command_name@ == "qwen"@,
            r.args@.len() == 0,
            r.timeout_secs == 60,
    {
        QwenExecutor { command_name: String::from_str("qwen"), args: Vec::new(), timeout_secs: 60 }
    }

    pub fn from_config(config: &ExecutorConfig) -> (r: QwenExecutor)
        ensures
            r.command_name@ == config.command@,
            r.args@ == config.args@,
            r.timeout_secs == config.timeout_secs,
    {
        QwenExecutor {
            command_name: config.command.clone(),
            args: config.args.clone(),
            timeout_secs: config.timeout_secs,
        }
    }

    pub fn with_timeout(self, secs: u64) -> (r: QwenExecutor)
        ensures
            r.command_name == self.command_name,
            r.args == self.args,
            r.timeout_secs == secs,
    {
        QwenExecutor { timeout_secs: secs, ..self }
    }

    pub fn name(&self) -> (r: &'static str)
        ensures
            r@ == "Qwen"@,
    {
        "Qwen"
    }

    pub fn command(&self) -> (r: &str)
        ensures
            r@ == self.command_name@,
    {
        self.command_name.as_str()
    }

    pub fn specialization(&self) -> (r: &'static str)
        ensures
            r@ == "logic"@,
    {
        "logic"
    }

    /// The vote for a finished or failed run: a successful run must print a
    /// vote object; a failed one reports its stderr.
    pub fn interpret(&self, outcome: &SpawnOutcome) -> (r: Result<ModelVote, TetradError>)
        ensures
            edge_outcome_ok(*outcome, "Qwen"@, r),
            outcome is Finished && !outcome->success ==> r is Err,
            outcome is Finished && outcome->success ==> match output_response(outcome->stdout@) {
                Some(v) => r matches Ok(m) && vote_view(m) == vote_of("Qwen"@, v),
                None => r is Err,
            },
    {
        match edge_outcome("Qwen", outcome) {
            Some(r) => r,
            None => match outcome {
                SpawnOutcome::Finished { success, stdout, stderr } => {
                    if *success {
                        match ExecutorResponse::parse_from_output(stdout.as_str(), "Qwen") {
                            Ok(resp) => Ok(resp.into_vote("Qwen")),
                            Err(e) => Err(e),
                        }
                    } else {
                        Err(TetradError::ExecutorFailed(String::from_str("Qwen"), stderr.clone()))
                    }
                },
                _ => Err(failed("Qwen", "could not read the evaluator's answer")),
            },
        }
    }
}

} // verus!
