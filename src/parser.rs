//! Finding a vote object in a evaluator's mixed-text output.
use vstd::prelude::*;
use vstd::string::StringExecFns;
use crate::errors::TetradError;
use crate::text::{chars_of, contains_str, has_sub, occurs_at, slice, string_of};
use crate::types::{strings_of, vote_view, ModelVote, Vote};

verus! {

#[verifier::external_type_specification]
#[verifier::external_body]
pub struct ExJsonValue(serde_json::Value);

#[verifier::external_type_specification]
#[verifier::external_body]
pub struct ExJsonError(serde_json::Error);

/// First position at or after `from` where `n` occurs in `s`.
pub open spec fn first_at(s: Seq<char>, n: Seq<char>, from: int) -> Option<int>
    decreases s.len() - from,
{
    if from < 0 || from + n.len() > s.len() {
        None
    } else if occurs_at(s, n, from) {
        Some(from)
    } else if from >= s.len() {
        None
    } else {
        first_at(s, n, from + 1)
    }
}

pub proof fn lemma_first_at_bounds(s: Seq<char>, n: Seq<char>, from: int)
    ensures
        first_at(s, n, from) is Some ==> from <= first_at(s, n, from)->0 && first_at(s, n, from)->0
            + n.len() <= s.len() && occurs_at(s, n, first_at(s, n, from)->0),
    decreases s.len() - from,
{
    if from >= 0 && from + n.len() <= s.len() && !occurs_at(s, n, from) && from < s.len() {
        lemma_first_at_bounds(s, n, from + 1);
    }
}

/// `s` with each fenced block replaced by its content: the opening fence and
/// the rest of its line go, then the closing fence.
pub open spec fn strip_fences(s: Seq<char>) -> Seq<char>
    decreases s.len(),
{
    match first_at(s, "```"@, 0) {
        None => s,
        Some(start) => {
            let body = match first_at(s, "\n"@, start + 3) {
                Some(nl) => nl + 1,
                None => start + 3,
            };
            match first_at(s, "```"@, body) {
                None => s,
                Some(close) => {
                    let next = s.subrange(0, start) + s.subrange(body, close) + s.subrange(
                        close + 3,
                        s.len() as int,
                    );
                    if next.len() < s.len() {
                        strip_fences(next)
                    } else {
                        s
                    }
                },
            }
        },
    }
}

/// The brace scan from position `i`: `depth` open braces, inside a string or
/// not, and whether the previous character was an escaping backslash.
pub open spec fn close_scan(c: Seq<char>, i: int, depth: int, in_str: bool, esc: bool) -> Option<
    int,
>
    decreases c.len() - i,
{
    if i < 0 || i >= c.len() {
        None
    } else if esc {
        close_scan(c, i + 1, depth, in_str, false)
    } else if c[i] == '\\' && in_str {
        close_scan(c, i + 1, depth, in_str, true)
    } else if c[i] == '"' {
        close_scan(c, i + 1, depth, !in_str, false)
    } else if c[i] == '{' && !in_str {
        close_scan(c, i + 1, depth + 1, in_str, false)
    } else if c[i] == '}' && !in_str {
        if depth - 1 == 0 {
            Some(i)
        } else {
            close_scan(c, i + 1, depth - 1, in_str, false)
        }
    } else {
        close_scan(c, i + 1, depth, in_str, false)
    }
}

/// Position of the brace that closes the object opened at `start`.
pub open spec fn closing_brace(c: Seq<char>, start: int) -> Option<int> {
    close_scan(c, start, 0, false, false)
}

/// The text mentions both required fields.
pub open spec fn is_vote_object(t: Seq<char>) -> bool {
    has_sub(t, "\"vote\""@) && has_sub(t, "\"score\""@)
}

/// The first balanced object, scanning from `i`, that mentions both fields.
pub open spec fn balanced_from(c: Seq<char>, i: int) -> Option<Seq<char>>
    decreases c.len() - i,
{
    if i < 0 || i >= c.len() {
        None
    } else if c[i] == '{' && closing_brace(c, i) is Some && is_vote_object(
        c.subrange(i, closing_brace(c, i)->0 + 1),
    ) {
        Some(c.subrange(i, closing_brace(c, i)->0 + 1))
    } else {
        balanced_from(c, i + 1)
    }
}

proof fn lemma_close_scan_bounds(c: Seq<char>, i: int, depth: int, in_str: bool, esc: bool)
    ensures
        close_scan(c, i, depth, in_str, esc) matches Some(k) ==> i <= k < c.len(),
    decreases c.len() - i,
{
    if 0 <= i < c.len() {
        lemma_close_scan_bounds(c, i + 1, depth, in_str, false);
        lemma_close_scan_bounds(c, i + 1, depth, in_str, true);
        lemma_close_scan_bounds(c, i + 1, depth, !in_str, false);
        lemma_close_scan_bounds(c, i + 1, depth + 1, in_str, false);
        lemma_close_scan_bounds(c, i + 1, depth - 1, in_str, false);
    }
}

fn extend(out: &mut Vec<char>, v: &Vec<char>)
    ensures
        final(out)@ == old(out)@ + v@,
{
    let mut i: usize = 0;
    while i < v.len()
        invariant
            i <= v@.len(),
            out@ == old(out)@ + v@.subrange(0, i as int),
        decreases v.len() - i,
    {
        out.push(v[i]);
        i += 1;
        assert(out@ =~= old(out)@ + v@.subrange(0, i as int));
    }
    assert(v@.subrange(0, v@.len() as int) =~= v@);
}

/// A evaluator's answer as it was decoded.
#[derive(Debug, Clone)]
pub struct ExecutorResponse {
    pub vote: String,
    pub score: u8,
    pub reasoning: String,
    pub issues: Vec<String>,
    pub suggestions: Vec<String>,
}

/// Name for what `str::to_uppercase` returns.
pub uninterp spec fn upper_of(s: Seq<char>) -> Seq<char>;

/// Relies on `str::to_uppercase`: the result depends on the characters alone.
#[verifier::external_body]
fn to_upper(s: &str) -> (r: String)
    ensures
        r@ == upper_of(s@),
{
    s.to_uppercase()
}

/// The vote that an uppercased vote label stands for.
pub open spec fn vote_of_label(u: Seq<char>) -> Vote {
    if u == "PASS"@ {
        Vote::Pass
    } else if u == "WARN"@ {
        Vote::Warn
    } else {
        Vote::Fail
    }
}

/// Relies on `serde_json::from_str`, read into a `serde_json::Value`.
#[verifier::external_body]
pub(crate) fn parse_json(s: &str) -> (r: Result<serde_json::Value, serde_json::Error>) {
    serde_json::from_str::<serde_json::Value>(s)
}

/// Relies on `serde_json::Value::get`: the member `key` of an object.
#[verifier::external_body]
pub(crate) fn json_get<'a>(v: &'a serde_json::Value, key: &str) -> (r: Option<&'a serde_json::Value>) {
    v.get(key)
}

/// Relies on `serde_json::Value::as_str`: the text of a string value.
#[verifier::external_body]
pub(crate) fn json_as_str(v: &serde_json::Value) -> (r: Option<String>) {
    v.as_str().map(|s| s.to_string())
}

/// Relies on `serde_json::Value`'s `Clone`: a copy of the value.
#[verifier::external_body]
pub(crate) fn json_clone(v: &serde_json::Value) -> (r: serde_json::Value)
    ensures
        r == *v,
{
    v.clone()
}

/// Name: `text` is one JSON value.
pub uninterp spec fn json_is_value(text: Seq<char>) -> bool;

/// Name: the string member `key` of the JSON object `text`, if it has one.
pub uninterp spec fn json_str_member(text: Seq<char>, key: Seq<char>) -> Option<Seq<char>>;

/// Name: the string member `inner` of the object member `outer` of the JSON
/// object `text`, if there is one.
pub uninterp spec fn json_str_member2(text: Seq<char>, outer: Seq<char>, inner: Seq<char>) -> Option<
    Seq<char>,
>;

/// Name: the member `key` of the JSON object `text` as a `u64`, if it is one.
pub uninterp spec fn json_u64_member(text: Seq<char>, key: Seq<char>) -> Option<u64>;

/// Name: the member `key` of the JSON object `text` as an `i64`, if it is one.
pub uninterp spec fn json_i64_member(text: Seq<char>, key: Seq<char>) -> Option<i64>;

/// Name: the JSON object `text` has a member `key`.
pub uninterp spec fn json_has_member(text: Seq<char>, key: Seq<char>) -> bool;

/// Name: the member `key` of the JSON object `text` as a list of strings, if
/// it is an array holding only strings.
pub uninterp spec fn json_str_list_member(text: Seq<char>, key: Seq<char>) -> Option<
    Seq<Seq<char>>,
>;

pub open spec fn opt_chars(o: Option<String>) -> Option<Seq<char>> {
    match o {
        Some(s) => Some(s@),
        None => None,
    }
}

/// Relies on `serde_json::from_str` into a `serde_json::Value`: whether the
/// text parses.
#[verifier::external_body]
pub(crate) fn is_json(text: &str) -> (r: bool)
    ensures
        r == json_is_value(text@),
{
    serde_json::from_str::<serde_json::Value>(text).is_ok()
}

/// Relies on `serde_json::from_str`, `Value::get` and `Value::as_str`.
#[verifier::external_body]
pub(crate) fn str_member(text: &str, key: &str) -> (r: Option<String>)
    ensures
        opt_chars(r) == json_str_member(text@, key@),
{
    let v: Option<serde_json::Value> = serde_json::from_str(text).ok();
    v.and_then(|v| v.get(key).and_then(|m| m.as_str()).map(|s| s.to_string()))
}

/// Relies on `serde_json::from_str`, `Value::get` (twice) and `Value::as_str`.
#[verifier::external_body]
pub(crate) fn str_member2(text: &str, outer: &str, inner: &str) -> (r: Option<String>)
    ensures
        opt_chars(r) == json_str_member2(text@, outer@, inner@),
{
    let v: Option<serde_json::Value> = serde_json::from_str(text).ok();
    v.and_then(|v| v.get(outer).and_then(|o| o.get(inner)).and_then(|m| m.as_str()).map(|s| s.to_string()))
}

/// Relies on `serde_json::from_str`, `Value::get` and `Value::as_u64`.
#[verifier::external_body]
fn u64_member(text: &str, key: &str) -> (r: Option<u64>)
    ensures
        r == json_u64_member(text@, key@),
{
    let v: Option<serde_json::Value> = serde_json::from_str(text).ok();
    v.and_then(|v| v.get(key).and_then(|m| m.as_u64()))
}

/// Relies on `serde_json::from_str`, `Value::get` and `Value::as_i64`.
#[verifier::external_body]
pub(crate) fn i64_member(text: &str, key: &str) -> (r: Option<i64>)
    ensures
        r == json_i64_member(text@, key@),
{
    let v: Option<serde_json::Value> = serde_json::from_str(text).ok();
    v.and_then(|v| v.get(key).and_then(|m| m.as_i64()))
}

/// Relies on `serde_json::from_str` and `Value::get`.
#[verifier::external_body]
fn has_member(text: &str, key: &str) -> (r: bool)
    ensures
        r == json_has_member(text@, key@),
{
    let v: Option<serde_json::Value> = serde_json::from_str(text).ok();
    v.map_or(false, |v| v.get(key).is_some())
}

/// Relies on `serde_json::from_str`, `Value::get`, `Value::as_array` and
/// `Value::as_str`.
#[verifier::external_body]
fn str_list_member(text: &str, key: &str) -> (r: Option<Vec<String>>)
    ensures
        match r {
            Some(l) => json_str_list_member(text@, key@) == Some(strings_of(l@)),
            None => json_str_list_member(text@, key@) is None,
        },
{
    let v: Option<serde_json::Value> = serde_json::from_str(text).ok();
    v.and_then(|v| v.get(key).and_then(|m| m.as_array()).and_then(|items| {
        items.iter().map(|i| i.as_str().map(|s| s.to_string())).collect::<Option<Vec<String>>>()
    }))
}

/// A decoded answer as plain values: vote label, score, reasoning, issues,
/// suggestions.
pub type ResponseView = (Seq<char>, u8, Seq<char>, Seq<Seq<char>>, Seq<Seq<char>>);

pub open spec fn response_view(r: ExecutorResponse) -> ResponseView {
    (r.vote@, r.score, r.reasoning@, strings_of(r.issues@), strings_of(r.suggestions@))
}

/// An optional list member: empty when absent; present, it must be a list
/// of strings.
pub open spec fn optional_list_of(text: Seq<char>, key: Seq<char>) -> Option<Seq<Seq<char>>> {
    if json_has_member(text, key) {
        json_str_list_member(text, key)
    } else {
        Some(Seq::empty())
    }
}

/// What a vote object decodes to: `vote`, `score` (at most 255) and
/// `reasoning` are required; `issues` and `suggestions` default to empty.
pub open spec fn decoded(text: Seq<char>) -> Option<ResponseView> {
    match (
        json_str_member(text, "vote"@),
        json_u64_member(text, "score"@),
        json_str_member(text, "reasoning"@),
        optional_list_of(text, "issues"@),
        optional_list_of(text, "suggestions"@),
    ) {
        (Some(v), Some(s), Some(r), Some(i), Some(g)) => if s <= 255 {
            Some((v, s as u8, r, i, g))
        } else {
            None
        },
        _ => None,
    }
}

/// The answer held in an evaluator's output: the first balanced object of
/// the fence-stripped text that mentions both fields, decoded.
pub open spec fn output_response(out: Seq<char>) -> Option<ResponseView> {
    match balanced_from(strip_fences(out), 0) {
        Some(t) => decoded(t),
        None => None,
    }
}

/// The vote that an answer stands for, cast by `name`.
pub open spec fn vote_of(name: Seq<char>, v: ResponseView) -> (
    Seq<char>,
    Vote,
    u8,
    Seq<char>,
    Seq<Seq<char>>,
    Seq<Seq<char>>,
) {
    (name, vote_of_label(upper_of(v.0)), v.1, v.2, v.3, v.4)
}

fn failed(executor_name: &str, reason: &str) -> (r: TetradError)
    ensures
        r matches TetradError::ExecutorFailed(n, _) && n@ == executor_name@,
{
    TetradError::ExecutorFailed(String::from_str(executor_name), String::from_str(reason))
}

fn optional_list(json: &str, key: &str) -> (r: Option<Vec<String>>)
    ensures
        match r {
            Some(l) => optional_list_of(json@, key@) == Some(strings_of(l@)),
            None => optional_list_of(json@, key@) is None,
        },
{
    if has_member(json, key) {
        str_list_member(json, key)
    } else {
        let v: Vec<String> = Vec::new();
        assert(strings_of(v@) =~= Seq::<Seq<char>>::empty());
        Some(v)
    }
}

impl ExecutorResponse {
    /// Decodes the object text: `vote`, `score` and `reasoning` are required;
    /// `issues` and `suggestions` default to empty.
    pub fn decode(json: &str) -> (r: Option<ExecutorResponse>)
        ensures
            match decoded(json@) {
                Some(v) => r matches Some(resp) && response_view(resp) == v,
                None => r is None,
            },
    {
        let vote = match str_member(json, "vote") {
            Some(s) => s,
            None => {
                return None;
            },
        };
        let score = match u64_member(json, "score") {
            Some(n) => n,
            None => {
                return None;
            },
        };
        let reasoning = match str_member(json, "reasoning") {
            Some(s) => s,
            None => {
                return None;
            },
        };
        let issues = match optional_list(json, "issues") {
            Some(l) => l,
            None => {
                return None;
            },
        };
        let suggestions = match optional_list(json, "suggestions") {
            Some(l) => l,
            None => {
                return None;
            },
        };
        if score > 255 {
            return None;
        }
        Some(ExecutorResponse { vote, score: score as u8, reasoning, issues, suggestions })
    }

    /// Extracts and decodes the vote object from an evaluator's output: the
    /// first balanced object of the fence-stripped text that mentions both
    /// `"vote"` and `"score"`. Fails exactly when there is none or it does
    /// not decode.
    pub fn parse_from_output(output: &str, executor_name: &str) -> (r: Result<
        ExecutorResponse,
        TetradError,
    >)
        ensures
            match output_response(output@) {
                Some(v) => r matches Ok(resp) && response_view(resp) == v,
                None => r matches Err(TetradError::ExecutorFailed(n, _)) && n@ == executor_name@,
            },
    {
        let cleaned = Self::strip_code_fences(&chars_of(output));
        match Self::find_balanced_json(&cleaned) {
            Some(candidate) => {
                let text = string_of(candidate.as_slice());
                match Self::decode(text.as_str()) {
                    Some(resp) => Ok(resp),
                    None => Err(failed(executor_name, "the vote object does not decode")),
                }
            },
            None => Err(failed(executor_name, "the output holds no vote object")),
        }
    }

    /// Position at or after `from` of the first occurrence of `n` in `s`.
    pub(crate) fn find_from(s: &Vec<char>, n: &Vec<char>, from: usize) -> (r: Option<usize>)
        ensures
            match r {
                Some(k) => first_at(s@, n@, from as int) == Some(k as int),
                None => first_at(s@, n@, from as int) is None,
            },
    {
        let mut i = from;
        while i <= s.len() && n.len() <= s.len() - i
            invariant
                from <= i,
                first_at(s@, n@, from as int) == first_at(s@, n@, i as int),
            decreases s.len() - i,
        {
            if crate::text::matches_at(s, n, i) {
                return Some(i);
            }
            if i == s.len() {
                return None;
            }
            i += 1;
        }
        None
    }

    /// Replaces each fenced block by its content.
    pub fn strip_code_fences(input: &Vec<char>) -> (r: Vec<char>)
        ensures
            r@ == strip_fences(input@),
    {
        let fence = chars_of("```");
        let newline = chars_of("\n");
        proof {
            reveal_strlit("```");
            reveal_strlit("\n");
        }
        let mut result = slice(input, 0, input.len());
        assert(result@ =~= input@);
        loop
            invariant
                fence@ == "```"@,
                newline@ == "\n"@,
                fence@.len() == 3,
                newline@.len() == 1,
                strip_fences(result@) == strip_fences(input@),
            decreases result@.len(),
        {
            let len = result.len();
            let start = match Self::find_from(&result, &fence, 0) {
                None => {
                    return result;
                },
                Some(k) => k,
            };
            proof {
                lemma_first_at_bounds(result@, fence@, 0);
                assert(first_at(result@, fence@, 0) == Some(start as int));
                assert(start + 3 <= result@.len());
            }
            let body = match Self::find_from(&result, &newline, start + 3) {
                Some(nl) => {
                    proof {
                        lemma_first_at_bounds(result@, newline@, start + 3);
                        assert(nl + 1 <= result@.len());
                    }
                    nl + 1
                },
                None => start + 3,
            };
            let close = match Self::find_from(&result, &fence, body) {
                None => {
                    return result;
                },
                Some(k) => k,
            };
            proof {
                lemma_first_at_bounds(result@, fence@, body as int);
            }
            let mut next = slice(&result, 0, start);
            let mid = slice(&result, body, close);
            let tail = slice(&result, close + 3, result.len());
            extend(&mut next, &mid);
            extend(&mut next, &tail);
            result = next;
        }
    }

    /// Position of the brace closing the object that opens at `start`.
    pub fn find_closing_brace(input: &Vec<char>, start: usize) -> (r: Option<usize>)
        requires
            start < input@.len(),
        ensures
            match r {
                Some(k) => closing_brace(input@, start as int) == Some(k as int),
                None => closing_brace(input@, start as int) is None,
            },
    {
        let mut depth: u64 = 0;
        let mut neg: u64 = 0;
        let mut in_str = false;
        let mut esc = false;
        let mut i = start;
        while i < input.len()
            invariant
                start <= i <= input@.len(),
                depth <= i - start,
                neg <= i - start,
                depth == 0 || neg == 0,
                closing_brace(input@, start as int) == close_scan(
                    input@,
                    i as int,
                    depth as int - neg as int,
                    in_str,
                    esc,
                ),
            decreases input.len() - i,
        {
            let c = input[i];
            if esc {
                esc = false;
            } else if c == '\\' && in_str {
                esc = true;
            } else if c == '"' {
                in_str = !in_str;
            } else if c == '{' && !in_str {
                if neg > 0 {
                    neg = neg - 1;
                } else {
                    depth = depth + 1;
                }
            } else if c == '}' && !in_str {
                if depth == 1 {
                    return Some(i);
                }
                if depth > 0 {
                    depth = depth - 1;
                } else {
                    neg = neg + 1;
                }
            }
            i += 1;
        }
        None
    }

    /// Whether the text mentions both `"vote"` and `"score"`.
    pub fn is_valid_executor_json(text: &Vec<char>) -> (r: bool)
        ensures
            r == is_vote_object(text@),
    {
        contains_str(text, "\"vote\"") && contains_str(text, "\"score\"")
    }

    /// The first balanced object that mentions both required fields.
    pub fn find_balanced_json(input: &Vec<char>) -> (r: Option<Vec<char>>)
        ensures
            match r {
                Some(t) => balanced_from(input@, 0) == Some(t@),
                None => balanced_from(input@, 0) is None,
            },
    {
        let mut i: usize = 0;
        while i < input.len()
            invariant
                i <= input@.len(),
                balanced_from(input@, 0) == balanced_from(input@, i as int),
            decreases input.len() - i,
        {
            if input[i] == '{' {
                match Self::find_closing_brace(input, i) {
                    Some(end) => {
                        proof {
                            lemma_close_scan_bounds(input@, i as int, 0, false, false);
                        }
                        let candidate = slice(input, i, end + 1);
                        if Self::is_valid_executor_json(&candidate) {
                            return Some(candidate);
                        }
                    },
                    None => {},
                }
            }
            i += 1;
        }
        None
    }

    /// The vote this answer stands for: `PASS` and `WARN` (in any case) are
    /// Pass and Warn, anything else is Fail.
    pub fn into_vote(self, executor_name: &str) -> (r: ModelVote)
        ensures
            r.executor@ == executor_name@,
            r.vote == vote_of_label(upper_of(self.vote@)),
            r.score == self.score,
            r.reasoning@ == self.reasoning@,
            r.issues == self.issues,
            r.suggestions == self.suggestions,
            vote_view(r) == vote_of(executor_name@, response_view(self)),
    {
        proof {
            reveal_strlit("PASS");
            reveal_strlit("WARN");
        }
        let upper = to_upper(self.vote.as_str());
        let label = chars_of(upper.as_str());
        let vote = if label.len() == 4 && crate::text::starts_with_str(&label, "PASS") {
            Vote::Pass
        } else if label.len() == 4 && crate::text::starts_with_str(&label, "WARN") {
            Vote::Warn
        } else {
            Vote::Fail
        };
        proof {
            if label@.len() == 4 {
                assert(label@.subrange(0, 4) =~= label@);
            }
        }
        ModelVote {
            executor: String::from_str(executor_name),
            vote,
            score: self.score,
            reasoning: self.reasoning,
            issues: self.issues,
            suggestions: self.suggestions,
        }
    }
}

} // verus!
