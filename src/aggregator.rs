//! Turning a set of votes into a consolidated result: mean score, findings
//! grouped across evaluators, and markdown feedback.
use vstd::prelude::*;
use vstd::string::StringExecFns;
use crate::rules::ConsensusRule;
use crate::tally::{count_vote, lowest_of, lowest_score, mean_of, mean_score, tally};
use crate::text::{
    chars_of, contains, contains_str, decimal, decimal_of, has_sub, lower_of, string_of, take,
    take_chars, to_lower, trim, trim_chars,
};
use crate::types::{
    Decision, EvaluationResult, Finding, ModelVote, Severity, Vote, severity_rank,
};

verus! {

/// A finding as plain values.
pub struct FindingSpec {
    pub severity: Severity,
    pub category: Seq<char>,
    pub issue: Seq<char>,
    pub suggestion: Option<Seq<char>>,
    pub source: Seq<char>,
    pub consensus_strength: Seq<char>,
}

pub open spec fn opt_view(o: Option<String>) -> Option<Seq<char>> {
    match o {
        Some(s) => Some(s@),
        None => None,
    }
}

pub open spec fn finding_view(f: Finding) -> FindingSpec {
    FindingSpec {
        severity: f.severity,
        category: f.category@,
        issue: f.issue@,
        suggestion: opt_view(f.suggestion),
        source: f.source@,
        consensus_strength: f.consensus_strength@,
    }
}

/// The key under which issues are grouped: lowercased, then trimmed.
pub open spec fn issue_key(issue: Seq<char>) -> Seq<char> {
    trim(lower_of(issue))
}

/// Severity read from lowercased issue text.
pub open spec fn severity_rule(t: Seq<char>) -> Severity {
    if has_sub(t, "security"@) || has_sub(t, "vulnerability"@)
        || has_sub(t, "injection"@) {
        Severity::Critical
    } else if has_sub(t, "error"@) || has_sub(t, "bug"@) || has_sub(t, "fail"@) || has_sub(
        t,
        "crash"@,
    ) {
        Severity::Error
    } else if has_sub(t, "warning"@) || has_sub(t, "warn"@) || has_sub(t, "should"@) || has_sub(
        t,
        "consider"@,
    ) {
        Severity::Warning
    } else {
        Severity::Info
    }
}

/// Category read from lowercased issue text.
pub open spec fn category_rule(t: Seq<char>) -> Seq<char> {
    if has_sub(t, "security"@) || has_sub(t, "injection"@) || has_sub(t, "vulnerability"@)
        || has_sub(t, "password"@) || has_sub(t, "credential"@) {
        "security"@
    } else if has_sub(t, "performance"@) || has_sub(t, "slow"@) || has_sub(t, "memory"@)
        || has_sub(t, "allocation"@) {
        "performance"@
    } else if has_sub(t, "logic"@) || has_sub(t, "bug"@) || has_sub(t, "incorrect"@) || has_sub(
        t,
        "wrong"@,
    ) {
        "logic"@
    } else if has_sub(t, "style"@) || has_sub(t, "convention"@) || has_sub(t, "naming"@)
        || has_sub(t, "format"@) {
        "style"@
    } else if has_sub(t, "architecture"@) || has_sub(t, "design"@) || has_sub(t, "pattern"@)
        || has_sub(t, "structure"@) {
        "architecture"@
    } else {
        "general"@
    }
}

/// Agreement label for an issue reported by `n` evaluators.
pub open spec fn strength_of(n: nat) -> Seq<char> {
    if n >= 3 {
        "strong"@
    } else if n == 2 {
        "moderate"@
    } else {
        "weak"@
    }
}

/// Each issue of `v` with its key, paired with the evaluator's name.
pub open spec fn issue_entries(v: ModelVote) -> Seq<(Seq<char>, Seq<char>)> {
    v.issues@.map_values(|s: String| (issue_key(s@), v.executor@))
}

/// All issues of all votes, in order, keyed.
pub open spec fn entries(vs: Seq<ModelVote>) -> Seq<(Seq<char>, Seq<char>)>
    decreases vs.len(),
{
    if vs.len() == 0 {
        Seq::empty()
    } else {
        entries(vs.drop_last()) + issue_entries(vs.last())
    }
}

/// Distinct keys of `es`, in order of first appearance.
pub open spec fn group_keys(es: Seq<(Seq<char>, Seq<char>)>) -> Seq<Seq<char>>
    decreases es.len(),
{
    if es.len() == 0 {
        Seq::empty()
    } else {
        let p = group_keys(es.drop_last());
        if p.contains(es.last().0) {
            p
        } else {
            p.push(es.last().0)
        }
    }
}

/// Evaluators of the entries of `es` whose key is `k`, in order.
pub open spec fn sources_for(es: Seq<(Seq<char>, Seq<char>)>, k: Seq<char>) -> Seq<Seq<char>>
    decreases es.len(),
{
    if es.len() == 0 {
        Seq::empty()
    } else if es.last().0 == k {
        sources_for(es.drop_last(), k).push(es.last().1)
    } else {
        sources_for(es.drop_last(), k)
    }
}

/// The strings of `ss` separated by `", "`.
pub open spec fn join_comma(ss: Seq<Seq<char>>) -> Seq<char>
    decreases ss.len(),
{
    if ss.len() == 0 {
        Seq::empty()
    } else if ss.len() == 1 {
        ss[0]
    } else {
        join_comma(ss.drop_last()) + ", "@ + ss.last()
    }
}

/// The suggestion of `v` paired (same index) with an issue of key `k`, from index `i` on.
pub open spec fn paired_from(v: ModelVote, k: Seq<char>, i: int) -> Option<Seq<char>>
    decreases v.issues@.len() - i,
{
    if i < 0 || i >= v.issues@.len() {
        None
    } else if issue_key(v.issues@[i]@) == k && i < v.suggestions@.len() {
        Some(v.suggestions@[i]@)
    } else {
        paired_from(v, k, i + 1)
    }
}

/// The first suggestion of `v` from index `i` on whose lowercase holds `p`.
pub open spec fn prefix_from(v: ModelVote, p: Seq<char>, i: int) -> Option<Seq<char>>
    decreases v.suggestions@.len() - i,
{
    if i < 0 || i >= v.suggestions@.len() {
        None
    } else if has_sub(lower_of(v.suggestions@[i]@), p) {
        Some(v.suggestions@[i]@)
    } else {
        prefix_from(v, p, i + 1)
    }
}

pub open spec fn vote_suggestion(v: ModelVote, k: Seq<char>) -> Option<Seq<char>> {
    match paired_from(v, k, 0) {
        Some(s) => Some(s),
        None => prefix_from(v, take(k, 20), 0),
    }
}

/// The suggestion for the issue of key `k`, looking at votes from index `j` on.
pub open spec fn suggestion_from(vs: Seq<ModelVote>, k: Seq<char>, j: int) -> Option<Seq<char>>
    decreases vs.len() - j,
{
    if j < 0 || j >= vs.len() {
        None
    } else {
        match vote_suggestion(vs[j], k) {
            Some(s) => Some(s),
            None => suggestion_from(vs, k, j + 1),
        }
    }
}

pub open spec fn finding_for(vs: Seq<ModelVote>, k: Seq<char>) -> FindingSpec {
    let src = sources_for(entries(vs), k);
    FindingSpec {
        severity: severity_rule(k),
        category: category_rule(k),
        issue: k,
        suggestion: suggestion_from(vs, k, 0),
        source: join_comma(src),
        consensus_strength: strength_of(src.len()),
    }
}

/// The findings of `vs` in order of first report.
pub open spec fn grouped_findings(vs: Seq<ModelVote>) -> Seq<FindingSpec> {
    group_keys(entries(vs)).map_values(|k: Seq<char>| finding_for(vs, k))
}

/// The members of `fs` with severity `s`, in order.
pub open spec fn with_severity(fs: Seq<FindingSpec>, s: Severity) -> Seq<FindingSpec>
    decreases fs.len(),
{
    if fs.len() == 0 {
        Seq::empty()
    } else if fs.last().severity == s {
        with_severity(fs.drop_last(), s).push(fs.last())
    } else {
        with_severity(fs.drop_last(), s)
    }
}

/// `fs` ordered Critical, Error, Warning, Info, keeping the order within each severity.
pub open spec fn by_severity(fs: Seq<FindingSpec>) -> Seq<FindingSpec> {
    with_severity(fs, Severity::Critical) + with_severity(fs, Severity::Error) + with_severity(
        fs,
        Severity::Warning,
    ) + with_severity(fs, Severity::Info)
}

/// The findings that the aggregator reports for `vs`.
pub open spec fn expected_findings(vs: Seq<ModelVote>) -> Seq<FindingSpec> {
    by_severity(grouped_findings(vs))
}

/// Severities never increase along `fs`.
pub open spec fn severity_sorted(fs: Seq<FindingSpec>) -> bool {
    forall|i: int, j: int|
        0 <= i < j < fs.len() ==> severity_rank(#[trigger] fs[i].severity) >= severity_rank(
            #[trigger] fs[j].severity,
        )
}

pub proof fn lemma_with_severity_all(fs: Seq<FindingSpec>, s: Severity)
    ensures
        forall|i: int|
            0 <= i < with_severity(fs, s).len() ==> (#[trigger] with_severity(fs, s)[i]).severity
                == s,
    decreases fs.len(),
{
    if fs.len() > 0 {
        lemma_with_severity_all(fs.drop_last(), s);
    }
}

/// Whatever the votes, the reported findings are ordered by non-increasing
/// severity: Critical before Error before Warning before Info.
pub proof fn lemma_findings_sorted(vs: Seq<ModelVote>)
    ensures
        severity_sorted(expected_findings(vs)),
{
    let fs = grouped_findings(vs);
    let c = with_severity(fs, Severity::Critical);
    let e = with_severity(fs, Severity::Error);
    let w = with_severity(fs, Severity::Warning);
    let n = with_severity(fs, Severity::Info);
    lemma_with_severity_all(fs, Severity::Critical);
    lemma_with_severity_all(fs, Severity::Error);
    lemma_with_severity_all(fs, Severity::Warning);
    lemma_with_severity_all(fs, Severity::Info);
    let r = c + e + w + n;
    assert forall|i: int| 0 <= i < r.len() implies severity_rank(#[trigger] r[i].severity) == if i
        < c.len() {
        3int
    } else if i < c.len() + e.len() {
        2int
    } else if i < c.len() + e.len() + w.len() {
        1int
    } else {
        0int
    } by {
        if i < c.len() {
            assert(r[i] == c[i]);
        } else if i < c.len() + e.len() {
            assert(r[i] == e[i - c.len()]);
        } else if i < c.len() + e.len() + w.len() {
            assert(r[i] == w[i - c.len() - e.len()]);
        } else {
            assert(r[i] == n[i - c.len() - e.len() - w.len()]);
        }
    }
}

/// Markdown header for a decision.
pub open spec fn header_text(d: Decision) -> Seq<char> {
    match d {
        Decision::Pass => "## Evaluation Approved"@,
        Decision::Revise => "## Revision Required"@,
        Decision::Block => "## Evaluation Blocked"@,
    }
}

pub open spec fn action_text(d: Decision) -> Seq<char> {
    match d {
        Decision::Pass => "The code was approved by the evaluators. You may proceed with the implementation.\n"@,
        Decision::Revise => "The code needs adjustments before approval. Address the issues above and submit again.\n"@,
        Decision::Block => "The code was blocked because of critical problems. Fix ALL issues marked Critical or Error before proceeding.\n"@,
    }
}

pub open spec fn vote_icon(v: Vote) -> Seq<char> {
    match v {
        Vote::Pass => "✓"@,
        Vote::Warn => "⚠"@,
        Vote::Fail => "✗"@,
    }
}

/// Each string of `ss` as a markdown list item.
pub open spec fn bullet_list(ss: Seq<String>) -> Seq<char>
    decreases ss.len(),
{
    if ss.len() == 0 {
        Seq::empty()
    } else {
        bullet_list(ss.drop_last()) + "- "@ + ss.last()@ + "\n"@
    }
}

pub open spec fn section_head(v: ModelVote) -> Seq<char> {
    "**"@ + vote_icon(v.vote) + " "@ + v.executor@ + "** (score: "@ + decimal_of(v.score as nat)
        + ")\n"@
}

pub open spec fn section_reasoning(v: ModelVote) -> Seq<char> {
    if v.reasoning@.len() > 0 {
        "> "@ + v.reasoning@ + "\n"@
    } else {
        Seq::empty()
    }
}

pub open spec fn section_issues(v: ModelVote) -> Seq<char> {
    if v.issues@.len() > 0 {
        "\nIssues:\n"@ + bullet_list(v.issues@)
    } else {
        Seq::empty()
    }
}

pub open spec fn section_suggestions(v: ModelVote) -> Seq<char> {
    if v.suggestions@.len() > 0 {
        "\nSuggestions:\n"@ + bullet_list(v.suggestions@)
    } else {
        Seq::empty()
    }
}

/// The feedback section of one evaluator.
pub open spec fn vote_section(v: ModelVote) -> Seq<char> {
    section_head(v) + section_reasoning(v) + section_issues(v) + section_suggestions(v) + "\n"@
}

pub open spec fn vote_sections(vs: Seq<ModelVote>) -> Seq<char>
    decreases vs.len(),
{
    if vs.len() == 0 {
        Seq::empty()
    } else {
        vote_sections(vs.drop_last()) + vote_section(vs.last())
    }
}

/// The line that counts the votes.
pub open spec fn counts_line(vs: Seq<ModelVote>) -> Seq<char> {
    "**Votes:** "@ + decimal_of(count_vote(vs, Vote::Pass)) + " PASS | "@ + decimal_of(
        count_vote(vs, Vote::Warn),
    ) + " WARN | "@ + decimal_of(count_vote(vs, Vote::Fail)) + " FAIL\n\n"@
}

/// The whole markdown feedback for `vs` under decision `d`.
pub open spec fn feedback_text(vs: Seq<ModelVote>, d: Decision) -> Seq<char> {
    header_text(d) + "\n\n"@ + counts_line(vs) + "### Evaluator Feedback\n\n"@ + vote_sections(vs)
        + "### Recommended Actions\n\n"@ + action_text(d)
}

/// Combines the votes of one evaluation.
pub struct VoteAggregator;

fn same_chars(a: &Vec<char>, b: &Vec<char>) -> (r: bool)
    ensures
        r == (a@ == b@),
{
    if a.len() != b.len() {
        return false;
    }
    let mut i: usize = 0;
    while i < a.len()
        invariant
            a@.len() == b@.len(),
            i <= a@.len(),
            forall|k: int| 0 <= k < i ==> a@[k] == b@[k],
        decreases a.len() - i,
    {
        if a[i] != b[i] {
            return false;
        }
        i += 1;
    }
    assert(a@ =~= b@);
    true
}

fn append_section(out: &mut String, v: &ModelVote)
    ensures
        final(out)@ == old(out)@ + vote_section(*v),
{
    let ghost before = out@;
    append_section_head(out, v);
    let ghost a = out@;
    if v.reasoning.as_str().unicode_len() > 0 {
        out.append("> ");
        out.append(v.reasoning.as_str());
        out.append("\n");
    }
    let ghost b = out@;
    assert(b =~= a + section_reasoning(*v));
    if v.issues.len() > 0 {
        out.append("\nIssues:\n");
        append_list(out, &v.issues);
    }
    let ghost c = out@;
    assert(c =~= b + section_issues(*v));
    if v.suggestions.len() > 0 {
        out.append("\nSuggestions:\n");
        append_list(out, &v.suggestions);
    }
    let ghost d = out@;
    assert(d =~= c + section_suggestions(*v));
    out.append("\n");
    assert(out@ =~= before + vote_section(*v));
}

fn append_section_head(out: &mut String, v: &ModelVote)
    ensures
        final(out)@ == old(out)@ + section_head(*v),
{
    let ghost before = out@;
    out.append("**");
    match v.vote {
        Vote::Pass => out.append("✓"),
        Vote::Warn => out.append("⚠"),
        Vote::Fail => out.append("✗"),
    }
    out.append(" ");
    out.append(v.executor.as_str());
    out.append("** (score: ");
    out.append(decimal(v.score as u64).as_str());
    out.append(")\n");
    assert(out@ =~= before + section_head(*v));
}

fn append_list(out: &mut String, items: &Vec<String>)
    ensures
        final(out)@ == old(out)@ + bullet_list(items@),
{
    let mut i: usize = 0;
    while i < items.len()
        invariant
            i <= items@.len(),
            out@ == old(out)@ + bullet_list(items@.subrange(0, i as int)),
        decreases items.len() - i,
    {
        proof {
            assert(items@.subrange(0, i + 1).drop_last() =~= items@.subrange(0, i as int));
        }
        out.append("- ");
        out.append(items[i].as_str());
        out.append("\n");
        i += 1;
        proof {
            assert(out@ =~= old(out)@ + bullet_list(items@.subrange(0, i as int)));
        }
    }
    assert(items@.subrange(0, items@.len() as int) =~= items@);
}

impl VoteAggregator {
    /// Applies `rule` and consolidates the votes into a result.
    pub fn aggregate<R: ConsensusRule>(
        votes: Vec<ModelVote>,
        rule: &R,
        min_score: u8,
        request_id: &str,
    ) -> (r: EvaluationResult)
        ensures
            r.request_id@ == request_id@,
            r.decision == rule.decide(votes@, min_score),
            r.consensus_achieved == rule.achieved(votes@, min_score),
            r.consensus_achieved ==> r.decision != Decision::Revise,
            r.score as nat == mean_score(votes@),
            r.findings@.map_values(|f: Finding| finding_view(f)) == expected_findings(votes@),
            r.feedback@ == feedback_text(votes@, r.decision),
            r.votes@ == votes@,
    {
        let decision = rule.evaluate(&votes, min_score);
        let consensus_achieved = rule.is_consensus_achieved(&votes, min_score);
        let score = Self::calculate_score(&votes);
        let findings = Self::extract_findings(&votes);
        let feedback = Self::consolidate_feedback(&votes, &decision);
        EvaluationResult {
            request_id: String::from_str(request_id),
            decision,
            score,
            consensus_achieved,
            votes,
            findings,
            feedback,
            timestamp: crate::clock::now_unix(),
        }
    }

    /// Integer-floor mean of the scores; 0 for no votes.
    pub fn calculate_score(votes: &Vec<ModelVote>) -> (r: u8)
        ensures
            r as nat == mean_score(votes@),
    {
        mean_of(votes)
    }

    /// The lowest score; 0 for no votes.
    pub fn calculate_min_score(votes: &Vec<ModelVote>) -> (r: u8)
        ensures
            r as nat == lowest_score(votes@),
    {
        lowest_of(votes)
    }

    /// The key under which an issue is grouped.
    pub fn normalize_issue(issue: &str) -> (r: Vec<char>)
        ensures
            r@ == issue_key(issue@),
    {
        let lower = to_lower(issue);
        let lv = chars_of(lower.as_str());
        trim_chars(&lv)
    }

    /// Severity of an issue, read from its lowercase form.
    pub fn infer_severity(issue: &str) -> (r: Severity)
        ensures
            r == severity_rule(lower_of(issue@)),
    {
        let lower = to_lower(issue);
        let t = chars_of(lower.as_str());
        Self::severity_of_lowercase(&t)
    }

    /// Severity of already lowercased issue text.
    pub fn severity_of_lowercase(t: &Vec<char>) -> (r: Severity)
        ensures
            r == severity_rule(t@),
    {
        if contains_str(t, "security") || contains_str(
            t,
            "vulnerability",
        ) || contains_str(t, "injection") {
            Severity::Critical
        } else if contains_str(t, "error") || contains_str(t, "bug") || contains_str(t, "fail")
            || contains_str(t, "crash") {
            Severity::Error
        } else if contains_str(t, "warning") || contains_str(t, "warn") || contains_str(
            t,
            "should",
        ) || contains_str(t, "consider") {
            Severity::Warning
        } else {
            Severity::Info
        }
    }

    /// Category of an issue, read from its lowercase form.
    pub fn infer_category(issue: &str) -> (r: String)
        ensures
            r@ == category_rule(lower_of(issue@)),
    {
        let lower = to_lower(issue);
        let t = chars_of(lower.as_str());
        Self::category_of_lowercase(&t)
    }

    /// Category of already lowercased issue text.
    pub fn category_of_lowercase(t: &Vec<char>) -> (r: String)
        ensures
            r@ == category_rule(t@),
    {
        if contains_str(t, "security") || contains_str(t, "injection") || contains_str(
            t,
            "vulnerability",
        ) || contains_str(t, "password") || contains_str(t, "credential") {
            String::from_str("security")
        } else if contains_str(t, "performance") || contains_str(t, "slow") || contains_str(
            t,
            "memory",
        ) || contains_str(t, "allocation") {
            String::from_str("performance")
        } else if contains_str(t, "logic") || contains_str(t, "bug") || contains_str(
            t,
            "incorrect",
        ) || contains_str(t, "wrong") {
            String::from_str("logic")
        } else if contains_str(t, "style") || contains_str(t, "convention") || contains_str(
            t,
            "naming",
        ) || contains_str(t, "format") {
            String::from_str("style")
        } else if contains_str(t, "architecture") || contains_str(t, "design") || contains_str(
            t,
            "pattern",
        ) || contains_str(t, "structure") {
            String::from_str("architecture")
        } else {
            String::from_str("general")
        }
    }

    fn paired_suggestion(v: &ModelVote, key: &Vec<char>) -> (r: Option<String>)
        ensures
            opt_view(r) == paired_from(*v, key@, 0),
    {
        let mut i: usize = 0;
        while i < v.issues.len()
            invariant
                i <= v.issues@.len(),
                paired_from(*v, key@, 0) == paired_from(*v, key@, i as int),
            decreases v.issues.len() - i,
        {
            let k = Self::normalize_issue(v.issues[i].as_str());
            if same_chars(&k, key) && i < v.suggestions.len() {
                return Some(v.suggestions[i].clone());
            }
            i += 1;
        }
        None
    }

    fn prefix_suggestion(v: &ModelVote, prefix: &Vec<char>) -> (r: Option<String>)
        ensures
            opt_view(r) == prefix_from(*v, prefix@, 0),
    {
        let mut i: usize = 0;
        while i < v.suggestions.len()
            invariant
                i <= v.suggestions@.len(),
                prefix_from(*v, prefix@, 0) == prefix_from(*v, prefix@, i as int),
            decreases v.suggestions.len() - i,
        {
            let lower = to_lower(v.suggestions[i].as_str());
            let lv = chars_of(lower.as_str());
            if contains(&lv, prefix) {
                return Some(v.suggestions[i].clone());
            }
            i += 1;
        }
        None
    }

    /// A suggestion for the issue of key `key`: the same-index suggestion of
    /// a evaluator who reported it, else one whose lowercase holds the first 20
    /// characters of the key.
    pub fn find_suggestion_for_issue(votes: &Vec<ModelVote>, key: &Vec<char>) -> (r: Option<
        String,
    >)
        ensures
            opt_view(r) == suggestion_from(votes@, key@, 0),
    {
        let prefix = take_chars(key, 20);
        let mut j: usize = 0;
        while j < votes.len()
            invariant
                j <= votes@.len(),
                prefix@ == take(key@, 20),
                suggestion_from(votes@, key@, 0) == suggestion_from(votes@, key@, j as int),
            decreases votes.len() - j,
        {
            let v = &votes[j];
            match Self::paired_suggestion(v, key) {
                Some(s) => {
                    return Some(s);
                },
                None => {},
            }
            match Self::prefix_suggestion(v, &prefix) {
                Some(s) => {
                    return Some(s);
                },
                None => {},
            }
            j += 1;
        }
        None
    }

    /// All issues of all votes with their keys and evaluators, in order.
    fn collect_entries(votes: &Vec<ModelVote>) -> (r: (Vec<Vec<char>>, Vec<String>))
        ensures
            agrees(r.0@, r.1@, entries(votes@)),
    {
        let mut keys: Vec<Vec<char>> = Vec::new();
        let mut names: Vec<String> = Vec::new();
        let mut j: usize = 0;
        while j < votes.len()
            invariant
                j <= votes@.len(),
                agrees(keys@, names@, entries(votes@.subrange(0, j as int))),
            decreases votes.len() - j,
        {
            let v = &votes[j];
            let ghost base = entries(votes@.subrange(0, j as int));
            let mut i: usize = 0;
            while i < v.issues.len()
                invariant
                    i <= v.issues@.len(),
                    agrees(keys@, names@, base + issue_entries(*v).subrange(0, i as int)),
                decreases v.issues.len() - i,
            {
                let k = Self::normalize_issue(v.issues[i].as_str());
                let ghost e0 = base + issue_entries(*v).subrange(0, i as int);
                keys.push(k);
                names.push(v.executor.clone());
                proof {
                    assert(base + issue_entries(*v).subrange(0, i + 1) =~= e0.push(
                        issue_entries(*v)[i as int],
                    ));
                }
                i += 1;
            }
            proof {
                assert(votes@.subrange(0, j + 1).drop_last() =~= votes@.subrange(0, j as int));
                assert(issue_entries(*v).subrange(0, v.issues@.len() as int) =~= issue_entries(*v));
            }
            j += 1;
        }
        assert(votes@.subrange(0, votes@.len() as int) =~= votes@);
        (keys, names)
    }

    /// Distinct keys of the entries in order of first appearance.
    fn distinct_keys(keys: &Vec<Vec<char>>, Ghost(es): Ghost<Seq<(Seq<char>, Seq<char>)>>) -> (r: Vec<
        Vec<char>,
    >)
        requires
            es.len() == keys@.len(),
            forall|i: int| 0 <= i < es.len() ==> (#[trigger] es[i]).0 == keys@[i]@,
        ensures
            r@.map_values(|k: Vec<char>| k@) == group_keys(es),
    {
        let mut out: Vec<Vec<char>> = Vec::new();
        let mut t: usize = 0;
        while t < keys.len()
            invariant
                t <= keys@.len(),
                es.len() == keys@.len(),
                forall|i: int| 0 <= i < es.len() ==> (#[trigger] es[i]).0 == keys@[i]@,
                out@.map_values(|k: Vec<char>| k@) == group_keys(es.subrange(0, t as int)),
            decreases keys.len() - t,
        {
            let ghost view = out@.map_values(|k: Vec<char>| k@);
            let mut found = false;
            let mut u: usize = 0;
            while u < out.len()
                invariant
                    u <= out@.len(),
                    t < keys@.len(),
                    view == out@.map_values(|k: Vec<char>| k@),
                    !found ==> forall|x: int| 0 <= x < u ==> view[x] != keys@[t as int]@,
                    found ==> view.contains(keys@[t as int]@),
                decreases out.len() - u,
            {
                if !found && same_chars(&out[u], &keys[t]) {
                    found = true;
                    assert(view[u as int] == keys@[t as int]@);
                }
                u += 1;
            }
            proof {
                let pre = es.subrange(0, t as int);
                let nxt = es.subrange(0, t + 1);
                assert(nxt.drop_last() =~= pre);
                assert(nxt.last() == es[t as int]);
            }
            if !found {
                let k = slice_all(&keys[t]);
                out.push(k);
                proof {
                    assert(out@.map_values(|k: Vec<char>| k@) =~= view.push(keys@[t as int]@));
                }
            }
            t += 1;
        }
        assert(es.subrange(0, keys@.len() as int) =~= es);
        out
    }

    /// The findings across all votes, ordered by severity.
    pub fn extract_findings(votes: &Vec<ModelVote>) -> (r: Vec<Finding>)
        ensures
            r@.map_values(|f: Finding| finding_view(f)) == expected_findings(votes@),
    {
        let (keys, names) = Self::collect_entries(votes);
        let ghost es = entries(votes@);
        let groups = Self::distinct_keys(&keys, Ghost(es));
        let ghost gv = groups@.map_values(|k: Vec<char>| k@);
        let ghost fs = grouped_findings(votes@);
        assert(fs =~= gv.map_values(|k: Seq<char>| finding_for(votes@, k)));
        let mut out: Vec<Finding> = Vec::new();
        Self::push_with_severity(&mut out, votes, &keys, &names, &groups, Severity::Critical, Ghost(es));
        Self::push_with_severity(&mut out, votes, &keys, &names, &groups, Severity::Error, Ghost(es));
        Self::push_with_severity(&mut out, votes, &keys, &names, &groups, Severity::Warning, Ghost(es));
        Self::push_with_severity(&mut out, votes, &keys, &names, &groups, Severity::Info, Ghost(es));
        proof {
            assert(out@.map_values(|f: Finding| finding_view(f)) =~= by_severity(fs));
        }
        out
    }

    /// Appends, in group order, the findings of the groups whose severity is `sev`.
    fn push_with_severity(
        out: &mut Vec<Finding>,
        votes: &Vec<ModelVote>,
        keys: &Vec<Vec<char>>,
        names: &Vec<String>,
        groups: &Vec<Vec<char>>,
        sev: Severity,
        Ghost(es): Ghost<Seq<(Seq<char>, Seq<char>)>>,
    )
        requires
            es == entries(votes@),
            agrees(keys@, names@, es),
        ensures
            final(out)@.map_values(|f: Finding| finding_view(f)) == old(out)@.map_values(
                |f: Finding| finding_view(f),
            ) + with_severity(
                groups@.map_values(|k: Vec<char>| k@).map_values(
                    |k: Seq<char>| finding_for(votes@, k),
                ),
                sev,
            ),
    {
        let ghost fs = groups@.map_values(|k: Vec<char>| k@).map_values(
            |k: Seq<char>| finding_for(votes@, k),
        );
        let ghost before = out@.map_values(|f: Finding| finding_view(f));
        let mut g: usize = 0;
        while g < groups.len()
            invariant
                g <= groups@.len(),
                fs.len() == groups@.len(),
                fs == groups@.map_values(|k: Vec<char>| k@).map_values(
                    |k: Seq<char>| finding_for(votes@, k),
                ),
                es == entries(votes@),
                agrees(keys@, names@, es),
                out@.map_values(|f: Finding| finding_view(f)) == before + with_severity(
                    fs.subrange(0, g as int),
                    sev,
                ),
            decreases groups.len() - g,
        {
            let key = &groups[g];
            let s = Self::severity_of_lowercase(key);
            proof {
                assert(fs.subrange(0, g + 1).drop_last() =~= fs.subrange(0, g as int));
                assert(fs[g as int] == finding_for(votes@, key@));
            }
            if s == sev {
                let f = Self::build_finding(votes, keys, names, key, Ghost(es));
                let ghost ov = out@.map_values(|f: Finding| finding_view(f));
                out.push(f);
                proof {
                    assert(out@.map_values(|f: Finding| finding_view(f)) =~= ov.push(
                        finding_view(f),
                    ));
                }
            }
            g += 1;
        }
        proof {
            assert(fs.subrange(0, groups@.len() as int) =~= fs);
        }
    }

    fn build_finding(
        votes: &Vec<ModelVote>,
        keys: &Vec<Vec<char>>,
        names: &Vec<String>,
        key: &Vec<char>,
        Ghost(es): Ghost<Seq<(Seq<char>, Seq<char>)>>,
    ) -> (f: Finding)
        requires
            es == entries(votes@),
            agrees(keys@, names@, es),
        ensures
            finding_view(f) == finding_for(votes@, key@),
    {
        let mut source = String::new();
        let mut count: usize = 0;
        let ghost srcs: Seq<Seq<char>> = Seq::empty();
        let mut t: usize = 0;
        while t < keys.len()
            invariant
                t <= keys@.len(),
                agrees(keys@, names@, es),
                count == sources_for(es.subrange(0, t as int), key@).len(),
                source@ == join_comma(sources_for(es.subrange(0, t as int), key@)),
            decreases keys.len() - t,
        {
            proof {
                assert(es.subrange(0, t + 1).drop_last() =~= es.subrange(0, t as int));
                assert(es.subrange(0, t + 1).last() == es[t as int]);
                lemma_sources_len(es.subrange(0, t as int), key@);
            }
            if same_chars(&keys[t], key) {
                let ghost ss = sources_for(es.subrange(0, t as int), key@);
                if count > 0 {
                    source.append(", ");
                }
                source.append(names[t].as_str());
                count += 1;
                proof {
                    let ss2 = ss.push(names@[t as int]@);
                    assert(ss2.drop_last() =~= ss);
                    if ss.len() == 0 {
                        assert(source@ =~= join_comma(ss2));
                    } else {
                        assert(source@ =~= join_comma(ss2));
                    }
                }
            }
            t += 1;
        }
        assert(es.subrange(0, keys@.len() as int) =~= es);
        let strength = if count >= 3 {
            String::from_str("strong")
        } else if count == 2 {
            String::from_str("moderate")
        } else {
            String::from_str("weak")
        };
        Finding {
            severity: Self::severity_of_lowercase(key),
            category: Self::category_of_lowercase(key),
            issue: string_of(key.as_slice()),
            lines: None,
            suggestion: Self::find_suggestion_for_issue(votes, key),
            source,
            consensus_strength: strength,
        }
    }

    /// Markdown feedback: header, vote counts, one section per evaluator, and
    /// a recommended action.
    pub fn consolidate_feedback(votes: &Vec<ModelVote>, decision: &Decision) -> (r: String)
        ensures
            r@ == feedback_text(votes@, *decision),
    {
        let mut out = feedback_head(votes, decision);
        let ghost head = out@;
        let mut i: usize = 0;
        while i < votes.len()
            invariant
                i <= votes@.len(),
                out@ == head + vote_sections(votes@.subrange(0, i as int)),
            decreases votes.len() - i,
        {
            proof {
                assert(votes@.subrange(0, i + 1).drop_last() =~= votes@.subrange(0, i as int));
            }
            let ghost before = out@;
            append_section(&mut out, &votes[i]);
            proof {
                assert(out@ =~= head + vote_sections(votes@.subrange(0, i + 1)));
            }
            i += 1;
        }
        assert(votes@.subrange(0, votes@.len() as int) =~= votes@);
        let ghost body = out@;
        append_actions(&mut out, decision);
        assert(out@ =~= feedback_text(votes@, *decision));
        out
    }
}

fn feedback_head(votes: &Vec<ModelVote>, decision: &Decision) -> (r: String)
    ensures
        r@ == header_text(*decision) + "\n\n"@ + counts_line(votes@) + "### Evaluator Feedback\n\n"@,
{
    let mut out = String::new();
    match decision {
        Decision::Pass => out.append("## Evaluation Approved"),
        Decision::Revise => out.append("## Revision Required"),
        Decision::Block => out.append("## Evaluation Blocked"),
    }
    out.append("\n\n");
    let t = tally(votes);
    out.append("**Votes:** ");
    out.append(decimal(t.pass as u64).as_str());
    out.append(" PASS | ");
    out.append(decimal(t.warn as u64).as_str());
    out.append(" WARN | ");
    out.append(decimal(t.fail as u64).as_str());
    out.append(" FAIL\n\n");
    out.append("### Evaluator Feedback\n\n");
    assert(out@ =~= header_text(*decision) + "\n\n"@ + counts_line(votes@)
        + "### Evaluator Feedback\n\n"@);
    out
}

fn append_actions(out: &mut String, decision: &Decision)
    ensures
        final(out)@ == old(out)@ + "### Recommended Actions\n\n"@ + action_text(*decision),
{
    out.append("### Recommended Actions\n\n");
    match decision {
        Decision::Pass => out.append(
            "The code was approved by the evaluators. You may proceed with the implementation.\n",
        ),
        Decision::Revise => out.append(
            "The code needs adjustments before approval. Address the issues above and submit again.\n",
        ),
        Decision::Block => out.append(
            "The code was blocked because of critical problems. Fix ALL issues marked Critical or Error before proceeding.\n",
        ),
    }
    assert(out@ =~= old(out)@ + "### Recommended Actions\n\n"@ + action_text(*decision));
}

/// `keys` and `names` hold, index by index, the two halves of `es`.
pub open spec fn agrees(
    keys: Seq<Vec<char>>,
    names: Seq<String>,
    es: Seq<(Seq<char>, Seq<char>)>,
) -> bool {
    keys.len() == es.len() && names.len() == es.len() && forall|i: int|
        0 <= i < es.len() ==> (#[trigger] es[i]).0 == keys[i]@ && es[i].1 == names[i]@
}

proof fn lemma_sources_len(es: Seq<(Seq<char>, Seq<char>)>, k: Seq<char>)
    ensures
        sources_for(es, k).len() <= es.len(),
    decreases es.len(),
{
    if es.len() > 0 {
        lemma_sources_len(es.drop_last(), k);
    }
}

fn slice_all(v: &Vec<char>) -> (r: Vec<char>)
    ensures
        r@ == v@,
{
    crate::text::slice(v, 0, v.len())
}

} // verus!
