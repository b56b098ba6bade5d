//! The reasoning bank: patterns and trajectories learnt from evaluations,
//! with the Judge and Consolidate phases. Confidences are in thousandths.
use vstd::prelude::*;
use vstd::string::StringExecFns;
use crate::config::ReasoningConfig;
use crate::patterns::{signature_of, PatternMatcher};
use crate::tally::{lowest_of, lowest_score};
use crate::text::{chars_of, eq_chars, eq_text, lower_of, to_lower};
use crate::types::{EvaluationResult, Finding};

verus! {

/// What a pattern's counts say of the code shape.
#[derive(Debug, Clone, Copy, PartialEq, Eq, Structural)]
pub enum PatternType {
    AntiPattern,
    GoodPattern,
    Ambiguous,
}

impl PatternType {
    pub fn to_string(&self) -> (r: String)
        ensures
            r@ == match *self {
                PatternType::AntiPattern => "anti_pattern"@,
                PatternType::GoodPattern => "good_pattern"@,
                PatternType::Ambiguous => "ambiguous"@,
            },
    {
        match self {
            PatternType::AntiPattern => String::from_str("anti_pattern"),
            PatternType::GoodPattern => String::from_str("good_pattern"),
            PatternType::Ambiguous => String::from_str("ambiguous"),
        }
    }

    /// Reads a stored label (in any case); unknown labels are Ambiguous.
    pub fn from_str(s: &str) -> (r: PatternType)
        ensures
            r == (if lower_of(s@) == "anti_pattern"@ || lower_of(s@) == "antipattern"@ {
                PatternType::AntiPattern
            } else if lower_of(s@) == "good_pattern"@ || lower_of(s@) == "goodpattern"@ {
                PatternType::GoodPattern
            } else {
                PatternType::Ambiguous
            }),
    {
        let l = to_lower(s);
        let v = chars_of(l.as_str());
        if eq_chars(&v, "anti_pattern") || eq_chars(&v, "antipattern") {
            PatternType::AntiPattern
        } else if eq_chars(&v, "good_pattern") || eq_chars(&v, "goodpattern") {
            PatternType::GoodPattern
        } else {
            PatternType::Ambiguous
        }
    }
}

/// A persistent belief about a (code shape, issue category) pair.
#[derive(Debug, Clone)]
pub struct Pattern {
    pub id: u64,
    pub pattern_type: PatternType,
    pub code_signature: String,
    pub language: String,
    pub issue_category: String,
    pub description: String,
    pub solution: Option<String>,
    pub success_count: u64,
    pub failure_count: u64,
    pub confidence: u64,
    pub last_seen: i64,
    pub created_at: i64,
}

/// One recorded evaluation.
#[derive(Debug, Clone)]
pub struct Trajectory {
    pub id: u64,
    pub pattern_id: Option<u64>,
    pub request_id: String,
    pub code_hash: String,
    pub initial_score: u8,
    pub final_score: u8,
    pub loops_to_consensus: u32,
    pub was_successful: bool,
    pub timestamp: i64,
}

#[derive(Debug, Clone, Copy)]
pub struct JudgmentResult {
    pub was_successful: bool,
    pub patterns_updated: usize,
    pub new_patterns_created: usize,
}

#[derive(Debug, Clone, Copy)]
pub struct ConsolidationResult {
    pub patterns_merged: usize,
    pub patterns_pruned: usize,
    pub patterns_reinforced: usize,
}

/// Thirty days, in seconds.
pub const PRUNE_AGE_SECS: i64 = 2592000;

pub open spec fn total(p: Pattern) -> int {
    p.success_count + p.failure_count
}

/// Confidence in thousandths: successes over total, or one half when empty.
pub open spec fn ratio(s: u64, f: u64) -> u64 {
    if s + f == 0 {
        500
    } else {
        ((1000 * s) / (s + f)) as u64
    }
}

/// GoodPattern above four successes per failure, AntiPattern above four
/// failures per success, Ambiguous otherwise.
pub open spec fn type_of(s: u64, f: u64) -> PatternType {
    if s + f > 0 && s > 4 * f {
        PatternType::GoodPattern
    } else if s + f > 0 && f > 4 * s {
        PatternType::AntiPattern
    } else {
        PatternType::Ambiguous
    }
}

pub open spec fn same_key(p: Pattern, sig: Seq<char>, cat: Seq<char>) -> bool {
    p.code_signature@ == sig && p.issue_category@ == cat
}

pub open spec fn has_key(ps: Seq<Pattern>, sig: Seq<char>, cat: Seq<char>) -> bool {
    exists|i: int| 0 <= i < ps.len() && same_key(#[trigger] ps[i], sig, cat)
}

pub open spec fn inc(n: u64, by: bool) -> u64 {
    if by && n < u64::MAX {
        (n + 1) as u64
    } else {
        n
    }
}

/// A matching pattern after one more outcome.
pub open spec fn bumped(p: Pattern, ok: bool, now: i64) -> Pattern {
    let s = inc(p.success_count, ok);
    let f = inc(p.failure_count, !ok);
    Pattern { success_count: s, failure_count: f, confidence: ratio(s, f), last_seen: now, ..p }
}

/// The patterns after one Judge outcome for key (`sig`, `cat`): every
/// matching pattern is bumped; when none matches, `fresh` is appended.
pub open spec fn upserted(
    ps: Seq<Pattern>,
    sig: Seq<char>,
    cat: Seq<char>,
    ok: bool,
    now: i64,
    fresh: Pattern,
) -> Seq<Pattern> {
    if has_key(ps, sig, cat) {
        ps.map_values(|p: Pattern| if same_key(p, sig, cat) {
            bumped(p, ok, now)
        } else {
            p
        })
    } else {
        ps.push(fresh)
    }
}

/// A new pattern as Judge creates it.
pub open spec fn created_ok(p: Pattern, sig: Seq<char>, cat: Seq<char>, ok: bool, now: i64) -> bool {
    same_key(p, sig, cat) && p.success_count == (if ok {
        1u64
    } else {
        0u64
    }) && p.failure_count == (if ok {
        0u64
    } else {
        1u64
    }) && p.confidence == 500 && p.pattern_type == (if ok {
        PatternType::Ambiguous
    } else {
        PatternType::AntiPattern
    }) && p.last_seen == now && p.created_at == now
}

/// A stored pattern after Judge ran its findings `fs` in order: each finding
/// whose category matches the pattern's key adds one outcome.
pub open spec fn judged(p: Pattern, sig: Seq<char>, fs: Seq<Finding>, ok: bool, now: i64) -> Pattern
    decreases fs.len(),
{
    if fs.len() == 0 {
        p
    } else {
        let q = judged(p, sig, fs.drop_last(), ok, now);
        if same_key(q, sig, fs.last().category@) {
            bumped(q, ok, now)
        } else {
            q
        }
    }
}

/// A stored pattern after one Judge: the findings' outcomes, and for a clean
/// success the good-pattern record of the signature.
pub open spec fn judge_effect(p: Pattern, sig: Seq<char>, fs: Seq<Finding>, ok: bool, now: i64) -> Pattern {
    if fs.len() == 0 && ok && same_key(p, sig, success_category()) {
        Pattern { pattern_type: PatternType::GoodPattern, ..bumped(p, true, now) }
    } else {
        judged(p, sig, fs, ok, now)
    }
}

proof fn lemma_judged_keeps_key(p: Pattern, sig: Seq<char>, fs: Seq<Finding>, ok: bool, now: i64)
    ensures
        judged(p, sig, fs, ok, now).code_signature == p.code_signature,
        judged(p, sig, fs, ok, now).issue_category == p.issue_category,
    decreases fs.len(),
{
    if fs.len() > 0 {
        lemma_judged_keeps_key(p, sig, fs.drop_last(), ok, now);
    }
}

/// Two Judges of one finding on a stored pattern of its key, with the same
/// outcome, add exactly two to the pattern's counts: two successes when the
/// evaluation succeeded, two failures otherwise.
pub proof fn lemma_two_judges_add_two(
    p: Pattern,
    sig: Seq<char>,
    f: Finding,
    ok: bool,
    now1: i64,
    now2: i64,
)
    requires
        same_key(p, sig, f.category@),
        p.success_count < u64::MAX - 1,
        p.failure_count < u64::MAX - 1,
    ensures
        ({
            let q = judge_effect(
                judge_effect(p, sig, seq![f], ok, now1),
                sig,
                seq![f],
                ok,
                now2,
            );
            &&& total(q) == total(p) + 2
            &&& q.success_count == p.success_count + (if ok { 2int } else { 0int })
            &&& q.failure_count == p.failure_count + (if ok { 0int } else { 2int })
            &&& same_key(q, sig, f.category@)
        }),
{
    let fs = seq![f];
    assert(fs.drop_last() =~= Seq::<Finding>::empty());
    assert(fs.last() == f);
    assert(judged(p, sig, fs.drop_last(), ok, now1) == p);
    assert(judged(p, sig, fs, ok, now1) == bumped(p, ok, now1));
    let q1 = judge_effect(p, sig, fs, ok, now1);
    assert(q1 == bumped(p, ok, now1));
    assert(judged(q1, sig, fs.drop_last(), ok, now2) == q1);
    assert(same_key(q1, sig, f.category@));
    assert(judge_effect(q1, sig, fs, ok, now2) == bumped(q1, ok, now2));
}

/// Judging the same key and outcome twice adds exactly two to its counts:
/// a pattern that existed gains two, a new one ends with two.
pub proof fn lemma_judge_twice_adds_two(
    ps: Seq<Pattern>,
    sig: Seq<char>,
    cat: Seq<char>,
    ok: bool,
    now1: i64,
    now2: i64,
    fresh1: Pattern,
    fresh2: Pattern,
)
    requires
        created_ok(fresh1, sig, cat, ok, now1),
        forall|i: int|
            0 <= i < ps.len() ==> (#[trigger] ps[i]).success_count < u64::MAX - 1
                && ps[i].failure_count < u64::MAX - 1,
    ensures
        ({
            let ps2 = upserted(upserted(ps, sig, cat, ok, now1, fresh1), sig, cat, ok, now2, fresh2);
            &&& forall|i: int|
                0 <= i < ps.len() && same_key(#[trigger] ps[i], sig, cat) ==> total(ps2[i]) == total(
                    ps[i],
                ) + 2
            &&& !has_key(ps, sig, cat) ==> ps2.len() == ps.len() + 1 && total(ps2[ps.len() as int])
                == 2 && same_key(ps2[ps.len() as int], sig, cat)
        }),
{
    let ps1 = upserted(ps, sig, cat, ok, now1, fresh1);
    if has_key(ps, sig, cat) {
        let j = choose|j: int| 0 <= j < ps.len() && same_key(#[trigger] ps[j], sig, cat);
        assert(same_key(ps1[j], sig, cat));
        assert(has_key(ps1, sig, cat));
    } else {
        assert(same_key(ps1[ps.len() as int], sig, cat));
        assert(has_key(ps1, sig, cat));
    }
}

/// The stored confidence agrees with the counts.
pub open spec fn consistent(ps: Seq<Pattern>) -> bool {
    forall|i: int|
        0 <= i < ps.len() ==> (#[trigger] ps[i]).confidence == ratio(
            ps[i].success_count,
            ps[i].failure_count,
        )
}

/// No two patterns share (signature, category).
pub open spec fn unique_pattern_keys(ps: Seq<Pattern>) -> bool {
    forall|i: int, j: int|
        0 <= i < j < ps.len() ==> !same_key(
            #[trigger] ps[i],
            (#[trigger] ps[j]).code_signature@,
            ps[j].issue_category@,
        )
}

/// Index of the first pattern with the key of `p`, if any.
pub open spec fn first_with_key(ps: Seq<Pattern>, sig: Seq<char>, cat: Seq<char>) -> Option<int>
    decreases ps.len(),
{
    if ps.len() == 0 {
        None
    } else {
        match first_with_key(ps.drop_last(), sig, cat) {
            Some(i) => Some(i),
            None => if same_key(ps.last(), sig, cat) {
                Some(ps.len() - 1)
            } else {
                None
            },
        }
    }
}

pub open spec fn add_counts(keep: Pattern, gone: Pattern) -> Pattern {
    Pattern {
        success_count: (if keep.success_count + gone.success_count <= u64::MAX {
            keep.success_count + gone.success_count
        } else {
            u64::MAX as int
        }) as u64,
        failure_count: (if keep.failure_count + gone.failure_count <= u64::MAX {
            keep.failure_count + gone.failure_count
        } else {
            u64::MAX as int
        }) as u64,
        ..keep
    }
}

/// Patterns sharing a key folded into the first of them, which receives
/// their counts.
pub open spec fn merged(ps: Seq<Pattern>) -> Seq<Pattern>
    decreases ps.len(),
{
    if ps.len() == 0 {
        Seq::empty()
    } else {
        let m = merged(ps.drop_last());
        let p = ps.last();
        match first_with_key(m, p.code_signature@, p.issue_category@) {
            Some(j) => m.update(j, add_counts(m[j], p)),
            None => m.push(p),
        }
    }
}

/// Low-confidence, rarely seen patterns older than thirty days are pruned.
pub open spec fn prunable(p: Pattern, now: i64) -> bool {
    p.confidence < 300 && total(p) < 3 && p.created_at < now - PRUNE_AGE_SECS
}

pub open spec fn pruned(ps: Seq<Pattern>, now: i64) -> Seq<Pattern>
    decreases ps.len(),
{
    if ps.len() == 0 {
        Seq::empty()
    } else if prunable(ps.last(), now) {
        pruned(ps.drop_last(), now)
    } else {
        pruned(ps.drop_last(), now).push(ps.last())
    }
}

pub open spec fn reinforced_one(p: Pattern) -> Pattern {
    if total(p) > 10 && p.confidence > 700 {
        Pattern {
            confidence: (if p.confidence * 105 / 100 < 1000 {
                p.confidence * 105 / 100
            } else {
                1000
            }) as u64,
            ..p
        }
    } else {
        p
    }
}

pub open spec fn recomputed_one(p: Pattern) -> Pattern {
    Pattern {
        confidence: ratio(p.success_count, p.failure_count),
        pattern_type: type_of(p.success_count, p.failure_count),
        ..p
    }
}

/// The patterns after Consolidate at time `now`.
pub open spec fn consolidated(ps: Seq<Pattern>, now: i64) -> Seq<Pattern> {
    pruned(merged(ps), now).map_values(|p: Pattern| recomputed_one(reinforced_one(p)))
}

proof fn lemma_first_with_key(ps: Seq<Pattern>, sig: Seq<char>, cat: Seq<char>)
    ensures
        first_with_key(ps, sig, cat) matches Some(i) ==> 0 <= i < ps.len() && same_key(
            ps[i],
            sig,
            cat,
        ),
        first_with_key(ps, sig, cat) is None ==> !has_key(ps, sig, cat),
    decreases ps.len(),
{
    if ps.len() > 0 {
        lemma_first_with_key(ps.drop_last(), sig, cat);
        if first_with_key(ps.drop_last(), sig, cat) is None {
            assert forall|i: int| 0 <= i < ps.len() - 1 implies !same_key(
                #[trigger] ps[i],
                sig,
                cat,
            ) by {
                assert(ps.drop_last()[i] == ps[i]);
            }
        }
    }
}

proof fn lemma_merged_unique(ps: Seq<Pattern>)
    requires
        unique_pattern_keys(ps),
    ensures
        merged(ps) == ps,
    decreases ps.len(),
{
    if ps.len() > 0 {
        let q = ps.drop_last();
        assert(unique_pattern_keys(q));
        lemma_merged_unique(q);
        let p = ps.last();
        lemma_first_with_key(q, p.code_signature@, p.issue_category@);
        assert forall|i: int| 0 <= i < q.len() implies !same_key(
            #[trigger] q[i],
            p.code_signature@,
            p.issue_category@,
        ) by {
            assert(q[i] == ps[i]);
        }
        assert(ps =~= q.push(p));
    }
}

proof fn lemma_pruned_sub(ps: Seq<Pattern>, now: i64)
    ensures
        forall|i: int|
            0 <= i < pruned(ps, now).len() ==> exists|j: int|
                0 <= j < ps.len() && #[trigger] pruned(ps, now)[i] == ps[j] && !prunable(ps[j], now),
        forall|i: int, k: int|
            0 <= i < k < pruned(ps, now).len() ==> exists|a: int, b: int|
                0 <= a < b < ps.len() && #[trigger] pruned(ps, now)[i] == ps[a] && #[trigger] pruned(
                    ps,
                    now,
                )[k] == ps[b],
    decreases ps.len(),
{
    if ps.len() > 0 {
        let q = ps.drop_last();
        lemma_pruned_sub(q, now);
        let u = pruned(q, now);
        assert forall|i: int| 0 <= i < u.len() implies exists|j: int|
            0 <= j < ps.len() && #[trigger] u[i] == ps[j] && !prunable(ps[j], now) by {
            let j = choose|j: int| 0 <= j < q.len() && u[i] == q[j] && !prunable(q[j], now);
            assert(q[j] == ps[j]);
        }
        assert forall|i: int, k: int| 0 <= i < k < u.len() implies exists|a: int, b: int|
            0 <= a < b < ps.len() && #[trigger] u[i] == ps[a] && #[trigger] u[k] == ps[b] by {
            let (a, b) = choose|a: int, b: int|
                0 <= a < b < q.len() && u[i] == q[a] && u[k] == q[b];
            assert(q[a] == ps[a]);
            assert(q[b] == ps[b]);
        }
        if !prunable(ps.last(), now) {
            let w = u.push(ps.last());
            assert forall|i: int| 0 <= i < w.len() implies exists|j: int|
                0 <= j < ps.len() && #[trigger] w[i] == ps[j] && !prunable(ps[j], now) by {
                if i < u.len() {
                    assert(w[i] == u[i]);
                } else {
                    assert(w[i] == ps[ps.len() - 1]);
                }
            }
            assert forall|i: int, k: int| 0 <= i < k < w.len() implies exists|a: int, b: int|
                0 <= a < b < ps.len() && #[trigger] w[i] == ps[a] && #[trigger] w[k] == ps[b] by {
                if k < u.len() {
                    assert(w[i] == u[i]);
                    assert(w[k] == u[k]);
                } else {
                    assert(w[i] == u[i]);
                    let j = choose|j: int| 0 <= j < ps.len() && u[i] == ps[j] && !prunable(ps[j], now);
                    let jj = choose|jj: int| 0 <= jj < q.len() && u[i] == q[jj] && !prunable(q[jj], now);
                    assert(q[jj] == ps[jj]);
                    assert(w[k] == ps[ps.len() - 1]);
                }
            }
        }
    }
}

proof fn lemma_pruned_keeps_all(ps: Seq<Pattern>, now: i64)
    requires
        forall|i: int| 0 <= i < ps.len() ==> !prunable(#[trigger] ps[i], now),
    ensures
        pruned(ps, now) == ps,
    decreases ps.len(),
{
    if ps.len() > 0 {
        let q = ps.drop_last();
        assert forall|i: int| 0 <= i < q.len() implies !prunable(#[trigger] q[i], now) by {
            assert(q[i] == ps[i]);
        }
        lemma_pruned_keeps_all(q, now);
        assert(ps =~= q.push(ps.last()));
    }
}

proof fn lemma_merged_always_unique(ps: Seq<Pattern>)
    ensures
        unique_pattern_keys(merged(ps)),
    decreases ps.len(),
{
    if ps.len() > 0 {
        lemma_merged_always_unique(ps.drop_last());
        let m = merged(ps.drop_last());
        let p = ps.last();
        lemma_first_with_key(m, p.code_signature@, p.issue_category@);
        match first_with_key(m, p.code_signature@, p.issue_category@) {
            Some(j) => {
                let u = m.update(j, add_counts(m[j], p));
                assert forall|a: int, b: int| 0 <= a < b < u.len() implies !same_key(
                    #[trigger] u[a],
                    (#[trigger] u[b]).code_signature@,
                    u[b].issue_category@,
                ) by {
                    assert(u[a].code_signature == m[a].code_signature && u[a].issue_category
                        == m[a].issue_category);
                    assert(u[b].code_signature == m[b].code_signature && u[b].issue_category
                        == m[b].issue_category);
                }
            },
            None => {
                let u = m.push(p);
                assert forall|a: int, b: int| 0 <= a < b < u.len() implies !same_key(
                    #[trigger] u[a],
                    (#[trigger] u[b]).code_signature@,
                    u[b].issue_category@,
                ) by {
                    assert(u[a] == m[a]);
                    if b < m.len() {
                        assert(u[b] == m[b]);
                    }
                }
            },
        }
    }
}

/// After one Consolidate the keys are unique and every confidence agrees
/// with its counts, so from then on Consolidate is a fixpoint (see
/// `lemma_consolidate_fixpoint`).
pub proof fn lemma_consolidated_tidy(ps: Seq<Pattern>, now: i64)
    ensures
        unique_pattern_keys(consolidated(ps, now)),
        consistent(consolidated(ps, now)),
        consolidated(consolidated(consolidated(ps, now), now), now) == consolidated(
            consolidated(ps, now),
            now,
        ),
{
    let m = merged(ps);
    lemma_merged_always_unique(ps);
    let y = pruned(m, now);
    let z = consolidated(ps, now);
    lemma_pruned_sub(m, now);
    assert forall|i: int| 0 <= i < z.len() implies #[trigger] z[i] == recomputed_one(
        reinforced_one(y[i]),
    ) by {}
    assert forall|i: int, k: int| 0 <= i < k < z.len() implies !same_key(
        #[trigger] z[i],
        (#[trigger] z[k]).code_signature@,
        z[k].issue_category@,
    ) by {
        let (a, b) = choose|a: int, b: int| 0 <= a < b < m.len() && y[i] == m[a] && y[k] == m[b];
        assert(z[i] == recomputed_one(reinforced_one(y[i])));
        assert(z[k] == recomputed_one(reinforced_one(y[k])));
    }
    assert forall|i: int| 0 <= i < z.len() implies (#[trigger] z[i]).confidence == ratio(
        z[i].success_count,
        z[i].failure_count,
    ) by {
        assert(z[i] == recomputed_one(reinforced_one(y[i])));
    }
    lemma_consolidate_fixpoint(z, now);
}

/// Two back-to-back Consolidate runs at the same time leave the patterns of
/// the first run unchanged, when keys start unique and every stored
/// confidence agrees with its counts.
pub proof fn lemma_consolidate_fixpoint(ps: Seq<Pattern>, now: i64)
    requires
        unique_pattern_keys(ps),
        consistent(ps),
    ensures
        consolidated(consolidated(ps, now), now) == consolidated(ps, now),
{
    lemma_merged_unique(ps);
    let y = pruned(ps, now);
    let z = consolidated(ps, now);
    lemma_pruned_sub(ps, now);
    assert(z.len() == y.len());
    assert forall|i: int| 0 <= i < z.len() implies #[trigger] z[i] == recomputed_one(y[i]) by {}
    assert forall|i: int, k: int| 0 <= i < k < z.len() implies !same_key(
        #[trigger] z[i],
        (#[trigger] z[k]).code_signature@,
        z[k].issue_category@,
    ) by {
        let (a, b) = choose|a: int, b: int| 0 <= a < b < ps.len() && y[i] == ps[a] && y[k] == ps[b];
        assert(z[i] == recomputed_one(y[i]));
        assert(z[k] == recomputed_one(y[k]));
    }
    lemma_merged_unique(z);
    assert forall|i: int| 0 <= i < z.len() implies !prunable(#[trigger] z[i], now) by {
        let j = choose|j: int| 0 <= j < ps.len() && y[i] == ps[j] && !prunable(ps[j], now);
        assert(z[i] == recomputed_one(y[i]));
    }
    lemma_pruned_keeps_all(z, now);
    assert(consolidated(z, now) =~= z);
}

/// The patterns and trajectories, with the id of the next pattern.
pub struct ReasoningBank {
    patterns: Vec<Pattern>,
    trajectories: Vec<Trajectory>,
    next_id: u64,
    config: ReasoningConfig,
}

/// Good patterns recorded for code that passed without findings.
pub open spec fn success_category() -> Seq<char> {
    "success"@
}

impl ReasoningBank {
    pub closed spec fn patterns_spec(&self) -> Seq<Pattern> {
        self.patterns@
    }

    pub closed spec fn trajectories_spec(&self) -> Seq<Trajectory> {
        self.trajectories@
    }

    /// The most matches that Retrieve returns.
    pub closed spec fn max_query_spec(&self) -> nat {
        self.config.max_patterns_per_query as nat
    }

    /// An empty bank.
    pub fn new(config: ReasoningConfig) -> (r: ReasoningBank)
        ensures
            r.patterns_spec().len() == 0,
            r.trajectories_spec().len() == 0,
    {
        ReasoningBank { patterns: Vec::new(), trajectories: Vec::new(), next_id: 1, config }
    }

    /// A bank holding previously stored patterns and trajectories.
    pub fn with_contents(
        config: ReasoningConfig,
        patterns: Vec<Pattern>,
        trajectories: Vec<Trajectory>,
    ) -> (r: ReasoningBank)
        ensures
            r.patterns_spec() == patterns@,
            r.trajectories_spec() == trajectories@,
    {
        let mut next_id: u64 = 1;
        let mut i: usize = 0;
        while i < patterns.len()
            invariant
                i <= patterns@.len(),
            decreases patterns.len() - i,
        {
            if patterns[i].id >= next_id && patterns[i].id < u64::MAX {
                next_id = patterns[i].id + 1;
            }
            i += 1;
        }
        ReasoningBank { patterns, trajectories, next_id, config }
    }

    pub fn count_trajectories(&self) -> (r: usize)
        ensures
            r == self.trajectories_spec().len(),
    {
        self.trajectories.len()
    }

    pub fn count_patterns(&self) -> (r: usize)
        ensures
            r == self.patterns_spec().len(),
    {
        self.patterns.len()
    }

    pub fn get_all_patterns(&self) -> (r: &Vec<Pattern>)
        ensures
            r@ == self.patterns_spec(),
    {
        &self.patterns
    }

    pub fn get_all_trajectories(&self) -> (r: &Vec<Trajectory>)
        ensures
            r@ == self.trajectories_spec(),
    {
        &self.trajectories
    }

    /// Whether a pattern with this signature and category exists.
    pub fn pattern_exists(&self, signature: &str, category: &str) -> (r: bool)
        ensures
            r == has_key(self.patterns_spec(), signature@, category@),
    {
        let mut i: usize = 0;
        while i < self.patterns.len()
            invariant
                i <= self.patterns@.len(),
                forall|k: int|
                    0 <= k < i ==> !same_key(#[trigger] self.patterns@[k], signature@, category@),
            decreases self.patterns.len() - i,
        {
            if eq_text(self.patterns[i].code_signature.as_str(), signature) && eq_text(self.patterns[i].issue_category.as_str(),
                category,
            ) {
                return true;
            }
            i += 1;
        }
        false
    }

    fn fresh_id(&mut self) -> (r: u64)
        ensures
            final(self).patterns@ == old(self).patterns@,
            final(self).trajectories@ == old(self).trajectories@,
    {
        let id = self.next_id;
        if self.next_id < u64::MAX {
            self.next_id = self.next_id + 1;
        }
        id
    }

    /// Applies one outcome to the key (`signature`, `category`); returns
    /// whether a pattern was created.
    pub fn update_or_create_pattern(
        &mut self,
        signature: &str,
        language: &str,
        issue: &str,
        solution: &Option<String>,
        category: &str,
        was_successful: bool,
        now: i64,
    ) -> (created: bool)
        ensures
            created == !has_key(old(self).patterns_spec(), signature@, category@),
            final(self).patterns_spec() == upserted(
                old(self).patterns_spec(),
                signature@,
                category@,
                was_successful,
                now,
                final(self).patterns_spec().last(),
            ),
            created ==> created_ok(
                final(self).patterns_spec().last(),
                signature@,
                category@,
                was_successful,
                now,
            ),
            final(self).trajectories_spec() == old(self).trajectories_spec(),
    {
        let ghost ps = self.patterns@;
        let mut found = false;
        let mut i: usize = 0;
        while i < self.patterns.len()
            invariant
                i <= self.patterns@.len(),
                self.patterns@.len() == ps.len(),
                self.trajectories@ == old(self).trajectories@,
                ps == old(self).patterns@,
                found == exists|k: int| 0 <= k < i && same_key(#[trigger] ps[k], signature@, category@),
                forall|k: int|
                    0 <= k < i ==> #[trigger] self.patterns@[k] == (if same_key(ps[k], signature@, category@) {
                        bumped(ps[k], was_successful, now)
                    } else {
                        ps[k]
                    }),
                forall|k: int| i <= k < ps.len() ==> #[trigger] self.patterns@[k] == ps[k],
            decreases self.patterns.len() - i,
        {
            if eq_text(self.patterns[i].code_signature.as_str(), signature) && eq_text(self.patterns[i].issue_category.as_str(),
                category,
            ) {
                let mut p = self.patterns.remove(i);
                p.success_count = if was_successful && p.success_count < u64::MAX {
                    p.success_count + 1
                } else {
                    p.success_count
                };
                p.failure_count = if !was_successful && p.failure_count < u64::MAX {
                    p.failure_count + 1
                } else {
                    p.failure_count
                };
                p.confidence = ratio_of(p.success_count, p.failure_count);
                p.last_seen = now;
                self.patterns.insert(i, p);
                found = true;
            }
            i += 1;
        }
        if found {
            proof {
                assert(self.patterns@ =~= upserted(
                    ps,
                    signature@,
                    category@,
                    was_successful,
                    now,
                    self.patterns@.last(),
                ));
            }
            false
        } else {
            let id = self.fresh_id();
            let p = Pattern {
                id,
                pattern_type: if was_successful {
                    PatternType::Ambiguous
                } else {
                    PatternType::AntiPattern
                },
                code_signature: String::from_str(signature),
                language: String::from_str(language),
                issue_category: String::from_str(category),
                description: String::from_str(issue),
                solution: match solution {
                    Some(s) => Some(s.clone()),
                    None => None,
                },
                success_count: if was_successful {
                    1
                } else {
                    0
                },
                failure_count: if was_successful {
                    0
                } else {
                    1
                },
                confidence: 500,
                last_seen: now,
                created_at: now,
            };
            let ghost fresh = p;
            self.patterns.push(p);
            proof {
                assert(created_ok(fresh, signature@, category@, was_successful, now));
                assert(self.patterns@.last() == fresh);
            }
            true
        }
    }
}

/// The good pattern of `sig` after one more clean success: an existing one
/// gains a success and becomes GoodPattern; otherwise `fresh` is appended.
pub open spec fn good_upserted(ps: Seq<Pattern>, sig: Seq<char>, now: i64, fresh: Pattern) -> Seq<
    Pattern,
> {
    if has_key(ps, sig, success_category()) {
        ps.map_values(|p: Pattern| if same_key(p, sig, success_category()) {
            Pattern {
                pattern_type: PatternType::GoodPattern,
                ..bumped(p, true, now)
            }
        } else {
            p
        })
    } else {
        ps.push(fresh)
    }
}

pub proof fn lemma_upsert_keeps_keys(
    ps: Seq<Pattern>,
    sig: Seq<char>,
    cat: Seq<char>,
    ok: bool,
    now: i64,
    fresh: Pattern,
    s2: Seq<char>,
    c2: Seq<char>,
)
    requires
        has_key(ps, s2, c2),
    ensures
        has_key(upserted(ps, sig, cat, ok, now, fresh), s2, c2),
        upserted(ps, sig, cat, ok, now, fresh).len() >= ps.len(),
{
    let j = choose|j: int| 0 <= j < ps.len() && same_key(#[trigger] ps[j], s2, c2);
    let u = upserted(ps, sig, cat, ok, now, fresh);
    assert(same_key(u[j], s2, c2));
}

pub proof fn lemma_good_keeps_keys(
    ps: Seq<Pattern>,
    sig: Seq<char>,
    now: i64,
    fresh: Pattern,
    s2: Seq<char>,
    c2: Seq<char>,
)
    requires
        has_key(ps, s2, c2),
    ensures
        has_key(good_upserted(ps, sig, now, fresh), s2, c2),
{
    let j = choose|j: int| 0 <= j < ps.len() && same_key(#[trigger] ps[j], s2, c2);
    let u = good_upserted(ps, sig, now, fresh);
    assert(same_key(u[j], s2, c2));
}

proof fn lemma_first_is(ps: Seq<Pattern>, sig: Seq<char>, cat: Seq<char>, j: int)
    requires
        0 <= j < ps.len(),
        same_key(ps[j], sig, cat),
        forall|i: int| 0 <= i < j ==> !same_key(#[trigger] ps[i], sig, cat),
    ensures
        first_with_key(ps, sig, cat) == Some(j),
    decreases ps.len(),
{
    if j < ps.len() - 1 {
        let q = ps.drop_last();
        assert forall|i: int| 0 <= i < j implies !same_key(#[trigger] q[i], sig, cat) by {
            assert(q[i] == ps[i]);
        }
        assert(q[j] == ps[j]);
        lemma_first_is(q, sig, cat, j);
    } else {
        lemma_first_with_key(ps.drop_last(), sig, cat);
        assert forall|i: int| 0 <= i < ps.len() - 1 implies !same_key(
            #[trigger] ps.drop_last()[i],
            sig,
            cat,
        ) by {
            assert(ps.drop_last()[i] == ps[i]);
        }
    }
}

impl ReasoningBank {
    /// Records a clean success of `signature` as a good pattern.
    pub fn register_good_pattern(&mut self, signature: &str, language: &str, now: i64) -> (created:
        bool)
        ensures
            created == !has_key(old(self).patterns_spec(), signature@, success_category()),
            final(self).patterns_spec() == good_upserted(
                old(self).patterns_spec(),
                signature@,
                now,
                final(self).patterns_spec().last(),
            ),
            created ==> same_key(final(self).patterns_spec().last(), signature@, success_category())
                && final(self).patterns_spec().last().success_count == 1
                && final(self).patterns_spec().last().failure_count == 0
                && final(self).patterns_spec().last().pattern_type == PatternType::GoodPattern,
            final(self).trajectories_spec() == old(self).trajectories_spec(),
    {
        proof {
            reveal_strlit("success");
        }
        let ghost ps = self.patterns@;
        let mut found = false;
        let mut i: usize = 0;
        while i < self.patterns.len()
            invariant
                i <= self.patterns@.len(),
                self.patterns@.len() == ps.len(),
                self.trajectories@ == old(self).trajectories@,
                ps == old(self).patterns@,
                found == exists|k: int|
                    0 <= k < i && same_key(#[trigger] ps[k], signature@, success_category()),
                forall|k: int|
                    0 <= k < i ==> #[trigger] self.patterns@[k] == (if same_key(
                        ps[k],
                        signature@,
                        success_category(),
                    ) {
                        Pattern { pattern_type: PatternType::GoodPattern, ..bumped(ps[k], true, now) }
                    } else {
                        ps[k]
                    }),
                forall|k: int| i <= k < ps.len() ==> #[trigger] self.patterns@[k] == ps[k],
            decreases self.patterns.len() - i,
        {
            if eq_text(self.patterns[i].code_signature.as_str(), signature) && eq_text(self.patterns[i].issue_category.as_str(),
                "success",
            ) {
                let mut p = self.patterns.remove(i);
                if p.success_count < u64::MAX {
                    p.success_count = p.success_count + 1;
                }
                p.pattern_type = PatternType::GoodPattern;
                p.confidence = ratio_of(p.success_count, p.failure_count);
                p.last_seen = now;
                self.patterns.insert(i, p);
                found = true;
            }
            i += 1;
        }
        if found {
            proof {
                assert(self.patterns@ =~= good_upserted(ps, signature@, now, self.patterns@.last()));
            }
            false
        } else {
            let id = self.fresh_id();
            let p = Pattern {
                id,
                pattern_type: PatternType::GoodPattern,
                code_signature: String::from_str(signature),
                language: String::from_str(language),
                issue_category: String::from_str("success"),
                description: String::from_str("Code approved without issues"),
                solution: None,
                success_count: 1,
                failure_count: 0,
                confidence: 1000,
                last_seen: now,
                created_at: now,
            };
            self.patterns.push(p);
            true
        }
    }

    /// Judge: records the evaluation as a trajectory and updates or creates
    /// one pattern per finding, keyed by the code's signature and the
    /// finding's category; a clean success records a good pattern. It
    /// succeeds when consensus was reached within `max_loops`.
    pub fn judge(
        &mut self,
        request_id: &str,
        code: &str,
        language: &str,
        result: &EvaluationResult,
        loops_to_consensus: u32,
        max_loops: u8,
        now: i64,
    ) -> (r: JudgmentResult)
        ensures
            r.was_successful == (result.consensus_achieved && loops_to_consensus
                <= max_loops as u32),
            final(self).trajectories_spec().len() == old(self).trajectories_spec().len() + 1,
            final(self).trajectories_spec().drop_last() == old(self).trajectories_spec(),
            final(self).trajectories_spec().last().request_id@ == request_id@,
            final(self).trajectories_spec().last().code_hash@ == signature_of(code@),
            final(self).trajectories_spec().last().initial_score as nat == lowest_score(
                result.votes@,
            ),
            final(self).trajectories_spec().last().final_score == result.score,
            final(self).trajectories_spec().last().loops_to_consensus == loops_to_consensus,
            final(self).trajectories_spec().last().was_successful == r.was_successful,
            forall|k: int|
                0 <= k < result.findings@.len() ==> has_key(
                    final(self).patterns_spec(),
                    signature_of(code@),
                    (#[trigger] result.findings@[k]).category@,
                ),
            result.findings@.len() == 0 && r.was_successful ==> has_key(
                final(self).patterns_spec(),
                signature_of(code@),
                success_category(),
            ),
            final(self).patterns_spec().len() >= old(self).patterns_spec().len(),
            forall|i: int|
                0 <= i < old(self).patterns_spec().len() ==> #[trigger] final(self).patterns_spec()[i]
                    == judge_effect(
                    old(self).patterns_spec()[i],
                    signature_of(code@),
                    result.findings@,
                    r.was_successful,
                    now,
                ),
            r.patterns_updated + r.new_patterns_created == result.findings@.len() + (if result.findings@.len()
                == 0 && r.was_successful {
                1int
            } else {
                0int
            }),
    {
        let signature = PatternMatcher::compute_signature(code);
        let was_successful = result.consensus_achieved && loops_to_consensus <= max_loops as u32;
        let initial_score = lowest_of(&result.votes);
        let tid: u64 = self.trajectories.len() as u64;
        self.trajectories.push(
            Trajectory {
                id: tid,
                pattern_id: None,
                request_id: String::from_str(request_id),
                code_hash: signature.clone(),
                initial_score,
                final_score: result.score,
                loops_to_consensus,
                was_successful,
                timestamp: now,
            },
        );
        let ghost traj = self.trajectories@;
        let ghost start = self.patterns@;
        let mut updated: usize = 0;
        let mut created: usize = 0;
        let mut i: usize = 0;
        while i < result.findings.len()
            invariant
                i <= result.findings@.len(),
                self.trajectories@ == traj,
                updated + created == i,
                signature@ == signature_of(code@),
                start == old(self).patterns@,
                self.patterns@.len() >= start.len(),
                forall|j: int|
                    0 <= j < start.len() ==> #[trigger] self.patterns@[j] == judged(
                        start[j],
                        signature@,
                        result.findings@.subrange(0, i as int),
                        was_successful,
                        now,
                    ),
                forall|k: int|
                    0 <= k < i ==> has_key(
                        self.patterns@,
                        signature@,
                        (#[trigger] result.findings@[k]).category@,
                    ),
            decreases result.findings.len() - i,
        {
            let f = &result.findings[i];
            let ghost before = self.patterns@;
            let made = self.update_or_create_pattern(
                signature.as_str(),
                language,
                f.issue.as_str(),
                &f.suggestion,
                f.category.as_str(),
                was_successful,
                now,
            );
            proof {
                let fs0 = result.findings@.subrange(0, i as int);
                let fs1 = result.findings@.subrange(0, i + 1);
                assert(fs1.drop_last() =~= fs0);
                assert(fs1.last() == *f);
                assert forall|j: int| 0 <= j < start.len() implies #[trigger] self.patterns@[j]
                    == judged(start[j], signature@, fs1, was_successful, now) by {
                    lemma_judged_keeps_key(start[j], signature@, fs0, was_successful, now);
                    if !has_key(before, signature@, f.category@) {
                        assert(!same_key(before[j], signature@, f.category@));
                    }
                }
                assert forall|k: int| 0 <= k <= i implies has_key(
                    self.patterns@,
                    signature@,
                    (#[trigger] result.findings@[k]).category@,
                ) by {
                    if k < i {
                        lemma_upsert_keeps_keys(
                            before,
                            signature@,
                            f.category@,
                            was_successful,
                            now,
                            self.patterns@.last(),
                            signature@,
                            result.findings@[k].category@,
                        );
                    } else {
                        let u = self.patterns@;
                        if has_key(before, signature@, f.category@) {
                            let j = choose|j: int|
                                0 <= j < before.len() && same_key(#[trigger] before[j], signature@, f.category@);
                            assert(same_key(u[j], signature@, f.category@));
                        } else {
                            assert(same_key(u[before.len() as int], signature@, f.category@));
                        }
                    }
                }
            }
            if made {
                created += 1;
            } else {
                updated += 1;
            }
            i += 1;
        }
        proof {
            assert(result.findings@.subrange(0, result.findings@.len() as int) =~= result.findings@);
        }
        if result.findings.len() == 0 && was_successful {
            let ghost before = self.patterns@;
            self.register_good_pattern(signature.as_str(), language, now);
            proof {
                assert forall|j: int| 0 <= j < start.len() implies #[trigger] self.patterns@[j]
                    == judge_effect(start[j], signature@, result.findings@, was_successful, now) by {
                    assert(before[j] == start[j]);
                    if !has_key(before, signature@, success_category()) {
                        assert(!same_key(before[j], signature@, success_category()));
                    }
                }
            }
            created += 1;
            proof {
                let u = self.patterns@;
                if has_key(before, signature@, success_category()) {
                    let j = choose|j: int|
                        0 <= j < before.len() && same_key(#[trigger] before[j], signature@, success_category());
                    assert(same_key(u[j], signature@, success_category()));
                }
            }
        }
        JudgmentResult { was_successful, patterns_updated: updated, new_patterns_created: created }
    }

    /// Consolidate: merges patterns sharing a key into the first of them,
    /// prunes stale low-confidence ones, reinforces well-established ones,
    /// then recomputes every confidence and type from the counts.
    pub fn consolidate(&mut self, now: i64) -> (r: ConsolidationResult)
        ensures
            final(self).patterns_spec() == consolidated(old(self).patterns_spec(), now),
            final(self).trajectories_spec() == old(self).trajectories_spec(),
            unique_pattern_keys(final(self).patterns_spec()),
            consistent(final(self).patterns_spec()),
    {
        let ghost ps = self.patterns@;
        proof {
            lemma_consolidated_tidy(ps, now);
        }
        let (m, merged_count) = merge_patterns(&mut self.patterns);
        let (kept, pruned_count) = prune_patterns(m, now);
        let (out, reinforced_count) = reinforce_and_recompute(kept);
        self.patterns = out;
        ConsolidationResult {
            patterns_merged: merged_count,
            patterns_pruned: pruned_count,
            patterns_reinforced: reinforced_count,
        }
    }
}

fn merge_patterns(ps: &mut Vec<Pattern>) -> (r: (Vec<Pattern>, usize))
    ensures
        r.0@ == merged(old(ps)@),
{
    let ghost orig = ps@;
    let mut m: Vec<Pattern> = Vec::new();
    let mut count: usize = 0;
    let ghost mut k: int = 0;
    while ps.len() > 0
        invariant
            0 <= k <= orig.len(),
            ps@ == orig.subrange(k, orig.len() as int),
            m@ == merged(orig.subrange(0, k)),
            count <= k,
        decreases ps@.len(),
    {
        let p = ps.remove(0);
        let ghost prev = m@;
        let ghost nxt = orig.subrange(0, k + 1);
        proof {
            assert(nxt.drop_last() =~= orig.subrange(0, k));
            assert(nxt.last() == orig[k]);
            assert(p == orig[k]);
            assert(merged(nxt) == match first_with_key(prev, p.code_signature@, p.issue_category@) {
                Some(j) => prev.update(j, add_counts(prev[j], p)),
                None => prev.push(p),
            });
        }
        let mut j: usize = 0;
        let mut hit = false;
        while j < m.len()
            invariant
                j <= m@.len(),
                !hit ==> forall|i: int|
                    0 <= i < j ==> !same_key(#[trigger] m@[i], p.code_signature@, p.issue_category@),
                hit ==> j < m@.len() && same_key(m@[j as int], p.code_signature@, p.issue_category@)
                    && forall|i: int|
                    0 <= i < j ==> !same_key(#[trigger] m@[i], p.code_signature@, p.issue_category@),
            ensures
                !hit ==> forall|i: int|
                    0 <= i < m@.len() ==> !same_key(#[trigger] m@[i], p.code_signature@, p.issue_category@),
                hit ==> j < m@.len() && same_key(m@[j as int], p.code_signature@, p.issue_category@)
                    && forall|i: int|
                    0 <= i < j ==> !same_key(#[trigger] m@[i], p.code_signature@, p.issue_category@),
            decreases m.len() - j + (if hit { 0int } else { 1int }),
        {
            if eq_text(m[j].code_signature.as_str(), p.code_signature.as_str()) && eq_text(m[j].issue_category.as_str(),
                p.issue_category.as_str(),
            ) {
                hit = true;
                break;
            }
            j += 1;
        }
        if hit {
            proof {
                lemma_first_is(m@, p.code_signature@, p.issue_category@, j as int);
            }
            let ghost old_m = m@;
            let mut q = m.remove(j);
            let s: u128 = q.success_count as u128 + p.success_count as u128;
            let f: u128 = q.failure_count as u128 + p.failure_count as u128;
            q.success_count = if s <= u64::MAX as u128 {
                s as u64
            } else {
                u64::MAX
            };
            q.failure_count = if f <= u64::MAX as u128 {
                f as u64
            } else {
                u64::MAX
            };
            m.insert(j, q);
            proof {
                assert(q == add_counts(old_m[j as int], p));
                assert(m@ =~= old_m.update(j as int, add_counts(old_m[j as int], p)));
                assert(old_m == prev);
                assert(m@ == merged(nxt));
            }
            if count < usize::MAX {
                count += 1;
            }
        } else {
            proof {
                lemma_first_with_key(m@, p.code_signature@, p.issue_category@);
                if first_with_key(m@, p.code_signature@, p.issue_category@) is Some {
                    let i = first_with_key(m@, p.code_signature@, p.issue_category@)->0;
                    assert(same_key(m@[i], p.code_signature@, p.issue_category@));
                }
            }
            m.push(p);
            proof {
                assert(m@ == merged(nxt));
            }
        }
        proof {
            k = k + 1;
            assert(ps@ =~= orig.subrange(k, orig.len() as int));
        }
    }
    proof {
        assert(orig.subrange(0, orig.len() as int) =~= orig);
    }
    (m, count)
}

fn prune_patterns(ps: Vec<Pattern>, now: i64) -> (r: (Vec<Pattern>, usize))
    ensures
        r.0@ == pruned(ps@, now),
{
    let ghost orig = ps@;
    let mut rest = ps;
    let mut kept: Vec<Pattern> = Vec::new();
    let mut count: usize = 0;
    let ghost mut k: int = 0;
    while rest.len() > 0
        invariant
            0 <= k <= orig.len(),
            rest@ == orig.subrange(k, orig.len() as int),
            kept@ == pruned(orig.subrange(0, k), now),
            count <= k,
        decreases rest@.len(),
    {
        let p = rest.remove(0);
        proof {
            assert(orig.subrange(0, k + 1).drop_last() =~= orig.subrange(0, k));
            assert(orig.subrange(0, k + 1).last() == orig[k]);
        }
        let old_enough: bool = (now as i128) - (PRUNE_AGE_SECS as i128) > p.created_at as i128;
        let count_total: u128 = p.success_count as u128 + p.failure_count as u128;
        if p.confidence < 300 && count_total < 3 && old_enough {
            if count < usize::MAX {
                count += 1;
            }
        } else {
            kept.push(p);
        }
        proof {
            k = k + 1;
            assert(rest@ =~= orig.subrange(k, orig.len() as int));
        }
    }
    proof {
        assert(orig.subrange(0, orig.len() as int) =~= orig);
    }
    (kept, count)
}

fn reinforce_and_recompute(ps: Vec<Pattern>) -> (r: (Vec<Pattern>, usize))
    ensures
        r.0@ == ps@.map_values(|p: Pattern| recomputed_one(reinforced_one(p))),
{
    let ghost orig = ps@;
    let mut rest = ps;
    let mut out: Vec<Pattern> = Vec::new();
    let mut count: usize = 0;
    let ghost mut k: int = 0;
    while rest.len() > 0
        invariant
            0 <= k <= orig.len(),
            rest@ == orig.subrange(k, orig.len() as int),
            out@ == orig.subrange(0, k).map_values(|p: Pattern| recomputed_one(reinforced_one(p))),
            count <= k,
        decreases rest@.len(),
    {
        let mut p = rest.remove(0);
        let ghost p0 = p;
        let count_total: u128 = p.success_count as u128 + p.failure_count as u128;
        if count_total > 10 && p.confidence > 700 {
            let c: u128 = p.confidence as u128 * 105 / 100;
            p.confidence = if c < 1000 {
                c as u64
            } else {
                1000
            };
            if count < usize::MAX {
                count += 1;
            }
        }
        assert(p == reinforced_one(p0));
        p.confidence = ratio_of(p.success_count, p.failure_count);
        p.pattern_type = if count_total > 0 && p.success_count as u128 > 4 * p.failure_count as u128 {
            PatternType::GoodPattern
        } else if count_total > 0 && p.failure_count as u128 > 4 * p.success_count as u128 {
            PatternType::AntiPattern
        } else {
            PatternType::Ambiguous
        };
        out.push(p);
        proof {
            assert(out@ =~= orig.subrange(0, k + 1).map_values(
                |p: Pattern| recomputed_one(reinforced_one(p)),
            ));
            k = k + 1;
            assert(rest@ =~= orig.subrange(k, orig.len() as int));
        }
    }
    proof {
        assert(orig.subrange(0, orig.len() as int) =~= orig);
    }
    (out, count)
}

/// How a pattern was found.
#[derive(Debug, Clone, Copy, PartialEq, Eq, Structural)]
pub enum MatchType {
    Exact,
    Keyword,
}

/// A retrieved pattern with its relevance in thousandths.
#[derive(Debug, Clone)]
pub struct PatternMatch {
    pub pattern: Pattern,
    pub match_type: MatchType,
    pub relevance: u64,
}

/// Ranking key of a match: relevance times confidence.
pub open spec fn match_score(m: PatternMatch) -> int {
    m.relevance * m.pattern.confidence
}

/// No two matches share a pattern id.
pub open spec fn distinct_matches(ms: Seq<PatternMatch>) -> bool {
    forall|a: int, b: int| 0 <= a < b < ms.len() ==> (#[trigger] ms[a]).pattern.id != (#[trigger] ms[b]).pattern.id
}

/// A match is one of the stored patterns, found either by exact signature
/// (relevance 1000) or by keyword (relevance 700).
pub open spec fn match_ok(m: PatternMatch, ps: Seq<Pattern>, sig: Seq<char>) -> bool {
    (exists|i: int| 0 <= i < ps.len() && ps[i] == m.pattern) && match m.match_type {
        MatchType::Exact => m.relevance == 1000 && m.pattern.code_signature@ == sig,
        MatchType::Keyword => m.relevance == 700,
    }
}

pub fn clone_pattern(p: &Pattern) -> (r: Pattern)
    ensures
        r == *p,
{
    Pattern {
        id: p.id,
        pattern_type: p.pattern_type,
        code_signature: p.code_signature.clone(),
        language: p.language.clone(),
        issue_category: p.issue_category.clone(),
        description: p.description.clone(),
        solution: match &p.solution {
            Some(s) => Some(s.clone()),
            None => None,
        },
        success_count: p.success_count,
        failure_count: p.failure_count,
        confidence: p.confidence,
        last_seen: p.last_seen,
        created_at: p.created_at,
    }
}

fn score_of(m: &PatternMatch) -> (r: u128)
    ensures
        r as int == match_score(*m),
{
    assert(m.relevance * m.pattern.confidence <= u64::MAX * u64::MAX) by (nonlinear_arith);
    m.relevance as u128 * m.pattern.confidence as u128
}

/// Moves the matches of `cands` into a list ordered by non-increasing
/// score, keeping at most `limit` of them.
fn take_best(
    cands: Vec<PatternMatch>,
    limit: usize,
    Ghost(ps): Ghost<Seq<Pattern>>,
    Ghost(sig): Ghost<Seq<char>>,
    Ghost(keep_distinct): Ghost<bool>,
) -> (r: Vec<PatternMatch>)
    requires
        forall|k: int| 0 <= k < cands@.len() ==> match_ok(#[trigger] cands@[k], ps, sig),
        keep_distinct ==> distinct_matches(cands@),
    ensures
        r@.len() == if cands@.len() < limit {
            cands@.len()
        } else {
            limit as nat
        },
        keep_distinct ==> distinct_matches(r@),
        r@.len() <= limit,
        forall|k: int| 0 <= k < r@.len() ==> match_ok(#[trigger] r@[k], ps, sig),
        forall|a: int, b: int| 0 <= a < b < r@.len() ==> match_score(#[trigger] r@[a]) >= match_score(#[trigger] r@[b]),
{
    let ghost total = cands@.len();
    let mut rest = cands;
    let mut out: Vec<PatternMatch> = Vec::new();
    while out.len() < limit && rest.len() > 0
        invariant
            out@.len() <= limit,
            out@.len() + rest@.len() == total,
            forall|k: int| 0 <= k < rest@.len() ==> match_ok(#[trigger] rest@[k], ps, sig),
            forall|k: int| 0 <= k < out@.len() ==> match_ok(#[trigger] out@[k], ps, sig),
            forall|a: int, b: int| 0 <= a < b < out@.len() ==> match_score(#[trigger] out@[a]) >= match_score(#[trigger] out@[b]),
            forall|a: int, b: int| 0 <= a < out@.len() && 0 <= b < rest@.len() ==> match_score(#[trigger] out@[a]) >= match_score(#[trigger] rest@[b]),
            keep_distinct ==> distinct_matches(out@),
            keep_distinct ==> distinct_matches(rest@),
            keep_distinct ==> forall|a: int, b: int| 0 <= a < out@.len() && 0 <= b < rest@.len() ==> (#[trigger] out@[a]).pattern.id != (#[trigger] rest@[b]).pattern.id,
        decreases rest@.len(),
    {
        let mut best: usize = 0;
        let mut best_score = score_of(&rest[0]);
        let mut i: usize = 1;
        while i < rest.len()
            invariant
                1 <= i <= rest@.len(),
                best < rest@.len(),
                best_score as int == match_score(rest@[best as int]),
                forall|k: int| 0 <= k < i ==> match_score(#[trigger] rest@[k]) <= best_score,
            decreases rest.len() - i,
        {
            let sc = score_of(&rest[i]);
            if sc > best_score {
                best = i;
                best_score = sc;
            }
            i += 1;
        }
        let ghost before_rest = rest@;
        let ghost before_out = out@;
        let m = rest.remove(best);
        out.push(m);
        proof {
            assert forall|k: int| 0 <= k < rest@.len() implies match_ok(#[trigger] rest@[k], ps, sig) by {
                let kk = if k < best { k } else { k + 1 };
                assert(rest@[k] == before_rest[kk]);
            }
            assert forall|a: int, b: int| 0 <= a < out@.len() && 0 <= b < rest@.len() implies match_score(#[trigger] out@[a]) >= match_score(#[trigger] rest@[b]) by {
                let bb = if b < best { b } else { b + 1 };
                assert(rest@[b] == before_rest[bb]);
                if a < before_out.len() {
                    assert(out@[a] == before_out[a]);
                }
            }
            if keep_distinct {
                assert forall|a: int, b: int| 0 <= a < b < rest@.len() implies (#[trigger] rest@[a]).pattern.id != (#[trigger] rest@[b]).pattern.id by {
                    let aa = if a < best { a } else { a + 1 };
                    let bb = if b < best { b } else { b + 1 };
                    assert(rest@[a] == before_rest[aa]);
                    assert(rest@[b] == before_rest[bb]);
                }
                assert forall|a: int, b: int| 0 <= a < b < out@.len() implies (#[trigger] out@[a]).pattern.id != (#[trigger] out@[b]).pattern.id by {
                    if b < before_out.len() {
                        assert(out@[a] == before_out[a]);
                        assert(out@[b] == before_out[b]);
                    } else {
                        assert(out@[a] == before_out[a]);
                        assert(out@[b] == before_rest[best as int]);
                    }
                }
                assert forall|a: int, b: int| 0 <= a < out@.len() && 0 <= b < rest@.len() implies (#[trigger] out@[a]).pattern.id != (#[trigger] rest@[b]).pattern.id by {
                    let bb = if b < best { b } else { b + 1 };
                    assert(rest@[b] == before_rest[bb]);
                    if a < before_out.len() {
                        assert(out@[a] == before_out[a]);
                    } else {
                        assert(out@[a] == before_rest[best as int]);
                    }
                }
            }
            assert forall|a: int, b: int| 0 <= a < b < out@.len() implies match_score(#[trigger] out@[a]) >= match_score(#[trigger] out@[b]) by {
                if b < before_out.len() {
                    assert(out@[a] == before_out[a]);
                    assert(out@[b] == before_out[b]);
                } else {
                    assert(out@[a] == before_out[a]);
                    assert(out@[b] == before_rest[best as int]);
                }
            }
        }
    }
    out
}

impl ReasoningBank {
    /// Retrieve: patterns of the same signature (relevance 1000), then for
    /// each keyword of the code up to ten patterns of the language (or of
    /// `any`) whose category or description mentions it (relevance 700),
    /// without repeated ids, best first by relevance times confidence, at
    /// most the configured number.
    pub fn retrieve(&self, code: &str, language: &str) -> (r: Vec<PatternMatch>)
        ensures
            r@.len() <= self.max_query_spec(),
            forall|k: int| 0 <= k < r@.len() ==> match_ok(#[trigger] r@[k], self.patterns_spec(), signature_of(code@)),
            forall|a: int, b: int| 0 <= a < b < r@.len() ==> match_score(#[trigger] r@[a]) >= match_score(#[trigger] r@[b]),
            distinct_matches(r@),
            self.max_query_spec() > 0 && (exists|i: int|
                0 <= i < self.patterns_spec().len() && (#[trigger] self.patterns_spec()[i]).code_signature@
                    == signature_of(code@)) ==> r@.len() > 0,
    {
        let signature = PatternMatcher::compute_signature(code);
        let ghost sig = signature_of(code@);
        let ghost ps = self.patterns@;
        let mut cands: Vec<PatternMatch> = Vec::new();
        let mut i: usize = 0;
        while i < self.patterns.len()
            invariant
                i <= ps.len(),
                ps == self.patterns@,
                signature@ == sig,
                forall|k: int| 0 <= k < cands@.len() ==> match_ok(#[trigger] cands@[k], ps, sig),
                (exists|k: int| 0 <= k < i && (#[trigger] ps[k]).code_signature@ == sig) ==> cands@.len() > 0,
            decreases self.patterns.len() - i,
        {
            if eq_text(self.patterns[i].code_signature.as_str(), signature.as_str()) {
                let m = PatternMatch {
                    pattern: clone_pattern(&self.patterns[i]),
                    match_type: MatchType::Exact,
                    relevance: 1000,
                };
                assert(m.pattern == ps[i as int]);
                cands.push(m);
            }
            i += 1;
        }
        let keywords = PatternMatcher::extract_keywords(code);
        let ghost n0 = cands@.len();
        let mut k: usize = 0;
        while k < keywords.len()
            invariant
                k <= keywords@.len(),
                ps == self.patterns@,
                cands@.len() >= n0,
                forall|j: int| 0 <= j < cands@.len() ==> match_ok(#[trigger] cands@[j], ps, sig),
            decreases keywords.len() - k,
        {
            let mut found: Vec<PatternMatch> = Vec::new();
            let kw = chars_of(keywords[k].as_str());
            let mut j: usize = 0;
            while j < self.patterns.len()
                invariant
                    j <= ps.len(),
                    ps == self.patterns@,
                    forall|t: int| 0 <= t < found@.len() ==> match_ok(#[trigger] found@[t], ps, sig),
                decreases self.patterns.len() - j,
            {
                let p = &self.patterns[j];
                if (eq_text(p.language.as_str(), language) || eq_text(p.language.as_str(), "any")) && (
                mentions(&p.issue_category, &kw) || mentions(&p.description, &kw)) {
                    let m = PatternMatch {
                        pattern: clone_pattern(p),
                        match_type: MatchType::Keyword,
                        relevance: 700,
                    };
                    assert(m.pattern == ps[j as int]);
                    found.push(m);
                }
                j += 1;
            }
            let best = take_best(found, 10, Ghost(ps), Ghost(sig), Ghost(false));
            let mut best = best;
            while best.len() > 0
                invariant
                    ps == self.patterns@,
                    cands@.len() >= n0,
                    forall|j: int| 0 <= j < cands@.len() ==> match_ok(#[trigger] cands@[j], ps, sig),
                    forall|j: int| 0 <= j < best@.len() ==> match_ok(#[trigger] best@[j], ps, sig),
                decreases best@.len(),
            {
                let m = best.remove(0);
                cands.push(m);
            }
            k += 1;
        }
        let unique = distinct_ids(cands, Ghost(ps), Ghost(sig));
        take_best(unique, self.config.max_patterns_per_query, Ghost(ps), Ghost(sig), Ghost(true))
    }
}

/// Counts of an import.
#[derive(Debug, Clone, Copy)]
pub struct ImportResult {
    pub imported: usize,
    pub skipped: usize,
    pub merged: usize,
}

/// An imported pattern is merged into the stored one of its key when it has
/// more outcomes or was seen later.
pub open spec fn should_merge(stored: Pattern, incoming: Pattern) -> bool {
    total(incoming) > total(stored) || incoming.last_seen > stored.last_seen
}

pub open spec fn sat_sum(a: u64, b: u64) -> u64 {
    if a + b <= u64::MAX {
        (a + b) as u64
    } else {
        u64::MAX
    }
}

/// A stored pattern after merging an imported one: counts summed, latest
/// sighting kept, confidence recomputed.
pub open spec fn merged_with(stored: Pattern, incoming: Pattern) -> Pattern {
    let s = sat_sum(stored.success_count, incoming.success_count);
    let f = sat_sum(stored.failure_count, incoming.failure_count);
    Pattern {
        success_count: s,
        failure_count: f,
        last_seen: if incoming.last_seen > stored.last_seen {
            incoming.last_seen
        } else {
            stored.last_seen
        },
        confidence: ratio(s, f),
        ..stored
    }
}

impl ReasoningBank {
    /// Imports one pattern: a new key is added (with a fresh id); an
    /// existing key is merged when the import has more outcomes or a later
    /// sighting, and skipped otherwise. Returns 0, 1 or 2 for imported,
    /// merged or skipped.
    pub fn import_pattern(&mut self, incoming: &Pattern) -> (r: u8)
        ensures
            !has_key(old(self).patterns_spec(), incoming.code_signature@, incoming.issue_category@)
                ==> r == 0 && final(self).patterns_spec().len() == old(self).patterns_spec().len() + 1
                && final(self).patterns_spec().drop_last() == old(self).patterns_spec()
                && final(self).patterns_spec().last() == (Pattern {
                id: final(self).patterns_spec().last().id,
                ..*incoming
            }),
            has_key(old(self).patterns_spec(), incoming.code_signature@, incoming.issue_category@)
                ==> ({
                let ps = old(self).patterns_spec();
                let e = ps[first_with_key(ps, incoming.code_signature@, incoming.issue_category@)->0];
                if should_merge(e, *incoming) {
                    r == 1 && final(self).patterns_spec() == ps.map_values(
                        |p: Pattern|
                            if same_key(p, incoming.code_signature@, incoming.issue_category@) {
                                merged_with(p, *incoming)
                            } else {
                                p
                            },
                    )
                } else {
                    r == 2 && final(self).patterns_spec() == ps
                }
            }),
            final(self).trajectories_spec() == old(self).trajectories_spec(),
    {
        let ghost ps = self.patterns@;
        let ghost sig = incoming.code_signature@;
        let ghost cat = incoming.issue_category@;
        proof {
            lemma_first_with_key(ps, sig, cat);
        }
        let mut j: usize = 0;
        let mut hit = false;
        while j < self.patterns.len()
            invariant
                j <= ps.len(),
                ps == self.patterns@,
                sig == incoming.code_signature@,
                cat == incoming.issue_category@,
                !hit ==> forall|i: int| 0 <= i < j ==> !same_key(#[trigger] ps[i], sig, cat),
                hit ==> j < ps.len() && same_key(ps[j as int], sig, cat) && forall|i: int|
                    0 <= i < j ==> !same_key(#[trigger] ps[i], sig, cat),
            ensures
                !hit ==> forall|i: int| 0 <= i < ps.len() ==> !same_key(#[trigger] ps[i], sig, cat),
                hit ==> j < ps.len() && same_key(ps[j as int], sig, cat) && forall|i: int|
                    0 <= i < j ==> !same_key(#[trigger] ps[i], sig, cat),
            decreases ps.len() - j + (if hit { 0int } else { 1int }),
        {
            let a = eq_text(self.patterns[j].code_signature.as_str(), incoming.code_signature.as_str());
            let b = eq_text(self.patterns[j].issue_category.as_str(), incoming.issue_category.as_str());
            if a && b {
                assert(same_key(ps[j as int], sig, cat));
                hit = true;
                break;
            }
            j += 1;
        }
        if !hit {
            let id = self.fresh_id();
            let mut p = clone_pattern(incoming);
            p.id = id;
            self.patterns.push(p);
            return 0;
        }
        proof {
            lemma_first_is(ps, sig, cat, j as int);
        }
        let e = &self.patterns[j];
        let t_in: u128 = incoming.success_count as u128 + incoming.failure_count as u128;
        let t_st: u128 = e.success_count as u128 + e.failure_count as u128;
        if !(t_in > t_st || incoming.last_seen > e.last_seen) {
            return 2;
        }
        let mut i: usize = 0;
        while i < self.patterns.len()
            invariant
                i <= ps.len(),
                self.patterns@.len() == ps.len(),
                self.trajectories@ == old(self).trajectories@,
                sig == incoming.code_signature@,
                cat == incoming.issue_category@,
                forall|k: int|
                    0 <= k < i ==> #[trigger] self.patterns@[k] == (if same_key(ps[k], sig, cat) {
                        merged_with(ps[k], *incoming)
                    } else {
                        ps[k]
                    }),
                forall|k: int| i <= k < ps.len() ==> #[trigger] self.patterns@[k] == ps[k],
            decreases ps.len() - i,
        {
            let a = eq_text(self.patterns[i].code_signature.as_str(), incoming.code_signature.as_str());
            let b = eq_text(self.patterns[i].issue_category.as_str(), incoming.issue_category.as_str());
            if a && b {
                let ghost before = self.patterns@;
                let mut p = self.patterns.remove(i);
                let s: u128 = p.success_count as u128 + incoming.success_count as u128;
                let f: u128 = p.failure_count as u128 + incoming.failure_count as u128;
                p.success_count = if s <= u64::MAX as u128 {
                    s as u64
                } else {
                    u64::MAX
                };
                p.failure_count = if f <= u64::MAX as u128 {
                    f as u64
                } else {
                    u64::MAX
                };
                if incoming.last_seen > p.last_seen {
                    p.last_seen = incoming.last_seen;
                }
                p.confidence = ratio_of(p.success_count, p.failure_count);
                assert(p == merged_with(ps[i as int], *incoming));
                self.patterns.insert(i, p);
                assert(self.patterns@ =~= before.update(i as int, merged_with(ps[i as int], *incoming)));
            }
            i += 1;
        }
        proof {
            assert(self.patterns@ =~= ps.map_values(
                |p: Pattern|
                    if same_key(p, sig, cat) {
                        merged_with(p, *incoming)
                    } else {
                        p
                    },
            ));
        }
        1
    }

    /// Imports patterns in order and counts what became of them.
    pub fn import(&mut self, patterns: &Vec<Pattern>) -> (r: ImportResult)
        ensures
            r.imported + r.merged + r.skipped == patterns@.len(),
            final(self).trajectories_spec() == old(self).trajectories_spec(),
    {
        let mut imported: usize = 0;
        let mut merged: usize = 0;
        let mut skipped: usize = 0;
        let mut i: usize = 0;
        while i < patterns.len()
            invariant
                i <= patterns@.len(),
                imported + merged + skipped == i,
                self.trajectories@ == old(self).trajectories@,
            decreases patterns.len() - i,
        {
            let what = self.import_pattern(&patterns[i]);
            if what == 0 {
                imported += 1;
            } else if what == 1 {
                merged += 1;
            } else {
                skipped += 1;
            }
            i += 1;
        }
        ImportResult { imported, skipped, merged }
    }
}

/// Per-language counts of the stored patterns.
#[derive(Debug, Clone)]
pub struct LanguageStats {
    pub language: String,
    pub total_patterns: usize,
    pub good_patterns: usize,
    pub confidence_sum: u64,
}

/// What Distill reports. Rates and averages are left to the reader:
/// success rate is `good_patterns / total_patterns`, average confidence is
/// `confidence_sum / total_patterns` (in thousandths), and the average loops
/// to consensus is `successful_loops / successful_trajectories`.
#[derive(Debug, Clone)]
pub struct DistilledKnowledge {
    pub top_antipatterns: Vec<Pattern>,
    pub top_good_patterns: Vec<Pattern>,
    pub problematic_categories: Vec<(String, usize)>,
    pub language_stats: Vec<LanguageStats>,
    pub successful_trajectories: usize,
    pub successful_loops: u64,
    pub total_patterns: usize,
    pub total_trajectories: usize,
}

/// Ranking of patterns: more outcomes first, then higher confidence.
pub open spec fn ranks_before(a: Pattern, b: Pattern) -> bool {
    total(a) > total(b) || (total(a) == total(b) && a.confidence >= b.confidence)
}

pub open spec fn ranked(ps: Seq<Pattern>) -> bool {
    forall|a: int, b: int| 0 <= a < b < ps.len() ==> ranks_before(#[trigger] ps[a], #[trigger] ps[b])
}

fn ranks_before_exec(a: &Pattern, b: &Pattern) -> (r: bool)
    ensures
        r == ranks_before(*a, *b),
{
    let ta: u128 = a.success_count as u128 + a.failure_count as u128;
    let tb: u128 = b.success_count as u128 + b.failure_count as u128;
    ta > tb || (ta == tb && a.confidence >= b.confidence)
}

/// Number of patterns of type `t`.
pub open spec fn count_type(ps: Seq<Pattern>, t: PatternType) -> nat
    decreases ps.len(),
{
    if ps.len() == 0 {
        0
    } else {
        count_type(ps.drop_last(), t) + if ps.last().pattern_type == t {
            1nat
        } else {
            0nat
        }
    }
}

/// Up to `limit` patterns of type `t`, best ranked first.
fn top_of_type(ps: &Vec<Pattern>, t: PatternType, limit: usize) -> (r: Vec<Pattern>)
    ensures
        r@.len() == if count_type(ps@, t) < limit {
            count_type(ps@, t)
        } else {
            limit as nat
        },
        ranked(r@),
        forall|k: int| 0 <= k < r@.len() ==> (#[trigger] r@[k]).pattern_type == t && exists|i: int|
            0 <= i < ps@.len() && ps@[i] == r@[k],
{
    let mut rest: Vec<Pattern> = Vec::new();
    let mut i: usize = 0;
    while i < ps.len()
        invariant
            i <= ps@.len(),
            rest@.len() == count_type(ps@.subrange(0, i as int), t),
            forall|k: int| 0 <= k < rest@.len() ==> (#[trigger] rest@[k]).pattern_type == t && exists|j: int|
                0 <= j < ps@.len() && ps@[j] == rest@[k],
        decreases ps.len() - i,
    {
        proof {
            assert(ps@.subrange(0, i + 1).drop_last() =~= ps@.subrange(0, i as int));
        }
        if ps[i].pattern_type == t {
            let c = clone_pattern(&ps[i]);
            assert(c == ps@[i as int]);
            rest.push(c);
        }
        i += 1;
    }
    assert(ps@.subrange(0, ps@.len() as int) =~= ps@);
    let ghost total = rest@.len();
    let mut out: Vec<Pattern> = Vec::new();
    while out.len() < limit && rest.len() > 0
        invariant
            out@.len() <= limit,
            out@.len() + rest@.len() == total,
            forall|k: int| 0 <= k < rest@.len() ==> (#[trigger] rest@[k]).pattern_type == t && exists|j: int|
                0 <= j < ps@.len() && ps@[j] == rest@[k],
            forall|k: int| 0 <= k < out@.len() ==> (#[trigger] out@[k]).pattern_type == t && exists|j: int|
                0 <= j < ps@.len() && ps@[j] == out@[k],
            ranked(out@),
            forall|a: int, b: int| 0 <= a < out@.len() && 0 <= b < rest@.len() ==> ranks_before(#[trigger] out@[a], #[trigger] rest@[b]),
        decreases rest@.len(),
    {
        let mut best: usize = 0;
        let mut k: usize = 1;
        while k < rest.len()
            invariant
                1 <= k <= rest@.len(),
                best < rest@.len(),
                forall|x: int| 0 <= x < k ==> ranks_before(rest@[best as int], #[trigger] rest@[x]),
            decreases rest.len() - k,
        {
            if !ranks_before_exec(&rest[best], &rest[k]) {
                best = k;
            }
            k += 1;
        }
        let ghost before_rest = rest@;
        let ghost before_out = out@;
        let m = rest.remove(best);
        out.push(m);
        proof {
            assert forall|x: int| 0 <= x < rest@.len() implies (#[trigger] rest@[x]).pattern_type == t && exists|j: int|
                0 <= j < ps@.len() && ps@[j] == rest@[x] by {
                let xx = if x < best { x } else { x + 1 };
                assert(rest@[x] == before_rest[xx]);
            }
            assert forall|x: int| 0 <= x < out@.len() implies (#[trigger] out@[x]).pattern_type == t && exists|j: int|
                0 <= j < ps@.len() && ps@[j] == out@[x] by {
                if x < before_out.len() {
                    assert(out@[x] == before_out[x]);
                } else {
                    assert(out@[x] == before_rest[best as int]);
                }
            }
            assert forall|a: int, b: int| 0 <= a < b < out@.len() implies ranks_before(#[trigger] out@[a], #[trigger] out@[b]) by {
                assert(out@[a] == before_out[a]);
                if b < before_out.len() {
                    assert(out@[b] == before_out[b]);
                } else {
                    assert(out@[b] == before_rest[best as int]);
                }
            }
            assert forall|a: int, b: int| 0 <= a < out@.len() && 0 <= b < rest@.len() implies ranks_before(#[trigger] out@[a], #[trigger] rest@[b]) by {
                let bb = if b < best { b } else { b + 1 };
                assert(rest@[b] == before_rest[bb]);
                if a < before_out.len() {
                    assert(out@[a] == before_out[a]);
                } else {
                    assert(out@[a] == before_rest[best as int]);
                }
            }
        }
    }
    out
}

impl ReasoningBank {
    /// Distill: the ten best-ranked anti-patterns and good patterns, the
    /// anti-patterns per category, per-language counts, the loops of the
    /// successful trajectories, and the totals.
    pub fn distill(&self) -> (r: DistilledKnowledge)
        ensures
            r.total_patterns == self.patterns_spec().len(),
            r.total_trajectories == self.trajectories_spec().len(),
            r.top_antipatterns@.len() == if count_type(self.patterns_spec(), PatternType::AntiPattern)
                < 10 {
                count_type(self.patterns_spec(), PatternType::AntiPattern)
            } else {
                10
            },
            r.top_good_patterns@.len() == if count_type(self.patterns_spec(), PatternType::GoodPattern)
                < 10 {
                count_type(self.patterns_spec(), PatternType::GoodPattern)
            } else {
                10
            },
            ranked(r.top_antipatterns@),
            ranked(r.top_good_patterns@),
            forall|k: int| 0 <= k < r.top_antipatterns@.len() ==> (#[trigger] r.top_antipatterns@[k]).pattern_type == PatternType::AntiPattern,
            forall|k: int| 0 <= k < r.top_good_patterns@.len() ==> (#[trigger] r.top_good_patterns@[k]).pattern_type == PatternType::GoodPattern,
            histogram_view(r.problematic_categories@) == anti_histogram_spec(self.patterns_spec()),
            r.successful_trajectories as nat == success_count(self.trajectories_spec()),
            r.successful_loops == success_loops(self.trajectories_spec()),
            language_view(r.language_stats@) == language_spec(self.patterns_spec()),
    {
        let top_antipatterns = top_of_type(&self.patterns, PatternType::AntiPattern, 10);
        let top_good_patterns = top_of_type(&self.patterns, PatternType::GoodPattern, 10);
        let categories = anti_histogram(&self.patterns);
        let languages = language_table(&self.patterns);
        let (successful_trajectories, successful_loops) = successes(&self.trajectories);
        DistilledKnowledge {
            top_antipatterns,
            top_good_patterns,
            problematic_categories: categories,
            language_stats: languages,
            successful_trajectories,
            successful_loops,
            total_patterns: self.patterns.len(),
            total_trajectories: self.trajectories.len(),
        }
    }
}

/// Number of successful trajectories.
pub open spec fn success_count(ts: Seq<Trajectory>) -> nat
    decreases ts.len(),
{
    if ts.len() == 0 {
        0
    } else {
        success_count(ts.drop_last()) + if ts.last().was_successful {
            1nat
        } else {
            0nat
        }
    }
}

/// Loops to consensus summed over the successful trajectories (saturating).
pub open spec fn success_loops(ts: Seq<Trajectory>) -> u64
    decreases ts.len(),
{
    if ts.len() == 0 {
        0
    } else if ts.last().was_successful {
        sat_sum(success_loops(ts.drop_last()), ts.last().loops_to_consensus as u64)
    } else {
        success_loops(ts.drop_last())
    }
}

proof fn lemma_success_count_le(ts: Seq<Trajectory>)
    ensures
        success_count(ts) <= ts.len(),
    decreases ts.len(),
{
    if ts.len() > 0 {
        lemma_success_count_le(ts.drop_last());
    }
}

fn successes(ts: &Vec<Trajectory>) -> (r: (usize, u64))
    ensures
        r.0 as nat == success_count(ts@),
        r.1 == success_loops(ts@),
{
    let mut n: usize = 0;
    let mut loops: u64 = 0;
    let mut t: usize = 0;
    while t < ts.len()
        invariant
            t <= ts@.len(),
            n as nat == success_count(ts@.subrange(0, t as int)),
            loops == success_loops(ts@.subrange(0, t as int)),
        decreases ts.len() - t,
    {
        proof {
            assert(ts@.subrange(0, t + 1).drop_last() =~= ts@.subrange(0, t as int));
            lemma_success_count_le(ts@.subrange(0, t as int));
        }
        if ts[t].was_successful {
            n += 1;
            let l = ts[t].loops_to_consensus as u64;
            loops = if loops <= u64::MAX - l {
                loops + l
            } else {
                u64::MAX
            };
        }
        t += 1;
    }
    assert(ts@.subrange(0, ts@.len() as int) =~= ts@);
    (n, loops)
}

/// First index of the entry for category `c`, if any.
pub open spec fn entry_of(h: Seq<(Seq<char>, nat)>, c: Seq<char>) -> Option<int>
    decreases h.len(),
{
    if h.len() == 0 {
        None
    } else {
        match entry_of(h.drop_last(), c) {
            Some(j) => Some(j),
            None => if h.last().0 == c {
                Some(h.len() - 1)
            } else {
                None
            },
        }
    }
}

/// Anti-patterns per category, categories in order of first appearance.
pub open spec fn anti_histogram_spec(ps: Seq<Pattern>) -> Seq<(Seq<char>, nat)>
    decreases ps.len(),
{
    if ps.len() == 0 {
        Seq::empty()
    } else {
        let h = anti_histogram_spec(ps.drop_last());
        let p = ps.last();
        if p.pattern_type != PatternType::AntiPattern {
            h
        } else {
            match entry_of(h, p.issue_category@) {
                Some(j) => h.update(j, (h[j].0, h[j].1 + 1)),
                None => h.push((p.issue_category@, 1nat)),
            }
        }
    }
}

pub open spec fn histogram_view(v: Seq<(String, usize)>) -> Seq<(Seq<char>, nat)> {
    v.map_values(|e: (String, usize)| (e.0@, e.1 as nat))
}

proof fn lemma_entry_of(h: Seq<(Seq<char>, nat)>, c: Seq<char>, j: int)
    requires
        0 <= j < h.len(),
        h[j].0 == c,
        forall|i: int| 0 <= i < j ==> (#[trigger] h[i]).0 != c,
    ensures
        entry_of(h, c) == Some(j),
    decreases h.len(),
{
    if j < h.len() - 1 {
        let q = h.drop_last();
        assert forall|i: int| 0 <= i < j implies (#[trigger] q[i]).0 != c by {
            assert(q[i] == h[i]);
        }
        assert(q[j] == h[j]);
        lemma_entry_of(q, c, j);
    } else {
        lemma_entry_none(h.drop_last(), c);
    }
}

proof fn lemma_entry_none(h: Seq<(Seq<char>, nat)>, c: Seq<char>)
    requires
        forall|i: int| 0 <= i < h.len() ==> (#[trigger] h[i]).0 != c,
    ensures
        entry_of(h, c) is None,
    decreases h.len(),
{
    if h.len() > 0 {
        let q = h.drop_last();
        assert forall|i: int| 0 <= i < q.len() implies (#[trigger] q[i]).0 != c by {
            assert(q[i] == h[i]);
        }
        lemma_entry_none(q, c);
    }
}

proof fn lemma_histogram_bound(ps: Seq<Pattern>)
    ensures
        forall|i: int| 0 <= i < anti_histogram_spec(ps).len() ==> (#[trigger] anti_histogram_spec(ps)[i]).1 <= ps.len(),
        anti_histogram_spec(ps).len() <= ps.len(),
    decreases ps.len(),
{
    if ps.len() > 0 {
        lemma_histogram_bound(ps.drop_last());
        let h = anti_histogram_spec(ps.drop_last());
        let p = ps.last();
        if p.pattern_type == PatternType::AntiPattern {
            match entry_of(h, p.issue_category@) {
                Some(j) => {
                    lemma_entry_bounds(h, p.issue_category@);
                },
                None => {},
            }
        }
    }
}

proof fn lemma_entry_bounds(h: Seq<(Seq<char>, nat)>, c: Seq<char>)
    ensures
        entry_of(h, c) matches Some(j) ==> 0 <= j < h.len() && h[j].0 == c,
    decreases h.len(),
{
    if h.len() > 0 {
        lemma_entry_bounds(h.drop_last(), c);
    }
}

/// Counts the anti-patterns of each category.
fn anti_histogram(ps: &Vec<Pattern>) -> (r: Vec<(String, usize)>)
    ensures
        histogram_view(r@) == anti_histogram_spec(ps@),
{
    let mut out: Vec<(String, usize)> = Vec::new();
    let mut i: usize = 0;
    while i < ps.len()
        invariant
            i <= ps@.len(),
            histogram_view(out@) == anti_histogram_spec(ps@.subrange(0, i as int)),
        decreases ps.len() - i,
    {
        let ghost pre = ps@.subrange(0, i as int);
        proof {
            assert(ps@.subrange(0, i + 1).drop_last() =~= pre);
            assert(ps@.subrange(0, i + 1).last() == ps@[i as int]);
            lemma_histogram_bound(pre);
        }
        let p = &ps[i];
        if p.pattern_type == PatternType::AntiPattern {
            let ghost h = histogram_view(out@);
            let mut j: usize = 0;
            let mut hit = false;
            while j < out.len()
                invariant
                    j <= out@.len(),
                    h == histogram_view(out@),
                    !hit ==> forall|k: int| 0 <= k < j ==> (#[trigger] out@[k]).0@ != p.issue_category@,
                    hit ==> j < out@.len() && out@[j as int].0@ == p.issue_category@ && forall|k: int|
                        0 <= k < j ==> (#[trigger] out@[k]).0@ != p.issue_category@,
                ensures
                    !hit ==> forall|k: int| 0 <= k < out@.len() ==> (#[trigger] out@[k]).0@ != p.issue_category@,
                    hit ==> j < out@.len() && out@[j as int].0@ == p.issue_category@ && forall|k: int|
                        0 <= k < j ==> (#[trigger] out@[k]).0@ != p.issue_category@,
                decreases out.len() - j + (if hit { 0int } else { 1int }),
            {
                if eq_text(out[j].0.as_str(), p.issue_category.as_str()) {
                    hit = true;
                    break;
                }
                j += 1;
            }
            if hit {
                proof {
                    assert forall|k: int| 0 <= k < j implies (#[trigger] h[k]).0 != p.issue_category@ by {
                        assert(h[k].0 == out@[k].0@);
                    }
                    lemma_entry_of(h, p.issue_category@, j as int);
                    assert(h[j as int].1 <= i);
                }
                let (name, n) = out.remove(j);
                out.insert(j, (name, n + 1));
                proof {
                    assert(histogram_view(out@) =~= h.update(j as int, (h[j as int].0, h[j as int].1 + 1)));
                }
            } else {
                proof {
                    assert forall|k: int| 0 <= k < h.len() implies (#[trigger] h[k]).0 != p.issue_category@ by {
                        assert(h[k].0 == out@[k].0@);
                    }
                    lemma_entry_none(h, p.issue_category@);
                }
                out.push((p.issue_category.clone(), 1));
                proof {
                    assert(histogram_view(out@) =~= h.push((p.issue_category@, 1nat)));
                }
            }
        }
        i += 1;
    }
    assert(ps@.subrange(0, ps@.len() as int) =~= ps@);
    out
}

/// A language's counts as plain values: name, patterns, good patterns,
/// confidence sum.
pub open spec fn language_view(v: Seq<LanguageStats>) -> Seq<(Seq<char>, nat, nat, u64)> {
    v.map_values(|l: LanguageStats| (l.language@, l.total_patterns as nat, l.good_patterns as nat, l.confidence_sum))
}

/// First index of the entry for language `c`, if any.
pub open spec fn language_entry(h: Seq<(Seq<char>, nat, nat, u64)>, c: Seq<char>) -> Option<int>
    decreases h.len(),
{
    if h.len() == 0 {
        None
    } else {
        match language_entry(h.drop_last(), c) {
            Some(j) => Some(j),
            None => if h.last().0 == c {
                Some(h.len() - 1)
            } else {
                None
            },
        }
    }
}

/// Per-language counts, languages in order of first appearance.
pub open spec fn language_spec(ps: Seq<Pattern>) -> Seq<(Seq<char>, nat, nat, u64)>
    decreases ps.len(),
{
    if ps.len() == 0 {
        Seq::empty()
    } else {
        let h = language_spec(ps.drop_last());
        let p = ps.last();
        let good: nat = if p.pattern_type == PatternType::GoodPattern {
            1
        } else {
            0
        };
        match language_entry(h, p.language@) {
            Some(j) => h.update(j, (h[j].0, h[j].1 + 1, h[j].2 + good, sat_sum(h[j].3, p.confidence))),
            None => h.push((p.language@, 1nat, good, p.confidence)),
        }
    }
}

proof fn lemma_language_entry(h: Seq<(Seq<char>, nat, nat, u64)>, c: Seq<char>, j: int)
    requires
        0 <= j < h.len(),
        h[j].0 == c,
        forall|i: int| 0 <= i < j ==> (#[trigger] h[i]).0 != c,
    ensures
        language_entry(h, c) == Some(j),
    decreases h.len(),
{
    if j < h.len() - 1 {
        let q = h.drop_last();
        assert forall|i: int| 0 <= i < j implies (#[trigger] q[i]).0 != c by {
            assert(q[i] == h[i]);
        }
        assert(q[j] == h[j]);
        lemma_language_entry(q, c, j);
    } else {
        lemma_language_none(h.drop_last(), c);
    }
}

proof fn lemma_language_none(h: Seq<(Seq<char>, nat, nat, u64)>, c: Seq<char>)
    requires
        forall|i: int| 0 <= i < h.len() ==> (#[trigger] h[i]).0 != c,
    ensures
        language_entry(h, c) is None,
    decreases h.len(),
{
    if h.len() > 0 {
        let q = h.drop_last();
        assert forall|i: int| 0 <= i < q.len() implies (#[trigger] q[i]).0 != c by {
            assert(q[i] == h[i]);
        }
        lemma_language_none(q, c);
    }
}

proof fn lemma_language_entry_bounds(h: Seq<(Seq<char>, nat, nat, u64)>, c: Seq<char>)
    ensures
        language_entry(h, c) matches Some(j) ==> 0 <= j < h.len() && h[j].0 == c,
    decreases h.len(),
{
    if h.len() > 0 {
        lemma_language_entry_bounds(h.drop_last(), c);
    }
}

proof fn lemma_language_bound(ps: Seq<Pattern>)
    ensures
        forall|i: int| 0 <= i < language_spec(ps).len() ==> (#[trigger] language_spec(ps)[i]).1 <= ps.len()
            && language_spec(ps)[i].2 <= ps.len(),
    decreases ps.len(),
{
    if ps.len() > 0 {
        lemma_language_bound(ps.drop_last());
        lemma_language_entry_bounds(language_spec(ps.drop_last()), ps.last().language@);
    }
}

/// Counts the patterns of each language.
fn language_table(ps: &Vec<Pattern>) -> (r: Vec<LanguageStats>)
    ensures
        language_view(r@) == language_spec(ps@),
{
    let mut out: Vec<LanguageStats> = Vec::new();
    let mut i: usize = 0;
    while i < ps.len()
        invariant
            i <= ps@.len(),
            language_view(out@) == language_spec(ps@.subrange(0, i as int)),
        decreases ps.len() - i,
    {
        let ghost pre = ps@.subrange(0, i as int);
        proof {
            assert(ps@.subrange(0, i + 1).drop_last() =~= pre);
            assert(ps@.subrange(0, i + 1).last() == ps@[i as int]);
            lemma_language_bound(pre);
        }
        let p = &ps[i];
        let good: usize = if p.pattern_type == PatternType::GoodPattern {
            1
        } else {
            0
        };
        let ghost h = language_view(out@);
        let mut j: usize = 0;
        let mut hit = false;
        while j < out.len()
            invariant
                j <= out@.len(),
                h == language_view(out@),
                !hit ==> forall|k: int| 0 <= k < j ==> (#[trigger] out@[k]).language@ != p.language@,
                hit ==> j < out@.len() && out@[j as int].language@ == p.language@ && forall|k: int|
                    0 <= k < j ==> (#[trigger] out@[k]).language@ != p.language@,
            ensures
                !hit ==> forall|k: int| 0 <= k < out@.len() ==> (#[trigger] out@[k]).language@ != p.language@,
                hit ==> j < out@.len() && out@[j as int].language@ == p.language@ && forall|k: int|
                    0 <= k < j ==> (#[trigger] out@[k]).language@ != p.language@,
            decreases out.len() - j + (if hit { 0int } else { 1int }),
        {
            if eq_text(out[j].language.as_str(), p.language.as_str()) {
                hit = true;
                break;
            }
            j += 1;
        }
        if hit {
            proof {
                assert forall|k: int| 0 <= k < j implies (#[trigger] h[k]).0 != p.language@ by {
                    assert(h[k].0 == out@[k].language@);
                }
                lemma_language_entry(h, p.language@, j as int);
                assert(h[j as int].1 <= i);
                assert(h[j as int].2 <= i);
            }
            let mut s = out.remove(j);
            s.total_patterns = s.total_patterns + 1;
            s.good_patterns = s.good_patterns + good;
            s.confidence_sum = if s.confidence_sum <= u64::MAX - p.confidence {
                s.confidence_sum + p.confidence
            } else {
                u64::MAX
            };
            out.insert(j, s);
            proof {
                assert(language_view(out@) =~= h.update(
                    j as int,
                    (h[j as int].0, h[j as int].1 + 1, h[j as int].2 + good as nat, sat_sum(h[j as int].3, p.confidence)),
                ));
            }
        } else {
            proof {
                assert forall|k: int| 0 <= k < h.len() implies (#[trigger] h[k]).0 != p.language@ by {
                    assert(h[k].0 == out@[k].language@);
                }
                lemma_language_none(h, p.language@);
            }
            out.push(
                LanguageStats {
                    language: p.language.clone(),
                    total_patterns: 1,
                    good_patterns: good,
                    confidence_sum: p.confidence,
                },
            );
            proof {
                assert(language_view(out@) =~= h.push((p.language@, 1nat, good as nat, p.confidence)));
            }
        }
        i += 1;
    }
    assert(ps@.subrange(0, ps@.len() as int) =~= ps@);
    out
}

/// Keeps the first match of each pattern id.
fn distinct_ids(cands: Vec<PatternMatch>, Ghost(ps): Ghost<Seq<Pattern>>, Ghost(sig): Ghost<Seq<char>>) -> (r: Vec<PatternMatch>)
    requires
        forall|k: int| 0 <= k < cands@.len() ==> match_ok(#[trigger] cands@[k], ps, sig),
    ensures
        forall|k: int| 0 <= k < r@.len() ==> match_ok(#[trigger] r@[k], ps, sig),
        distinct_matches(r@),
        cands@.len() > 0 ==> r@.len() > 0,
{
    let ghost n0 = cands@.len();
    let mut rest = cands;
    let mut out: Vec<PatternMatch> = Vec::new();
    while rest.len() > 0
        invariant
            forall|k: int| 0 <= k < rest@.len() ==> match_ok(#[trigger] rest@[k], ps, sig),
            forall|k: int| 0 <= k < out@.len() ==> match_ok(#[trigger] out@[k], ps, sig),
            forall|a: int, b: int| 0 <= a < b < out@.len() ==> (#[trigger] out@[a]).pattern.id != (#[trigger] out@[b]).pattern.id,
            n0 > 0 ==> out@.len() > 0 || rest@.len() == n0,
        decreases rest@.len(),
    {
        let ghost before_rest = rest@;
        let m = rest.remove(0);
        proof {
            assert forall|k: int| 0 <= k < rest@.len() implies match_ok(#[trigger] rest@[k], ps, sig) by {
                assert(rest@[k] == before_rest[k + 1]);
            }
        }
        let mut seen = false;
        let mut i: usize = 0;
        while i < out.len()
            invariant
                i <= out@.len(),
                !seen ==> forall|a: int| 0 <= a < i ==> (#[trigger] out@[a]).pattern.id != m.pattern.id,
                out@.len() == 0 ==> !seen,
            decreases out.len() - i,
        {
            if out[i].pattern.id == m.pattern.id {
                seen = true;
            }
            i += 1;
        }
        if !seen {
            out.push(m);
        }
    }
    out
}

/// Whether the lowercase of `text` holds `kw`.
fn mentions(text: &String, kw: &Vec<char>) -> (r: bool)
    ensures
        r == crate::text::has_sub(lower_of(text@), kw@),
{
    let l = to_lower(text.as_str());
    let v = chars_of(l.as_str());
    crate::text::contains(&v, kw)
}

/// Consolidate runs after every `interval` evaluations (never for 0).
pub fn consolidation_due(evaluations: usize, interval: usize) -> (r: bool)
    ensures
        r == (interval > 0 && evaluations % interval == 0),
{
    interval > 0 && evaluations % interval == 0
}

/// Confidence in thousandths from two counts.
pub fn ratio_of(s: u64, f: u64) -> (r: u64)
    ensures
        r == ratio(s, f),
{
    let t: u128 = s as u128 + f as u128;
    if t == 0 {
        500
    } else {
        assert((1000 * s) / (s + f) <= 1000) by (nonlinear_arith)
            requires
                s + f > 0,
        ;
        ((1000 * s as u128) / t) as u64
    }
}

} // verus!
