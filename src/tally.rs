//! Counting votes and summing scores.
use vstd::prelude::*;
use crate::types::{ModelVote, Vote};

verus! {

/// How many of `vs` carry the vote `v`.
pub open spec fn count_vote(vs: Seq<ModelVote>, v: Vote) -> nat
    decreases vs.len(),
{
    if vs.len() == 0 {
        0
    } else {
        count_vote(vs.drop_last(), v) + if vs.last().vote == v {
            1nat
        } else {
            0nat
        }
    }
}

/// Sum of the scores of `vs`.
pub open spec fn score_sum(vs: Seq<ModelVote>) -> nat
    decreases vs.len(),
{
    if vs.len() == 0 {
        0
    } else {
        score_sum(vs.drop_last()) + vs.last().score as nat
    }
}

/// Sum of the scores of the votes of `vs` that are `v`.
pub open spec fn score_sum_of(vs: Seq<ModelVote>, v: Vote) -> nat
    decreases vs.len(),
{
    if vs.len() == 0 {
        0
    } else {
        score_sum_of(vs.drop_last(), v) + if vs.last().vote == v {
            vs.last().score as nat
        } else {
            0nat
        }
    }
}

/// Integer-floor mean of the scores of `vs`; 0 when there are none.
pub open spec fn mean_score(vs: Seq<ModelVote>) -> nat {
    if vs.len() == 0 {
        0
    } else {
        score_sum(vs) / vs.len()
    }
}

/// Integer-floor mean of the scores of the votes that are `v`; 0 when there are none.
pub open spec fn mean_score_of(vs: Seq<ModelVote>, v: Vote) -> nat {
    if count_vote(vs, v) == 0 {
        0
    } else {
        score_sum_of(vs, v) / count_vote(vs, v)
    }
}

/// The lowest score of `vs`; 0 when there are none.
pub open spec fn lowest_score(vs: Seq<ModelVote>) -> nat
    decreases vs.len(),
{
    if vs.len() == 0 {
        0
    } else if vs.len() == 1 {
        vs[0].score as nat
    } else {
        let m = lowest_score(vs.drop_last());
        if (vs.last().score as nat) < m {
            vs.last().score as nat
        } else {
            m
        }
    }
}

pub proof fn lemma_count_le_len(vs: Seq<ModelVote>, v: Vote)
    ensures
        count_vote(vs, v) <= vs.len(),
    decreases vs.len(),
{
    if vs.len() > 0 {
        lemma_count_le_len(vs.drop_last(), v);
    }
}

/// The three counts add up to the number of votes.
pub proof fn lemma_counts_total(vs: Seq<ModelVote>)
    ensures
        count_vote(vs, Vote::Pass) + count_vote(vs, Vote::Warn) + count_vote(vs, Vote::Fail)
            == vs.len(),
    decreases vs.len(),
{
    if vs.len() > 0 {
        lemma_counts_total(vs.drop_last());
    }
}

pub proof fn lemma_sum_bound(vs: Seq<ModelVote>)
    ensures
        score_sum(vs) <= 255 * vs.len(),
    decreases vs.len(),
{
    if vs.len() > 0 {
        lemma_sum_bound(vs.drop_last());
    }
}

pub proof fn lemma_sum_of_bound(vs: Seq<ModelVote>, v: Vote)
    ensures
        score_sum_of(vs, v) <= 255 * count_vote(vs, v),
    decreases vs.len(),
{
    if vs.len() > 0 {
        lemma_sum_of_bound(vs.drop_last(), v);
    }
}

pub proof fn lemma_mean_bound(vs: Seq<ModelVote>)
    ensures
        mean_score(vs) <= 255,
{
    lemma_sum_bound(vs);
    if vs.len() > 0 {
        let s = score_sum(vs);
        let n = vs.len();
        assert(s / n <= 255) by (nonlinear_arith)
            requires
                s <= 255 * n,
                n > 0,
        ;
    }
}

pub proof fn lemma_mean_of_bound(vs: Seq<ModelVote>, v: Vote)
    ensures
        mean_score_of(vs, v) <= 255,
{
    lemma_sum_of_bound(vs, v);
    let n = count_vote(vs, v);
    if n > 0 {
        let s = score_sum_of(vs, v);
        assert(s / n <= 255) by (nonlinear_arith)
            requires
                s <= 255 * n,
                n > 0,
        ;
    }
}

pub proof fn lemma_lowest_bound(vs: Seq<ModelVote>)
    ensures
        lowest_score(vs) <= 255,
        vs.len() > 0 ==> exists|i: int| 0 <= i < vs.len() && vs[i].score as nat == lowest_score(vs),
        forall|i: int| 0 <= i < vs.len() ==> lowest_score(vs) <= vs[i].score as nat,
    decreases vs.len(),
{
    if vs.len() > 1 {
        let p = vs.drop_last();
        lemma_lowest_bound(p);
        assert forall|i: int| 0 <= i < vs.len() implies lowest_score(vs) <= vs[i].score as nat by {
            if i < p.len() {
                assert(p[i] == vs[i]);
            }
        }
        if (vs.last().score as nat) >= lowest_score(p) {
            let j = choose|j: int| 0 <= j < p.len() && p[j].score as nat == lowest_score(p);
            assert(vs[j] == p[j]);
        }
    }
}

/// Tallies of a vote list: counts of each vote, and score sums.
pub struct Tally {
    pub pass: usize,
    pub warn: usize,
    pub fail: usize,
    pub sum: u128,
    pub pass_sum: u128,
}

/// Counts and sums over `votes` in one pass.
pub fn tally(votes: &Vec<ModelVote>) -> (t: Tally)
    ensures
        t.pass as nat == count_vote(votes@, Vote::Pass),
        t.warn as nat == count_vote(votes@, Vote::Warn),
        t.fail as nat == count_vote(votes@, Vote::Fail),
        t.sum as nat == score_sum(votes@),
        t.pass_sum as nat == score_sum_of(votes@, Vote::Pass),
{
    let mut t = Tally { pass: 0, warn: 0, fail: 0, sum: 0, pass_sum: 0 };
    let mut i: usize = 0;
    while i < votes.len()
        invariant
            i <= votes@.len(),
            t.pass as nat == count_vote(votes@.subrange(0, i as int), Vote::Pass),
            t.warn as nat == count_vote(votes@.subrange(0, i as int), Vote::Warn),
            t.fail as nat == count_vote(votes@.subrange(0, i as int), Vote::Fail),
            t.sum as nat == score_sum(votes@.subrange(0, i as int)),
            t.pass_sum as nat == score_sum_of(votes@.subrange(0, i as int), Vote::Pass),
        decreases votes.len() - i,
    {
        let ghost prefix = votes@.subrange(0, i as int);
        let ghost next = votes@.subrange(0, i + 1);
        proof {
            assert(next.drop_last() =~= prefix);
            lemma_counts_total(prefix);
            lemma_sum_bound(prefix);
            lemma_sum_of_bound(prefix, Vote::Pass);
            lemma_count_le_len(prefix, Vote::Pass);
        }
        let v = &votes[i];
        match v.vote {
            Vote::Pass => {
                t.pass = t.pass + 1;
                t.pass_sum = t.pass_sum + v.score as u128;
            },
            Vote::Warn => {
                t.warn = t.warn + 1;
            },
            Vote::Fail => {
                t.fail = t.fail + 1;
            },
        }
        t.sum = t.sum + v.score as u128;
        i += 1;
    }
    assert(votes@.subrange(0, votes@.len() as int) =~= votes@);
    t
}

/// Integer-floor mean of the scores; 0 for no votes.
pub fn mean_of(votes: &Vec<ModelVote>) -> (m: u8)
    ensures
        m as nat == mean_score(votes@),
{
    let t = tally(votes);
    proof {
        lemma_mean_bound(votes@);
    }
    if votes.len() == 0 {
        0
    } else {
        (t.sum / votes.len() as u128) as u8
    }
}

/// Integer-floor mean of the scores of the votes that are `v`.
pub fn mean_of_pass(votes: &Vec<ModelVote>) -> (m: u8)
    ensures
        m as nat == mean_score_of(votes@, Vote::Pass),
{
    let t = tally(votes);
    proof {
        lemma_mean_of_bound(votes@, Vote::Pass);
    }
    if t.pass == 0 {
        0
    } else {
        (t.pass_sum / t.pass as u128) as u8
    }
}

/// The lowest score among the votes; 0 for no votes.
pub fn lowest_of(votes: &Vec<ModelVote>) -> (m: u8)
    ensures
        m as nat == lowest_score(votes@),
{
    if votes.len() == 0 {
        return 0;
    }
    let mut m = votes[0].score;
    let mut i: usize = 1;
    assert(votes@.subrange(0, 1).drop_last().len() == 0);
    while i < votes.len()
        invariant
            1 <= i <= votes@.len(),
            m as nat == lowest_score(votes@.subrange(0, i as int)),
        decreases votes.len() - i,
    {
        proof {
            assert(votes@.subrange(0, i + 1).drop_last() =~= votes@.subrange(0, i as int));
        }
        if votes[i].score < m {
            m = votes[i].score;
        }
        i += 1;
    }
    assert(votes@.subrange(0, votes@.len() as int) =~= votes@);
    m
}

} // verus!
