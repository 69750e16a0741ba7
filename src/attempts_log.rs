//! A round log kept from running totals: each round's score is told by the
//! game's total score after it, which restarts when a new game begins.
use vstd::prelude::*;
use std::time::Instant;
use crate::ledger::PERFECT_SCORE;
use crate::timer::{clock_now, whole_secs_since};

verus! {

/// One round: when it ended, counted from the log's start, and its score.
#[derive(Debug, Clone, Copy, PartialEq, Eq, Structural)]
pub struct Round {
    pub time_seconds: u64,
    pub score: u16,
    pub success: bool,
}

/// What became of a round offered to the log.
#[derive(Debug, Clone, Copy, PartialEq, Eq, Structural)]
pub enum RoundResult {
    /// Recorded with this score.
    Added { score: u16 },
    /// Not recorded: the score does not follow from the totals.
    Inconsistent,
}

/// The score of a round after which the running total reads `total`, when
/// it read `prev_total` before: the rise, or, when the total fell, the total
/// itself as the first round of a new game. Either way it must be a possible
/// score.
pub open spec fn score_from_totals(prev_total: u16, total: u16) -> Option<u16> {
    if total >= prev_total {
        if total - prev_total <= PERFECT_SCORE {
            Some((total - prev_total) as u16)
        } else {
            None
        }
    } else if total <= PERFECT_SCORE {
        Some(total)
    } else {
        None
    }
}

/// The number of rounds of `rounds` marked as successes.
pub open spec fn round_successes(rounds: Seq<Round>) -> nat
    decreases rounds.len(),
{
    if rounds.len() == 0 {
        0
    } else {
        round_successes(rounds.drop_last()) + if rounds.last().success {
            1nat
        } else {
            0nat
        }
    }
}

/// The sum of the scores of `rounds`.
pub open spec fn round_score_total(rounds: Seq<Round>) -> nat
    decreases rounds.len(),
{
    if rounds.len() == 0 {
        0
    } else {
        round_score_total(rounds.drop_last()) + rounds.last().score as nat
    }
}

proof fn lemma_round_successes_bound(rounds: Seq<Round>)
    ensures
        round_successes(rounds) <= rounds.len(),
    decreases rounds.len(),
{
    if rounds.len() > 0 {
        lemma_round_successes_bound(rounds.drop_last());
    }
}

/// Totals over a round log.
#[derive(Debug, Clone, Copy, PartialEq, Eq, Structural)]
pub struct RoundStats {
    pub success_count: usize,
    pub miss_count: usize,
    pub total_score: u128,
    /// When the newest round ended; `None` for an empty log.
    pub last_time: Option<u64>,
}

/// Rounds scored from running totals, with the total seen last.
pub struct AttemptsLog {
    start_time: Instant,
    total_score: u16,
    log_entries: Vec<Round>,
}

impl AttemptsLog {
    pub closed spec fn rounds(&self) -> Seq<Round> {
        self.log_entries@
    }

    pub closed spec fn last_total(&self) -> u16 {
        self.total_score
    }

    /// An empty log, with its clock starting now and a running total of zero.
    pub fn new() -> (r: Self)
        ensures
            r.rounds() == Seq::<Round>::empty(),
            r.last_total() == 0,
    {
        AttemptsLog { log_entries: Vec::new(), total_score: 0, start_time: clock_now() }
    }

    pub fn total_score(&self) -> (r: u16)
        ensures
            r == self.last_total(),
    {
        self.total_score
    }

    pub fn len(&self) -> (r: usize)
        ensures
            r == self.rounds().len(),
    {
        self.log_entries.len()
    }

    /// The round at `index`, oldest first.
    pub fn get(&self, index: usize) -> (r: Option<Round>)
        ensures
            index < self.rounds().len() ==> r == Some(self.rounds()[index as int]),
            index >= self.rounds().len() ==> r is None,
    {
        if index < self.log_entries.len() {
            Some(self.log_entries[index])
        } else {
            None
        }
    }

    /// Appends a round of `score` timed now, restarting the clock first when
    /// the log is empty, and takes `total` as the running total.
    fn push_round(&mut self, score: u16, total: u16)
        ensures
            final(self).rounds().len() == old(self).rounds().len() + 1,
            final(self).rounds().drop_last() == old(self).rounds(),
            final(self).rounds().last().score == score,
            final(self).rounds().last().success == (score == PERFECT_SCORE),
            final(self).last_total() == total,
    {
        if self.log_entries.len() == 0 {
            self.start_time = clock_now();
        }
        let time_seconds = whole_secs_since(&self.start_time);
        self.log_entries.push(Round { time_seconds, score, success: score == PERFECT_SCORE });
        self.total_score = total;
        assert(self.log_entries@.drop_last() =~= old(self).log_entries@);
    }

    /// Records a round whose score is given together with the running total
    /// after it. The score must be the total's rise, or, when the total fell,
    /// the total itself, and a possible score; otherwise nothing changes.
    pub fn add_entry_direct(&mut self, score: u16, total_score: u16) -> (r: RoundResult)
        ensures
            score_from_totals(old(self).last_total(), total_score) == Some(score) ==> {
                &&& r == (RoundResult::Added { score })
                &&& final(self).rounds().len() == old(self).rounds().len() + 1
                &&& final(self).rounds().drop_last() == old(self).rounds()
                &&& final(self).rounds().last().score == score
                &&& final(self).rounds().last().success == (score == PERFECT_SCORE)
                &&& final(self).last_total() == total_score
            },
            score_from_totals(old(self).last_total(), total_score) != Some(score) ==> {
                &&& r == RoundResult::Inconsistent
                &&& final(self).rounds() == old(self).rounds()
                &&& final(self).last_total() == old(self).last_total()
            },
    {
        let prev_total_score = self.total_score;
        if total_score >= prev_total_score {
            if score != total_score - prev_total_score || score > PERFECT_SCORE {
                return RoundResult::Inconsistent;
            }
        } else {
            if !(score == total_score && score <= PERFECT_SCORE) {
                return RoundResult::Inconsistent;
            }
        }
        self.push_round(score, total_score);
        RoundResult::Added { score }
    }

    /// Records a round from the running total after it alone, its score
    /// being what the totals give. When that is not a possible score nothing
    /// changes.
    pub fn add_entry_calculated(&mut self, total_score: u16) -> (r: RoundResult)
        ensures
            score_from_totals(old(self).last_total(), total_score) matches Some(score) ==> {
                &&& r == (RoundResult::Added { score })
                &&& final(self).rounds().len() == old(self).rounds().len() + 1
                &&& final(self).rounds().drop_last() == old(self).rounds()
                &&& final(self).rounds().last().score == score
                &&& final(self).rounds().last().success == (score == PERFECT_SCORE)
                &&& final(self).last_total() == total_score
            },
            score_from_totals(old(self).last_total(), total_score) is None ==> {
                &&& r == RoundResult::Inconsistent
                &&& final(self).rounds() == old(self).rounds()
                &&& final(self).last_total() == old(self).last_total()
            },
    {
        let prev_total_score = self.total_score;
        let score = if total_score >= prev_total_score {
            let rise = total_score - prev_total_score;
            if rise > PERFECT_SCORE {
                return RoundResult::Inconsistent;
            }
            rise
        } else if total_score <= PERFECT_SCORE {
            total_score
        } else {
            return RoundResult::Inconsistent;
        };
        self.push_round(score, total_score);
        RoundResult::Added { score }
    }

    /// Successes, misses, the sum of the scores and the time of the newest
    /// round.
    pub fn stats(&self) -> (r: RoundStats)
        ensures
            r.success_count == round_successes(self.rounds()),
            r.success_count + r.miss_count == self.rounds().len(),
            r.total_score == round_score_total(self.rounds()),
            self.rounds().len() == 0 ==> r.last_time is None,
            self.rounds().len() > 0 ==> r.last_time == Some(self.rounds().last().time_seconds),
    {
        let n = self.log_entries.len();
        let mut successes: usize = 0;
        let mut total: u128 = 0;
        let mut i: usize = 0;
        while i < n
            invariant
                n == self.rounds().len(),
                i <= n,
                successes == round_successes(self.rounds().subrange(0, i as int)),
                total == round_score_total(self.rounds().subrange(0, i as int)),
                total <= i * 65535,
            decreases n - i,
        {
            let round = self.log_entries[i];
            proof {
                assert(self.rounds().subrange(0, i as int + 1).drop_last() =~= self.rounds().subrange(
                    0,
                    i as int,
                ));
                lemma_round_successes_bound(self.rounds().subrange(0, i as int + 1));
                assert(i * 65535 + 65535 <= 0x1_0000_0000_0000_0000 * 65535) by (nonlinear_arith)
                    requires i < 0x1_0000_0000_0000_0000int;
            }
            if round.success {
                successes = successes + 1;
            }
            total = total + round.score as u128;
            i = i + 1;
        }
        assert(self.rounds().subrange(0, n as int) =~= self.rounds());
        proof {
            lemma_round_successes_bound(self.rounds());
        }
        let last_time = if n == 0 { None } else { Some(self.log_entries[n - 1].time_seconds) };
        RoundStats { success_count: successes, miss_count: n - successes, total_score: total, last_time }
    }

    /// Gives the most recent round the score `score`; fails on an empty log.
    pub fn fix_prev_entry(&mut self, score: u16) -> (r: Result<(), ()>)
        ensures
            final(self).last_total() == old(self).last_total(),
            old(self).rounds().len() == 0 ==> r is Err && final(self).rounds() == old(self).rounds(),
            old(self).rounds().len() > 0 ==> r is Ok && final(self).rounds() == old(self).rounds().update(
                old(self).rounds().len() - 1,
                Round {
                    time_seconds: old(self).rounds().last().time_seconds,
                    score,
                    success: score == PERFECT_SCORE,
                },
            ),
    {
        let n = self.log_entries.len();
        if n == 0 {
            return Err(());
        }
        let last = self.log_entries[n - 1];
        self.log_entries.set(
            n - 1,
            Round { time_seconds: last.time_seconds, score, success: score == PERFECT_SCORE },
        );
        Ok(())
    }
}

} // verus!
