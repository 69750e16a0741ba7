//! The append-only ledger of recorded attempts and its cached success count.
use vstd::prelude::*;

verus! {

/// The highest score a round can have; a round with it is a success.
pub const PERFECT_SCORE: u16 = 5000;

/// One recorded round: its score and the session time at which it was
/// recorded.
#[derive(Debug, Clone, Copy, PartialEq, Eq, Structural)]
pub struct Attempt {
    pub score: u16,
    pub time_seconds: u32,
}

/// The raw data of a ledger as it is stored: scores and times as two
/// parallel sequences.
pub struct LogEntries {
    pub scores: Vec<u16>,
    pub times: Vec<u32>,
}

/// `fix_prev_entry` was asked to change an entry of an empty ledger.
#[derive(Debug, Clone, Copy, PartialEq, Eq, Structural)]
pub struct EmptyLedger;

/// Whether `a` is a success.
pub open spec fn is_success(a: Attempt) -> bool {
    a.score == PERFECT_SCORE
}

/// The number of successes in `entries`.
pub open spec fn success_total(entries: Seq<Attempt>) -> nat
    decreases entries.len(),
{
    if entries.len() == 0 {
        0
    } else {
        success_total(entries.drop_last()) + if is_success(entries.last()) {
            1nat
        } else {
            0nat
        }
    }
}

/// The attempts that two parallel sequences of scores and times spell.
pub open spec fn attempts_of(scores: Seq<u16>, times: Seq<u32>) -> Seq<Attempt> {
    Seq::new(scores.len(), |i: int| Attempt { score: scores[i], time_seconds: times[i] })
}

/// The most recent success in `entries`: the last one recorded wins among
/// those that share a time.
pub open spec fn last_success(entries: Seq<Attempt>) -> Option<Attempt>
    decreases entries.len(),
{
    if entries.len() == 0 {
        None
    } else if is_success(entries.last()) {
        Some(entries.last())
    } else {
        last_success(entries.drop_last())
    }
}

/// The raw data of a record was not a ledger: its two sequences differ in
/// length.
#[derive(Debug, Clone, Copy, PartialEq, Eq, Structural)]
pub struct MismatchedLengths;

/// The scores of `entries`, in order.
pub open spec fn scores_of(entries: Seq<Attempt>) -> Seq<u16> {
    entries.map_values(|a: Attempt| a.score)
}

/// The times of `entries`, in order.
pub open spec fn times_of(entries: Seq<Attempt>) -> Seq<u32> {
    entries.map_values(|a: Attempt| a.time_seconds)
}

/// The cached count after recording `entry`: one more when it is a success.
pub open spec fn count_after(count: nat, entry: Attempt) -> nat {
    count + if is_success(entry) {
        1nat
    } else {
        0nat
    }
}

/// The cached count after recording each of `added` in turn.
pub open spec fn count_after_all(count: nat, added: Seq<Attempt>) -> nat
    decreases added.len(),
{
    if added.len() == 0 {
        count
    } else {
        count_after(count_after_all(count, added.drop_last()), added.last())
    }
}

/// Splitting a ledger into its stored scores and times and reading them back
/// gives the same attempts in the same order, from two sequences of equal
/// length.
pub proof fn lemma_record_round_trip(entries: Seq<Attempt>)
    ensures
        scores_of(entries).len() == times_of(entries).len(),
        attempts_of(scores_of(entries), times_of(entries)) == entries,
{
    assert(attempts_of(scores_of(entries), times_of(entries)) =~= entries);
}

/// Recording entries one by one keeps the cached count equal to a fresh
/// count: a ledger whose count is right stays right whatever is appended.
pub proof fn lemma_adds_keep_count(entries: Seq<Attempt>, count: nat, added: Seq<Attempt>)
    requires
        count == success_total(entries),
    ensures
        count_after_all(count, added) == success_total(entries + added),
    decreases added.len(),
{
    if added.len() == 0 {
        assert(entries + added =~= entries);
    } else {
        lemma_adds_keep_count(entries, count, added.drop_last());
        assert((entries + added).drop_last() =~= entries + added.drop_last());
    }
}

/// Rescoring the last entry keeps a right count right when it neither makes
/// nor unmakes a success.
pub proof fn lemma_fix_keeps_count(entries: Seq<Attempt>, count: nat, score: u16)
    requires
        count == success_total(entries),
        entries.len() > 0,
        (entries.last().score == PERFECT_SCORE) == (score == PERFECT_SCORE),
    ensures
        count == success_total(
            entries.update(
                entries.len() - 1,
                Attempt { score, time_seconds: entries.last().time_seconds },
            ),
        ),
{
    let fixed = entries.update(
        entries.len() - 1,
        Attempt { score, time_seconds: entries.last().time_seconds },
    );
    assert(fixed.drop_last() =~= entries.drop_last());
}

/// `n` successes recorded at time `t`.
pub open spec fn headstart_entries(n: nat, t: u32) -> Seq<Attempt> {
    Seq::new(n, |i: int| Attempt { score: PERFECT_SCORE, time_seconds: t })
}

/// Every entry that a headstart adds is a success.
pub proof fn lemma_headstart_successes(n: nat, t: u32)
    ensures
        success_total(headstart_entries(n, t)) == n,
    decreases n,
{
    if n > 0 {
        assert(headstart_entries(n, t).drop_last() =~= headstart_entries((n - 1) as nat, t));
        lemma_headstart_successes((n - 1) as nat, t);
    }
}

/// The sum of the scores of `entries`.
pub open spec fn score_total(entries: Seq<Attempt>) -> nat
    decreases entries.len(),
{
    if entries.len() == 0 {
        0
    } else {
        score_total(entries.drop_last()) + entries.last().score as nat
    }
}

/// Totals over a whole ledger.
#[derive(Debug, Clone, Copy, PartialEq, Eq, Structural)]
pub struct LedgerSummary {
    /// Entries that are successes, counted afresh.
    pub success_count: usize,
    /// Entries that are not.
    pub miss_count: usize,
    /// The sum of all scores.
    pub total_score: u128,
    /// The time of the most recent entry, or zero for an empty ledger.
    pub last_time: u32,
}

/// The successes of a concatenation are those of its parts.
pub proof fn lemma_success_total_append(a: Seq<Attempt>, b: Seq<Attempt>)
    ensures
        success_total(a + b) == success_total(a) + success_total(b),
    decreases b.len(),
{
    if b.len() == 0 {
        assert(a + b =~= a);
    } else {
        assert((a + b).drop_last() =~= a + b.drop_last());
        lemma_success_total_append(a, b.drop_last());
    }
}

/// A sequence holds no more successes than entries.
pub proof fn lemma_success_total_bound(a: Seq<Attempt>)
    ensures
        success_total(a) <= a.len(),
    decreases a.len(),
{
    if a.len() > 0 {
        lemma_success_total_bound(a.drop_last());
    }
}

/// The successes among the first `i + 1` entries are those among the first
/// `i`, and one more when entry `i` is a success.
pub proof fn lemma_success_total_step(a: Seq<Attempt>, i: int)
    requires
        0 <= i < a.len(),
    ensures
        success_total(a.subrange(0, i + 1)) == success_total(a.subrange(0, i)) + if is_success(
            a[i],
        ) {
            1nat
        } else {
            0nat
        },
{
    assert(a.subrange(0, i + 1).drop_last() =~= a.subrange(0, i));
}

/// Ordered attempts with a cached count of successes. Entries are only
/// appended, or the last one rescored, or replaced wholesale by a load; the
/// cache is kept by appends alone, checked against `add_up_5ks` and set from
/// it only by `resync`.
pub struct EntryLedger {
    scores: Vec<u16>,
    times: Vec<u32>,
    total_5ks: usize,
}

impl EntryLedger {
    /// The two sequences are parallel.
    pub closed spec fn wf(&self) -> bool {
        self.scores@.len() == self.times@.len()
    }

    /// The recorded attempts, oldest first.
    pub closed spec fn attempts(&self) -> Seq<Attempt> {
        attempts_of(self.scores@, self.times@)
    }

    /// The cached number of successes.
    pub closed spec fn success_count(&self) -> nat {
        self.total_5ks as nat
    }

    /// Whether the cached count equals the number of successes recorded.
    pub open spec fn in_sync(&self) -> bool {
        self.success_count() == success_total(self.attempts())
    }

    /// An empty ledger.
    pub fn new() -> (r: Self)
        ensures
            r.wf(),
            r.attempts() == Seq::<Attempt>::empty(),
            r.success_count() == 0,
    {
        let r = EntryLedger { scores: Vec::new(), times: Vec::new(), total_5ks: 0 };
        assert(r.attempts() =~= Seq::<Attempt>::empty());
        r
    }

    pub fn len(&self) -> (r: usize)
        requires
            self.wf(),
        ensures
            r == self.attempts().len(),
    {
        self.scores.len()
    }

    /// The cached number of successes.
    pub fn total_5ks(&self) -> (r: usize)
        ensures
            r == self.success_count(),
    {
        self.total_5ks
    }

    /// The entry at `index`, oldest first.
    pub fn get(&self, index: usize) -> (r: Option<Attempt>)
        requires
            self.wf(),
        ensures
            index < self.attempts().len() ==> r == Some(self.attempts()[index as int]),
            index >= self.attempts().len() ==> r is None,
    {
        if index < self.scores.len() {
            Some(Attempt { score: self.scores[index], time_seconds: self.times[index] })
        } else {
            None
        }
    }

    /// Appends `entry`, counting it when it is a success. A success needs
    /// room in the counter.
    pub fn push(&mut self, entry: Attempt)
        requires
            old(self).wf(),
            is_success(entry) ==> old(self).success_count() < usize::MAX,
        ensures
            final(self).wf(),
            final(self).attempts() == old(self).attempts().push(entry),
            final(self).success_count() == old(self).success_count() + if is_success(entry) {
                1nat
            } else {
                0nat
            },
    {
        self.scores.push(entry.score);
        self.times.push(entry.time_seconds);
        if entry.score == PERFECT_SCORE {
            self.total_5ks = self.total_5ks + 1;
        }
        assert(self.attempts() =~= old(self).attempts().push(entry));
    }

    /// Gives the most recent entry the score `score`. Its time and the cached
    /// count stay as they are.
    pub fn fix_prev_entry(&mut self, score: u16) -> (r: Result<(), EmptyLedger>)
        requires
            old(self).wf(),
        ensures
            final(self).wf(),
            final(self).success_count() == old(self).success_count(),
            old(self).attempts().len() == 0 ==> r is Err && final(self).attempts() == old(
                self,
            ).attempts(),
            old(self).attempts().len() > 0 ==> r is Ok && final(self).attempts() == old(
                self,
            ).attempts().update(
                old(self).attempts().len() - 1,
                Attempt { score, time_seconds: old(self).attempts().last().time_seconds },
            ),
    {
        let n = self.scores.len();
        if n == 0 {
            return Err(EmptyLedger);
        }
        self.scores.set(n - 1, score);
        assert(self.attempts() =~= old(self).attempts().update(
            n - 1,
            Attempt { score, time_seconds: old(self).attempts().last().time_seconds },
        ));
        Ok(())
    }

    /// Counts the successes afresh from the entries.
    pub fn add_up_5ks(&self) -> (r: usize)
        requires
            self.wf(),
        ensures
            r == success_total(self.attempts()),
    {
        let n = self.scores.len();
        let mut count: usize = 0;
        let mut i: usize = 0;
        while i < n
            invariant
                self.wf(),
                n == self.attempts().len(),
                i <= n,
                count == success_total(self.attempts().subrange(0, i as int)),
            decreases n - i,
        {
            proof {
                lemma_success_total_step(self.attempts(), i as int);
                lemma_success_total_bound(self.attempts().subrange(0, i as int + 1));
            }
            if self.scores[i] == PERFECT_SCORE {
                count = count + 1;
            }
            i = i + 1;
        }
        assert(self.attempts().subrange(0, n as int) =~= self.attempts());
        count
    }

    /// The time of the most recent success, found by scanning from the
    /// newest entry back; `None` when there is none.
    pub fn last_5k_time(&self) -> (r: Option<u32>)
        requires
            self.wf(),
        ensures
            r == (match last_success(self.attempts()) {
                Some(a) => Some(a.time_seconds),
                None => None,
            }),
    {
        let mut i: usize = self.scores.len();
        assert(self.attempts().subrange(0, i as int) =~= self.attempts());
        while i > 0
            invariant
                self.wf(),
                i <= self.attempts().len(),
                last_success(self.attempts()) == last_success(self.attempts().subrange(0, i as int)),
            decreases i,
        {
            assert(self.attempts().subrange(0, i as int).drop_last() =~= self.attempts().subrange(
                0,
                i as int - 1,
            ));
            if self.scores[i - 1] == PERFECT_SCORE {
                return Some(self.times[i - 1]);
            }
            i = i - 1;
        }
        None
    }

    /// A copy of the raw data, as it is stored.
    pub fn to_entries(&self) -> (r: LogEntries)
        requires
            self.wf(),
        ensures
            r.scores@ == scores_of(self.attempts()),
            r.times@ == times_of(self.attempts()),
    {
        let r = LogEntries { scores: self.scores.clone(), times: self.times.clone() };
        assert(r.scores@ =~= scores_of(self.attempts()));
        assert(r.times@ =~= times_of(self.attempts()));
        r
    }

    /// Replaces every entry with those of a stored record; the cached count
    /// stays as it was, for `resync` to correct. A record whose two
    /// sequences differ in length changes nothing.
    pub fn replace_entries(&mut self, record: LogEntries) -> (r: Result<(), MismatchedLengths>)
        requires
            old(self).wf(),
        ensures
            final(self).wf(),
            final(self).success_count() == old(self).success_count(),
            record.scores@.len() != record.times@.len() ==> r is Err && *final(self) == *old(self),
            record.scores@.len() == record.times@.len() ==> r is Ok && final(self).attempts()
                == attempts_of(record.scores@, record.times@),
    {
        if record.scores.len() != record.times.len() {
            return Err(MismatchedLengths);
        }
        self.scores = record.scores;
        self.times = record.times;
        Ok(())
    }

    /// Appends `n` successes at time `t`, leaving the cached count as it is.
    pub fn extend_successes(&mut self, n: usize, t: u32)
        requires
            old(self).wf(),
        ensures
            final(self).wf(),
            final(self).success_count() == old(self).success_count(),
            final(self).attempts() == old(self).attempts() + headstart_entries(n as nat, t),
    {
        let mut i: usize = 0;
        while i < n
            invariant
                self.wf(),
                i <= n,
                self.success_count() == old(self).success_count(),
                self.attempts() == old(self).attempts() + headstart_entries(i as nat, t),
            decreases n - i,
        {
            let ghost before = self.attempts();
            self.scores.push(PERFECT_SCORE);
            self.times.push(t);
            let entry = Attempt { score: PERFECT_SCORE, time_seconds: t };
            proof {
                assert(self.attempts() =~= before.push(entry));
                assert(headstart_entries(i as nat, t).push(entry) =~= headstart_entries(
                    i as nat + 1,
                    t,
                ));
                assert(old(self).attempts() + headstart_entries(i as nat, t).push(entry)
                    =~= (old(self).attempts() + headstart_entries(i as nat, t)).push(entry));
            }
            i = i + 1;
        }
    }

    /// Successes, misses, score total and the time of the newest entry,
    /// all counted afresh.
    pub fn summary(&self) -> (r: LedgerSummary)
        requires
            self.wf(),
        ensures
            r.success_count == success_total(self.attempts()),
            r.success_count + r.miss_count == self.attempts().len(),
            r.total_score == score_total(self.attempts()),
            r.last_time == if self.attempts().len() == 0 {
                0
            } else {
                self.attempts().last().time_seconds
            },
    {
        let n = self.scores.len();
        let mut successes: usize = 0;
        let mut total: u128 = 0;
        let mut i: usize = 0;
        while i < n
            invariant
                self.wf(),
                n == self.attempts().len(),
                i <= n,
                successes == success_total(self.attempts().subrange(0, i as int)),
                total == score_total(self.attempts().subrange(0, i as int)),
                total <= i * 65535,
            decreases n - i,
        {
            proof {
                lemma_success_total_step(self.attempts(), i as int);
                lemma_success_total_bound(self.attempts().subrange(0, i as int + 1));
                assert(self.attempts().subrange(0, i as int + 1).drop_last() =~= self.attempts().subrange(
                    0,
                    i as int,
                ));
                assert(i * 65535 + 65535 <= 0x1_0000_0000_0000_0000 * 65535) by (nonlinear_arith)
                    requires i < 0x1_0000_0000_0000_0000int;
            }
            if self.scores[i] == PERFECT_SCORE {
                successes = successes + 1;
            }
            total = total + self.scores[i] as u128;
            i = i + 1;
        }
        assert(self.attempts().subrange(0, n as int) =~= self.attempts());
        proof {
            lemma_success_total_bound(self.attempts());
        }
        let last_time = if n == 0 { 0 } else { self.times[n - 1] };
        LedgerSummary { success_count: successes, miss_count: n - successes, total_score: total, last_time }
    }

    /// Sets the cached count to the number of successes recorded.
    pub fn resync(&mut self)
        requires
            old(self).wf(),
        ensures
            final(self).wf(),
            final(self).attempts() == old(self).attempts(),
            final(self).in_sync(),
    {
        let count = self.add_up_5ks();
        proof {
            lemma_success_total_bound(self.attempts());
        }
        self.total_5ks = count;
    }
}

} // verus!
