//! A marathon session: its clock, its ledger and its fixed length, and the
//! operations that a front end calls on it.
use vstd::prelude::*;
use crate::ledger::{
    attempts_of, count_after, headstart_entries, last_success, lemma_headstart_successes,
    lemma_success_total_append, score_total, scores_of, success_total, times_of, Attempt, EmptyLedger, EntryLedger, LedgerSummary, LogEntries,
    MismatchedLengths, PERFECT_SCORE,
};
use crate::persistence::LoadError;
use crate::stats::{pace_projection, project_total, seconds_between};
use crate::timekeeping::{
    clock_text, countdown_remaining, hms_total, remaining_secs, HoursMinutesSeconds,
};
use crate::timer::{ClockOverflow, EpochTimer};

verus! {

/// What became of a request to record a score.
#[derive(Debug, Clone, Copy, PartialEq, Eq, Structural)]
pub enum AddEntryResult {
    /// Recorded.
    Added,
    /// Recorded, but the clock was paused, so its time did not advance.
    TimerPaused,
    /// Not recorded: no round scores above the perfect score.
    ImpossibleScore { score: u16 },
    /// Not recorded: the elapsed time no longer fits the seconds counter.
    ClockOverflow,
    /// Not recorded: a success, with the success count already at the
    /// largest value it can hold.
    CountOverflow,
}

/// The number of successes that a headstart of `claimed` adds to a ledger
/// holding `found`.
pub open spec fn missing_successes(found: nat, claimed: nat) -> nat {
    if found > claimed {
        0
    } else {
        (claimed - found) as nat
    }
}

/// Whether an executable projection `p` is the projection `q`.
pub open spec fn projection_is(p: Option<u128>, q: Option<nat>) -> bool {
    match p {
        Some(v) => q == Some(v as nat),
        None => q is None,
    }
}

/// One session: a clock, a ledger and the session's length in seconds.
pub struct MarathonLog {
    marathon_duration_secs: u32,
    timer: EpochTimer,
    ledger: EntryLedger,
}

impl MarathonLog {
    /// The ledger's two sequences are parallel and its cache is bounded.
    pub closed spec fn wf(&self) -> bool {
        self.ledger.wf()
    }

    /// The session's length in seconds.
    pub closed spec fn duration(&self) -> nat {
        self.marathon_duration_secs as nat
    }

    /// The session's clock.
    pub closed spec fn clock(&self) -> EpochTimer {
        self.timer
    }

    /// The session's ledger.
    pub closed spec fn entries_view(&self) -> EntryLedger {
        self.ledger
    }

    /// The recorded attempts, oldest first.
    pub open spec fn attempts(&self) -> Seq<Attempt> {
        self.entries_view().attempts()
    }

    /// The cached success count.
    pub open spec fn success_count(&self) -> nat {
        self.entries_view().success_count()
    }

    pub open spec fn running(&self) -> bool {
        self.clock().running()
    }

    pub open spec fn offset(&self) -> nat {
        self.clock().offset()
    }

    /// A session of `duration` seconds with a paused clock at zero and an
    /// empty ledger.
    pub fn new(duration: u32) -> (r: Self)
        ensures
            r.wf(),
            r.duration() == duration,
            !r.running(),
            r.offset() == 0,
            r.attempts() == Seq::<Attempt>::empty(),
            r.success_count() == 0,
    {
        MarathonLog {
            marathon_duration_secs: duration,
            timer: EpochTimer::new(),
            ledger: EntryLedger::new(),
        }
    }

    pub fn duration_secs(&self) -> (r: u32)
        ensures
            r == self.duration(),
    {
        self.marathon_duration_secs
    }

    /// The cached number of successes.
    pub fn total_5ks(&self) -> (r: usize)
        ensures
            r == self.success_count(),
    {
        self.ledger.total_5ks()
    }

    pub fn len(&self) -> (r: usize)
        requires
            self.wf(),
        ensures
            r == self.attempts().len(),
    {
        self.ledger.len()
    }

    /// The entry at `index`, oldest first.
    pub fn entry(&self, index: usize) -> (r: Option<Attempt>)
        requires
            self.wf(),
        ensures
            index < self.attempts().len() ==> r == Some(self.attempts()[index as int]),
            index >= self.attempts().len() ==> r is None,
    {
        self.ledger.get(index)
    }

    pub fn is_paused(&self) -> (r: bool)
        ensures
            r == !self.running(),
    {
        !self.timer.is_running()
    }

    /// The seconds banked by the clock.
    pub fn offset_secs(&self) -> (r: u32)
        ensures
            r == self.offset(),
    {
        self.timer.offset_secs()
    }

    /// Starts the clock from now.
    pub fn start(&mut self)
        requires
            old(self).wf(),
        ensures
            final(self).wf(),
            final(self).running(),
            final(self).offset() == old(self).offset(),
            final(self).entries_view() == old(self).entries_view(),
            final(self).duration() == old(self).duration(),
    {
        self.timer.start();
    }

    /// Pauses the clock, banking the time it ran. On overflow the clock keeps
    /// running and nothing changes.
    pub fn pause(&mut self) -> (r: Result<(), ClockOverflow>)
        requires
            old(self).wf(),
        ensures
            final(self).wf(),
            !old(self).running() ==> r is Ok && !final(self).running() && final(self).offset()
                == old(self).offset(),
            old(self).running() && r is Ok ==> !final(self).running() && final(self).offset()
                >= old(self).offset(),
            r is Err ==> old(self).running() && final(self).running() && final(self).offset()
                == old(self).offset(),
            final(self).entries_view() == old(self).entries_view(),
            final(self).duration() == old(self).duration(),
    {
        self.timer.pause()
    }

    /// Elapsed session seconds now; `None` when they no longer fit the
    /// counter. A paused clock gives its banked seconds exactly.
    pub fn elapsed_seconds(&self) -> (r: Option<u32>)
        ensures
            !self.running() ==> r == Some(self.offset() as u32),
            r is Some ==> r->Some_0 >= self.offset(),
    {
        self.timer.elapsed_seconds()
    }

    /// Sets the clock so that `remaining` is left of the session: the
    /// elapsed count becomes the session length less `remaining`, or zero.
    pub fn set_time_remaining(&mut self, remaining: HoursMinutesSeconds)
        requires
            old(self).wf(),
        ensures
            final(self).wf(),
            final(self).offset() == remaining_secs(
                hms_total(remaining.hours as int, remaining.minutes as int, remaining.seconds as int) as nat,
                old(self).duration(),
            ),
            final(self).running() == old(self).running(),
            final(self).entries_view() == old(self).entries_view(),
            final(self).duration() == old(self).duration(),
    {
        let left = remaining.total_secs();
        self.timer.set_offset_secs(self.marathon_duration_secs.saturating_sub(left));
    }

    /// Records `score` at session time `time_seconds`. A score above the
    /// perfect score is refused and changes nothing; any other is appended,
    /// and counted when it is a success. A paused clock is reported, though
    /// the entry stands.
    pub fn record_at(&mut self, score: u16, time_seconds: u32) -> (r: AddEntryResult)
        requires
            old(self).wf(),
        ensures
            final(self).wf(),
            final(self).clock() == old(self).clock(),
            final(self).duration() == old(self).duration(),
            score > PERFECT_SCORE ==> r == (AddEntryResult::ImpossibleScore { score })
                && final(self).entries_view() == old(self).entries_view(),
            score == PERFECT_SCORE && old(self).success_count() == usize::MAX ==> r
                == AddEntryResult::CountOverflow && final(self).entries_view() == old(
                self,
            ).entries_view(),
            score <= PERFECT_SCORE && !(score == PERFECT_SCORE && old(self).success_count()
                == usize::MAX) ==> {
                let entry = Attempt { score, time_seconds };
                &&& final(self).attempts() == old(self).attempts().push(entry)
                &&& final(self).success_count() == count_after(old(self).success_count(), entry)
                &&& r == if old(self).running() {
                    AddEntryResult::Added
                } else {
                    AddEntryResult::TimerPaused
                }
            },
            old(self).entries_view().in_sync() ==> final(self).entries_view().in_sync(),
    {
        if score > PERFECT_SCORE {
            return AddEntryResult::ImpossibleScore { score };
        }
        if score == PERFECT_SCORE && self.ledger.total_5ks() == usize::MAX {
            return AddEntryResult::CountOverflow;
        }
        let entry = Attempt { score, time_seconds };
        self.ledger.push(entry);
        proof {
            assert(old(self).attempts().push(entry).drop_last() =~= old(self).attempts());
        }
        if self.timer.is_running() {
            AddEntryResult::Added
        } else {
            AddEntryResult::TimerPaused
        }
    }

    /// Records `score` at the current session time. A score above the
    /// perfect score, or a success with a full success counter, is refused
    /// without reading the clock; a clock past the
    /// counter's range refuses the entry too. Otherwise as `record_at`, with
    /// the banked seconds as the time when the clock is paused.
    pub fn try_add_entry(&mut self, score: u16) -> (r: AddEntryResult)
        requires
            old(self).wf(),
        ensures
            final(self).wf(),
            final(self).clock() == old(self).clock(),
            final(self).duration() == old(self).duration(),
            score > PERFECT_SCORE ==> r == (AddEntryResult::ImpossibleScore { score })
                && final(self).entries_view() == old(self).entries_view(),
            score == PERFECT_SCORE && old(self).success_count() == usize::MAX ==> r
                == AddEntryResult::CountOverflow && final(self).entries_view() == old(
                self,
            ).entries_view(),
            r == AddEntryResult::ClockOverflow ==> old(self).running()
                && final(self).entries_view() == old(self).entries_view(),
            score <= PERFECT_SCORE && !(score == PERFECT_SCORE && old(self).success_count()
                == usize::MAX) && r != AddEntryResult::ClockOverflow ==> {
                let entry = final(self).attempts().last();
                &&& final(self).attempts() == old(self).attempts().push(entry)
                &&& entry.score == score
                &&& entry.time_seconds >= old(self).offset()
                &&& !old(self).running() ==> entry.time_seconds == old(self).offset()
                &&& final(self).success_count() == count_after(old(self).success_count(), entry)
            },
            score <= PERFECT_SCORE && !(score == PERFECT_SCORE && old(self).success_count()
                == usize::MAX) && r != AddEntryResult::ClockOverflow ==> r == if old(
                self,
            ).running() {
                AddEntryResult::Added
            } else {
                AddEntryResult::TimerPaused
            },
            !old(self).running() ==> r != AddEntryResult::ClockOverflow,
            old(self).entries_view().in_sync() ==> final(self).entries_view().in_sync(),
    {
        if score > PERFECT_SCORE {
            return AddEntryResult::ImpossibleScore { score };
        }
        if score == PERFECT_SCORE && self.ledger.total_5ks() == usize::MAX {
            return AddEntryResult::CountOverflow;
        }
        match self.timer.elapsed_seconds() {
            Some(t) => self.record_at(score, t),
            None => AddEntryResult::ClockOverflow,
        }
    }

    /// Gives the most recent entry the score `score`, leaving its time and
    /// the cached count as they are.
    pub fn fix_prev_entry(&mut self, score: u16) -> (r: Result<(), EmptyLedger>)
        requires
            old(self).wf(),
        ensures
            final(self).wf(),
            final(self).clock() == old(self).clock(),
            final(self).duration() == old(self).duration(),
            final(self).success_count() == old(self).success_count(),
            old(self).attempts().len() == 0 ==> r is Err && final(self).attempts() == old(
                self,
            ).attempts(),
            old(self).attempts().len() > 0 ==> r is Ok && final(self).attempts() == old(
                self,
            ).attempts().update(
                old(self).attempts().len() - 1,
                Attempt { score, time_seconds: old(self).attempts().last().time_seconds },
            ),
    {
        self.ledger.fix_prev_entry(score)
    }

    /// Counts the successes afresh from the ledger.
    pub fn add_up_5ks(&self) -> (r: usize)
        requires
            self.wf(),
        ensures
            r == success_total(self.attempts()),
    {
        self.ledger.add_up_5ks()
    }

    /// Successes, misses, score total and the time of the newest entry, all
    /// counted afresh from the ledger.
    pub fn summary(&self) -> (r: LedgerSummary)
        requires
            self.wf(),
        ensures
            r.success_count == success_total(self.attempts()),
            r.success_count + r.miss_count == self.attempts().len(),
            r.total_score == score_total(self.attempts()),
            r.last_time == if self.attempts().len() == 0 {
                0
            } else {
                self.attempts().last().time_seconds
            },
    {
        self.ledger.summary()
    }

    /// Whether the cached count equals a fresh count of the ledger. A
    /// mismatch is only reported here, never corrected on its own.
    pub fn is_in_sync(&self) -> (r: bool)
        requires
            self.wf(),
        ensures
            r == self.entries_view().in_sync(),
    {
        self.ledger.total_5ks() == self.ledger.add_up_5ks()
    }

    /// Sets the cached count to the number of successes recorded.
    pub fn resync(&mut self)
        requires
            old(self).wf(),
        ensures
            final(self).wf(),
            final(self).attempts() == old(self).attempts(),
            final(self).entries_view().in_sync(),
            final(self).clock() == old(self).clock(),
            final(self).duration() == old(self).duration(),
    {
        self.ledger.resync();
    }

    /// Brings the ledger up to a claimed number of successes: when it holds
    /// fewer, the missing ones are appended as perfect rounds at time
    /// `time_seconds`. The cached count is then taken afresh from the
    /// ledger. Returns whether the ledger held more successes than claimed.
    pub fn apply_headstart_5ks_at(&mut self, claimed: usize, time_seconds: u32) -> (excess: bool)
        requires
            old(self).wf(),
        ensures
            final(self).wf(),
            excess == (success_total(old(self).attempts()) > claimed),
            final(self).attempts() == old(self).attempts() + headstart_entries(
                missing_successes(success_total(old(self).attempts()), claimed as nat),
                time_seconds,
            ),
            final(self).entries_view().in_sync(),
            success_total(final(self).attempts()) == if excess {
                success_total(old(self).attempts())
            } else {
                claimed as nat
            },
            final(self).clock() == old(self).clock(),
            final(self).duration() == old(self).duration(),
    {
        let found = self.ledger.add_up_5ks();
        let excess = found > claimed;
        let missing: usize = if excess { 0 } else { claimed - found };
        self.ledger.extend_successes(missing, time_seconds);
        self.ledger.resync();
        proof {
            lemma_success_total_append(
                old(self).attempts(),
                headstart_entries(missing as nat, time_seconds),
            );
            lemma_headstart_successes(missing as nat, time_seconds);
        }
        excess
    }

    /// As `apply_headstart_5ks_at`, at the current session time: the banked
    /// seconds when the clock is paused, which always succeeds. When a
    /// running clock's time no longer fits the counter nothing changes.
    pub fn apply_headstart_5ks(&mut self, claimed: usize) -> (r: Result<bool, ClockOverflow>)
        requires
            old(self).wf(),
        ensures
            final(self).wf(),
            !old(self).running() ==> r is Ok,
            r is Err ==> final(self).entries_view() == old(self).entries_view(),
            r matches Ok(excess) ==> {
                &&& excess == (success_total(old(self).attempts()) > claimed)
                &&& final(self).entries_view().in_sync()
                &&& success_total(final(self).attempts()) == if excess {
                    success_total(old(self).attempts())
                } else {
                    claimed as nat
                }
                &&& exists|t: u32|
                    t >= old(self).offset() && (!old(self).running() ==> t == old(self).offset())
                        && final(self).attempts() == old(self).attempts() + #[trigger] headstart_entries(
                        missing_successes(success_total(old(self).attempts()), claimed as nat),
                        t,
                    )
            },
            final(self).clock() == old(self).clock(),
            final(self).duration() == old(self).duration(),
    {
        match self.timer.elapsed_seconds() {
            Some(t) => {
                let excess = self.apply_headstart_5ks_at(claimed, t);
                assert(self.attempts() == old(self).attempts() + headstart_entries(
                    missing_successes(success_total(old(self).attempts()), claimed as nat),
                    t,
                ));
                Ok(excess)
            },
            None => Err(ClockOverflow),
        }
    }

    /// The projected number of successes at the end of the session, with
    /// `elapsed` seconds gone, from the cached count.
    pub fn estimate_pace_at(&self, elapsed: u32) -> (r: Option<u128>)
        ensures
            projection_is(r, pace_projection(self.success_count(), elapsed as nat, self.duration())),
    {
        project_total(self.ledger.total_5ks(), elapsed, self.marathon_duration_secs)
    }

    /// The projected number of successes at the end of the session, now: as
    /// `estimate_pace_at` at some time no earlier than the banked seconds, at
    /// exactly those when the clock is paused. Fails when the clock is past
    /// the counter's range.
    pub fn estimate_pace(&self) -> (r: Result<Option<u128>, ClockOverflow>)
        ensures
            !self.running() ==> (r matches Ok(p) && projection_is(
                p,
                pace_projection(self.success_count(), self.offset(), self.duration()),
            )),
            r matches Ok(p) ==> exists|t: u32|
                t >= self.offset() && #[trigger] projection_is(
                    p,
                    pace_projection(self.success_count(), t as nat, self.duration()),
                ),
    {
        match self.timer.elapsed_seconds() {
            Some(t) => {
                let p = self.estimate_pace_at(t);
                assert(projection_is(p, pace_projection(self.success_count(), t as nat, self.duration())));
                Ok(p)
            },
            None => Err(ClockOverflow),
        }
    }

    /// Seconds from the most recent success to session time `elapsed`, or
    /// zero when that success lies later; `None` when there is no success.
    pub fn time_since_last_5k_at(&self, elapsed: u32) -> (r: Option<u32>)
        requires
            self.wf(),
        ensures
            r == (match last_success(self.attempts()) {
                Some(a) => Some(seconds_between(a.time_seconds as nat, elapsed as nat) as u32),
                None => None,
            }),
    {
        match self.ledger.last_5k_time() {
            Some(t) => Some(elapsed.saturating_sub(t)),
            None => None,
        }
    }

    /// Seconds since the most recent success, now. Fails when the clock is
    /// past the counter's range.
    pub fn time_since_last_5k(&self) -> (r: Result<Option<u32>, ClockOverflow>)
        requires
            self.wf(),
        ensures
            r matches Ok(v) ==> exists|t: u32|
                t >= self.offset() && v == #[trigger] self.time_since_last_5k_spec(t),
            !self.running() ==> r == Ok::<Option<u32>, ClockOverflow>(
                self.time_since_last_5k_spec(self.offset() as u32),
            ),
    {
        match self.timer.elapsed_seconds() {
            Some(t) => {
                let v = self.time_since_last_5k_at(t);
                assert(v == self.time_since_last_5k_spec(t));
                Ok(v)
            },
            None => Err(ClockOverflow),
        }
    }

    /// Seconds from the most recent success to session time `elapsed`.
    pub open spec fn time_since_last_5k_spec(&self, elapsed: u32) -> Option<u32> {
        match last_success(self.attempts()) {
            Some(a) => Some(seconds_between(a.time_seconds as nat, elapsed as nat) as u32),
            None => None,
        }
    }

    /// The time left of the session at session time `elapsed`, as
    /// `HH:MM:SS`.
    pub fn countdown_at(&self, elapsed: u32) -> (r: String)
        ensures
            r@ == clock_text(remaining_secs(elapsed as nat, self.duration())),
    {
        countdown_remaining(elapsed, self.marathon_duration_secs)
    }

    /// The time left of the session now, as `HH:MM:SS`. A clock past the
    /// counter's range is past the end of any session, so shows zero.
    pub fn countdown(&self) -> (r: String)
        ensures
            !self.running() ==> r@ == clock_text(remaining_secs(self.offset(), self.duration())),
            exists|t: nat|
                t >= self.offset() && r@ == clock_text(#[trigger] remaining_secs(t, self.duration())),
    {
        let elapsed = match self.timer.elapsed_seconds() {
            Some(t) => t,
            None => u32::MAX,
        };
        let r = self.countdown_at(elapsed);
        proof {
            self.timer.lemma_offset_fits();
        }
        assert(r@ == clock_text(remaining_secs(elapsed as nat, self.duration())));
        r
    }

    /// A copy of the ledger's raw data, as it is stored.
    pub fn to_entries(&self) -> (r: LogEntries)
        requires
            self.wf(),
        ensures
            r.scores@ == scores_of(self.attempts()),
            r.times@ == times_of(self.attempts()),
    {
        self.ledger.to_entries()
    }

    /// Replaces the whole ledger with the entries of a stored record; the
    /// entries recorded before are dropped. The cached count is left as it
    /// was: `is_in_sync` shows a mismatch and `resync` corrects it. A record
    /// whose two sequences differ in length changes nothing.
    pub fn load_entries(&mut self, record: LogEntries) -> (r: Result<(), LoadError>)
        requires
            old(self).wf(),
        ensures
            final(self).wf(),
            record.scores@.len() != record.times@.len() ==> r == Err::<(), LoadError>(
                LoadError::InvalidData,
            ) && final(self).entries_view()
                == old(self).entries_view(),
            record.scores@.len() == record.times@.len() ==> r is Ok && final(self).attempts()
                == attempts_of(record.scores@, record.times@),
            final(self).success_count() == old(self).success_count(),
            final(self).clock() == old(self).clock(),
            final(self).duration() == old(self).duration(),
    {
        match self.ledger.replace_entries(record) {
            Ok(()) => Ok(()),
            Err(MismatchedLengths) => Err(LoadError::InvalidData),
        }
    }
}

} // verus!
