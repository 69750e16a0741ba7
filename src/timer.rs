//! A pausable elapsed-time clock counted in whole seconds.
use vstd::prelude::*;
use std::time::Instant;

verus! {

#[verifier::external_type_specification]
#[verifier::external_body]
pub struct ExInstant(Instant);

/// Relies on `Instant::now`: a reading of the monotonic clock. Nothing is
/// known of its value.
#[verifier::external_body]
pub(crate) fn clock_now() -> (r: Instant) {
    Instant::now()
}

/// Relies on `Instant::elapsed`: whole seconds of the monotonic clock since
/// `epoch`. It depends on the time of the call, so nothing is known of it.
#[verifier::external_body]
pub(crate) fn whole_secs_since(epoch: &Instant) -> (r: u64) {
    epoch.elapsed().as_secs()
}

/// The elapsed time would leave the range of the `u32` seconds counter.
#[derive(Debug, Clone, Copy, PartialEq, Eq, Structural)]
pub struct ClockOverflow;

/// Whether the clock runs, and since which reading of the monotonic clock.
pub enum TimerState {
    Running { epoch: Instant },
    Paused,
}

/// A clock that counts the seconds for which it has been running. Pausing
/// banks the running time into `offset_secs`; the count never goes back.
pub struct EpochTimer {
    state: TimerState,
    offset_secs: u32,
}

/// Elapsed time with `secs` seconds run since the last start, or `None` when
/// it does not fit the counter.
pub open spec fn elapsed_with(offset: nat, running: bool, secs: nat) -> Option<u32> {
    if !running {
        Some(offset as u32)
    } else if offset + secs <= u32::MAX {
        Some((offset + secs) as u32)
    } else {
        None
    }
}

/// Pausing freezes the count: a clock that ran `secs` seconds from a banked
/// `offset` and was then paused reads what it read at the pause, however
/// much time passes after it, until it is started again.
pub proof fn lemma_pause_freezes_elapsed(offset: nat, secs: nat, later: nat)
    requires
        offset + secs <= u32::MAX,
    ensures
        elapsed_with(offset, true, secs) == Some((offset + secs) as u32),
        elapsed_with(offset + secs, false, later) == elapsed_with(offset, true, secs),
{
}

impl EpochTimer {
    /// Whether the clock is running.
    pub closed spec fn running(&self) -> bool {
        self.state is Running
    }

    /// The seconds banked by earlier pauses (or set directly).
    pub closed spec fn offset(&self) -> nat {
        self.offset_secs as nat
    }

    /// The banked seconds fit the counter.
    pub proof fn lemma_offset_fits(&self)
        ensures
            self.offset() <= u32::MAX,
    {
    }

    /// A paused clock at zero.
    pub fn new() -> (r: Self)
        ensures
            !r.running(),
            r.offset() == 0,
    {
        EpochTimer { state: TimerState::Paused, offset_secs: 0 }
    }

    pub fn is_running(&self) -> (r: bool)
        ensures
            r == self.running(),
    {
        match self.state {
            TimerState::Running { .. } => true,
            TimerState::Paused => false,
        }
    }

    pub fn offset_secs(&self) -> (r: u32)
        ensures
            r == self.offset(),
    {
        self.offset_secs
    }

    /// Sets the banked seconds, leaving the running state as it is.
    pub fn set_offset_secs(&mut self, secs: u32)
        ensures
            final(self).running() == old(self).running(),
            final(self).offset() == secs,
    {
        self.offset_secs = secs;
    }

    /// Starts the clock from now. On a running clock the time since its last
    /// start is dropped; pause first to keep it.
    pub fn start(&mut self)
        ensures
            final(self).running(),
            final(self).offset() == old(self).offset(),
    {
        self.state = TimerState::Running { epoch: clock_now() };
    }

    /// Pauses a clock that has run `running_secs` seconds since its last
    /// start, banking them. A paused clock stays as it is. When the banked
    /// total would not fit the counter, the clock is left running and
    /// unchanged.
    pub fn pause_after(&mut self, running_secs: u64) -> (r: Result<(), ClockOverflow>)
        ensures
            !old(self).running() ==> r is Ok && !final(self).running()
                && final(self).offset() == old(self).offset(),
            old(self).running() && old(self).offset() + running_secs <= u32::MAX ==> r is Ok
                && !final(self).running() && final(self).offset() == old(self).offset()
                + running_secs,
            old(self).running() && old(self).offset() + running_secs > u32::MAX ==> r is Err
                && final(self).running() && final(self).offset() == old(self).offset(),
    {
        match self.state {
            TimerState::Paused => Ok(()),
            TimerState::Running { .. } => {
                if running_secs <= (u32::MAX - self.offset_secs) as u64 {
                    self.offset_secs = self.offset_secs + running_secs as u32;
                    self.state = TimerState::Paused;
                    Ok(())
                } else {
                    Err(ClockOverflow)
                }
            },
        }
    }

    /// Pauses the clock, banking the time it ran since its last start. A
    /// paused clock stays as it is; on overflow the clock keeps running.
    pub fn pause(&mut self) -> (r: Result<(), ClockOverflow>)
        ensures
            !old(self).running() ==> r is Ok && !final(self).running()
                && final(self).offset() == old(self).offset(),
            old(self).running() && r is Ok ==> !final(self).running() && final(self).offset()
                >= old(self).offset(),
            r is Err ==> old(self).running() && final(self).running() && final(self).offset()
                == old(self).offset(),
    {
        let secs = match &self.state {
            TimerState::Running { epoch } => whole_secs_since(epoch),
            TimerState::Paused => 0,
        };
        self.pause_after(secs)
    }

    /// Elapsed seconds with `running_secs` seconds run since the last start:
    /// the banked seconds, plus those when running; `None` when the sum does
    /// not fit the counter.
    pub fn elapsed_after(&self, running_secs: u64) -> (r: Option<u32>)
        ensures
            r == elapsed_with(self.offset(), self.running(), running_secs as nat),
    {
        match self.state {
            TimerState::Paused => Some(self.offset_secs),
            TimerState::Running { .. } => {
                if running_secs <= (u32::MAX - self.offset_secs) as u64 {
                    Some(self.offset_secs + running_secs as u32)
                } else {
                    None
                }
            },
        }
    }

    /// Elapsed seconds now. A paused clock gives its banked seconds exactly,
    /// a running one at least those; `None` when the count would not fit the
    /// counter.
    pub fn elapsed_seconds(&self) -> (r: Option<u32>)
        ensures
            !self.running() ==> r == Some(self.offset() as u32),
            r is Some ==> r->Some_0 >= self.offset(),
    {
        let secs = match &self.state {
            TimerState::Running { epoch } => whole_secs_since(epoch),
            TimerState::Paused => 0,
        };
        self.elapsed_after(secs)
    }
}

} // verus!
