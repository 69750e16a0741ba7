use vstd::prelude::*;
use std::num::ParseIntError;
use vstd::string::StringExecFns;
use crate::decimal::{
    decimal_of, decimal_text, digits_value, lemma_decimal_len, parse_u8, reads_as_unsigned,
    unsigned_body,
};

verus! {

/// Length of a full marathon session, in seconds.
pub const TWENTY_FOUR_HOURS_IN_SECS: u32 = 86400;

/// A duration split into hours, minutes and seconds.
#[derive(Debug, Clone, Copy, PartialEq, Eq, Structural)]
pub struct HoursMinutesSeconds {
    pub hours: u8,
    pub minutes: u8,
    pub seconds: u8,
}

/// Total number of seconds that the three fields stand for.
pub open spec fn hms_total(h: int, m: int, s: int) -> int {
    h * 3600 + m * 60 + s
}

impl HoursMinutesSeconds {
    /// Splits `secs` into hours, minutes and seconds. The hour field holds
    /// the hour count modulo 256.
    pub fn from_secs(secs: u32) -> (r: Self)
        ensures
            r.seconds == secs % 60,
            r.minutes == (secs / 60) % 60,
            r.hours == (secs / 3600) % 256,
    {
        let total_mins = secs / 60;
        let seconds = (secs % 60) as u8;
        let minutes = (total_mins % 60) as u8;
        let hours_wide = total_mins / 60;
        assert(hours_wide == secs / 3600) by (nonlinear_arith)
            requires total_mins == secs / 60, hours_wide == total_mins / 60;
        let hours = (hours_wide % 256) as u8;
        HoursMinutesSeconds { hours, minutes, seconds }
    }

    /// Reads hours, minutes and seconds from their decimal texts. Each field
    /// must read as a `u8`; the first one that does not gives the error.
    pub fn from_strs(hours: &str, mins: &str, secs: &str) -> (r: Result<Self, ParseIntError>)
        ensures
            r is Ok <==> (reads_as_unsigned(hours@, 255) && reads_as_unsigned(mins@, 255)
                && reads_as_unsigned(secs@, 255)),
            r is Ok ==> r->Ok_0.hours == digits_value(unsigned_body(hours@)),
            r is Ok ==> r->Ok_0.minutes == digits_value(unsigned_body(mins@)),
            r is Ok ==> r->Ok_0.seconds == digits_value(unsigned_body(secs@)),
    {
        let hours_int = match parse_u8(hours) {
            Ok(v) => v,
            Err(e) => return Err(e),
        };
        let mins_int = match parse_u8(mins) {
            Ok(v) => v,
            Err(e) => return Err(e),
        };
        let secs_int = match parse_u8(secs) {
            Ok(v) => v,
            Err(e) => return Err(e),
        };
        Ok(HoursMinutesSeconds { hours: hours_int, minutes: mins_int, seconds: secs_int })
    }

    /// The number of seconds that this value stands for.
    pub fn total_secs(&self) -> (r: u32)
        ensures
            r == hms_total(self.hours as int, self.minutes as int, self.seconds as int),
    {
        ((self.hours as u32) * 60 * 60) + ((self.minutes as u32) * 60) + (self.seconds as u32)
    }
}

/// `s` with a `0` in front when it is shorter than two characters.
pub open spec fn pad2(s: Seq<char>) -> Seq<char> {
    if s.len() < 2 {
        seq!['0'] + s
    } else {
        s
    }
}

/// `secs` as `HH:MM:SS`: whole hours, then minutes and seconds within the
/// hour, each at least two digits wide.
pub open spec fn clock_text(secs: nat) -> Seq<char> {
    pad2(decimal_of(secs / 3600)) + seq![':'] + pad2(decimal_of((secs % 3600) / 60)) + seq![':']
        + pad2(decimal_of(secs % 60))
}

/// Seconds left of a session of `duration` seconds after `elapsed` seconds,
/// never below zero.
pub open spec fn remaining_secs(elapsed: nat, duration: nat) -> nat {
    if elapsed >= duration {
        0
    } else {
        (duration - elapsed) as nat
    }
}

/// The decimal text of `n`, with a leading zero when it has one digit.
fn two_digit_field(n: u32) -> (r: String)
    ensures
        r@ == pad2(decimal_of(n as nat)),
{
    let text = decimal_text(n);
    proof {
        lemma_decimal_len(n as nat);
    }
    if n < 10 {
        let mut padded = String::from_str("0");
        proof {
            reveal_strlit("0");
        }
        padded.append(text.as_str());
        padded
    } else {
        text
    }
}

/// Formats a number of seconds as `HH:MM:SS`. The hour field grows past two
/// digits when it must.
pub fn time_counter(raw_secs: u32) -> (r: String)
    ensures
        r@ == clock_text(raw_secs as nat),
{
    let hours = two_digit_field(raw_secs / 3600);
    let minutes = two_digit_field((raw_secs % 3600) / 60);
    let seconds = two_digit_field(raw_secs % 60);
    proof {
        reveal_strlit(":");
    }
    let text = hours.concat(":").concat(minutes.as_str()).concat(":").concat(seconds.as_str());
    text
}

/// Seconds left of a session of `duration_seconds` after `elapsed_seconds`;
/// zero once the session is over.
pub fn remaining_seconds(elapsed_seconds: u32, duration_seconds: u32) -> (r: u32)
    ensures
        r == remaining_secs(elapsed_seconds as nat, duration_seconds as nat),
{
    duration_seconds.saturating_sub(elapsed_seconds)
}

/// The time left of a session, as `HH:MM:SS`.
pub fn countdown_remaining(elapsed_seconds: u32, duration_seconds: u32) -> (r: String)
    ensures
        r@ == clock_text(remaining_secs(elapsed_seconds as nat, duration_seconds as nat)),
{
    time_counter(remaining_seconds(elapsed_seconds, duration_seconds))
}

/// The time left of a full-day session as `HH:MM:SS`, from the seconds run
/// since the clock's last start and the seconds banked before it.
pub fn calculate_countdown(time_since_epoch: u32, epoch_offset_secs: u32) -> (r: String)
    ensures
        r@ == clock_text(
            remaining_secs(
                (time_since_epoch + epoch_offset_secs) as nat,
                TWENTY_FOUR_HOURS_IN_SECS as nat,
            ),
        ),
{
    let time_passed = match time_since_epoch.checked_add(epoch_offset_secs) {
        Some(sum) => sum,
        None => u32::MAX,
    };
    countdown_remaining(time_passed, TWENTY_FOUR_HOURS_IN_SECS)
}

} // verus!
