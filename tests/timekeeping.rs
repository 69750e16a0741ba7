use geoguessr_tracker::timekeeping::{
    calculate_countdown, countdown_remaining, remaining_seconds, time_counter, HoursMinutesSeconds,
    TWENTY_FOUR_HOURS_IN_SECS,
};
use rand::Rng;

#[test]
fn countdown_test() {
    let total_time: u32 = (60 * 60 * 22) + (60 * 58) + 59;
    let mut rng = rand::thread_rng();
    let epoch_offset_secs = rng.gen_range(0..=total_time);
    let time_since_epoch = total_time - epoch_offset_secs;

    let res = calculate_countdown(time_since_epoch, epoch_offset_secs);
    assert_eq!(res, "01:01:01");
}

#[test]
fn hours_mins_secs_conv_test() {
    let mut rng = rand::thread_rng();
    let hours = rng.gen_range(0..=25);
    let minutes = rng.gen_range(0..60);
    let seconds = rng.gen_range(0..60);

    let total_seconds = ((hours as u32) * 60 * 60) + ((minutes as u32) * 60) + (seconds as u32);

    let correct = HoursMinutesSeconds { hours, minutes, seconds };
    assert_eq!(correct, HoursMinutesSeconds::from_secs(total_seconds));
}

#[test]
fn hours_mins_secs_converter() {
    let mut rng = rand::thread_rng();
    let hours = rng.gen_range(0..=25);
    let minutes = rng.gen_range(0..60);
    let seconds = rng.gen_range(0..60);

    let total_seconds = ((hours as u64) * 60 * 60) + ((minutes as u64) * 60) + (seconds as u64);

    let correct = HoursMinutesSeconds { hours, minutes, seconds };
    assert_eq!(correct, HoursMinutesSeconds::from_secs(total_seconds as u32));
}

#[test]
fn countdown_formats_remaining_time() {
    assert_eq!(remaining_seconds(79199, 86400), 7201);
    assert_eq!(countdown_remaining(79199, 86400), "02:00:01");
}

#[test]
fn countdown_saturates_after_the_end() {
    assert_eq!(remaining_seconds(90000, 86400), 0);
    assert_eq!(countdown_remaining(90000, 86400), "00:00:00");
    assert_eq!(countdown_remaining(u32::MAX, 86400), "00:00:00");
    assert_eq!(calculate_countdown(u32::MAX, 5), "00:00:00");
}

#[test]
fn countdown_full_day_at_start() {
    assert_eq!(calculate_countdown(0, 0), "24:00:00");
    assert_eq!(TWENTY_FOUR_HOURS_IN_SECS, 86400);
}

#[test]
fn time_counter_pads_and_widens() {
    assert_eq!(time_counter(0), "00:00:00");
    assert_eq!(time_counter(3661), "01:01:01");
    assert_eq!(time_counter(59), "00:00:59");
    assert_eq!(time_counter(36000 + 600 + 10), "10:10:10");
    assert_eq!(time_counter(100 * 3600 + 5), "100:00:05");
}

#[test]
fn from_secs_wraps_hours_past_a_byte() {
    let hms = HoursMinutesSeconds::from_secs(256 * 3600 + 61);
    assert_eq!(hms, HoursMinutesSeconds { hours: 0, minutes: 1, seconds: 1 });
}

#[test]
fn total_secs_adds_fields() {
    let hms = HoursMinutesSeconds { hours: 2, minutes: 0, seconds: 1 };
    assert_eq!(hms.total_secs(), 7201);
    let big = HoursMinutesSeconds { hours: 255, minutes: 255, seconds: 255 };
    assert_eq!(big.total_secs(), 255 * 3600 + 255 * 60 + 255);
}

#[test]
fn from_strs_reads_each_field() {
    let hms = HoursMinutesSeconds::from_strs("1", "+02", "003").unwrap();
    assert_eq!(hms, HoursMinutesSeconds { hours: 1, minutes: 2, seconds: 3 });
    assert!(HoursMinutesSeconds::from_strs("256", "0", "0").is_err());
    assert!(HoursMinutesSeconds::from_strs("1", "", "0").is_err());
    assert!(HoursMinutesSeconds::from_strs("1", "2", " 3").is_err());
    assert!(HoursMinutesSeconds::from_strs("1", "-2", "3").is_err());
}
