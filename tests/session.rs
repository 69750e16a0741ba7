use geoguessr_tracker::ledger::Attempt;
use geoguessr_tracker::marathon_log::{AddEntryResult, MarathonLog};
use geoguessr_tracker::persistence::LoadError;
use geoguessr_tracker::ledger::LogEntries;
use geoguessr_tracker::stats::project_total;
use geoguessr_tracker::timekeeping::HoursMinutesSeconds;
use geoguessr_tracker::timer::EpochTimer;

fn wait_millis(ms: u64) {
    let start = std::time::Instant::now();
    while start.elapsed() < std::time::Duration::from_millis(ms) {}
}

#[test]
fn impossible_score_changes_nothing() {
    let mut log = MarathonLog::new(86400);
    log.start();
    assert_eq!(log.try_add_entry(5001), AddEntryResult::ImpossibleScore { score: 5001 });
    assert_eq!(log.len(), 0);
    assert_eq!(log.total_5ks(), 0);
}

#[test]
fn perfect_score_counts_once() {
    let mut log = MarathonLog::new(86400);
    log.start();
    assert_eq!(log.try_add_entry(5000), AddEntryResult::Added);
    assert_eq!(log.len(), 1);
    assert_eq!(log.total_5ks(), 1);
    assert_eq!(log.try_add_entry(4999), AddEntryResult::Added);
    assert_eq!(log.len(), 2);
    assert_eq!(log.total_5ks(), 1);
}

#[test]
fn paused_entry_is_recorded_with_banked_time() {
    let mut log = MarathonLog::new(86400);
    assert_eq!(log.try_add_entry(5000), AddEntryResult::TimerPaused);
    assert_eq!(log.len(), 1);
    assert_eq!(log.total_5ks(), 1);
    assert_eq!(log.entry(0), Some(Attempt { score: 5000, time_seconds: 0 }));
    assert_eq!(log.entry(1), None);
}

#[test]
fn timer_pause_banks_time_and_stays_still() {
    let mut timer = EpochTimer::new();
    assert_eq!(timer.elapsed_seconds(), Some(0));
    timer.start();
    wait_millis(1100);
    assert!(timer.pause().is_ok());
    let e = timer.elapsed_seconds().unwrap();
    assert!(e >= 1 && e <= 2);
    wait_millis(300);
    assert_eq!(timer.elapsed_seconds(), Some(e));
    assert_eq!(timer.elapsed_seconds(), Some(e));
    assert!(!timer.is_running());
}

#[test]
fn timer_exact_arithmetic() {
    let mut timer = EpochTimer::new();
    timer.set_offset_secs(40);
    assert_eq!(timer.elapsed_after(1000), Some(40));
    timer.start();
    assert_eq!(timer.elapsed_after(60), Some(100));
    assert_eq!(timer.elapsed_after(u64::from(u32::MAX)), None);
    assert!(timer.pause_after(u64::from(u32::MAX)).is_err());
    assert!(timer.is_running());
    assert!(timer.pause_after(60).is_ok());
    assert!(!timer.is_running());
    assert_eq!(timer.offset_secs(), 100);
    assert!(timer.pause_after(500).is_ok());
    assert_eq!(timer.offset_secs(), 100);
    timer.start();
    assert!(timer.pause_after(5).is_ok());
    assert_eq!(timer.elapsed_seconds(), Some(105));
}

#[test]
fn pace_projection_example() {
    assert_eq!(project_total(2, 100, 200), Some(4));
    assert_eq!(project_total(0, 100, 200), None);
    assert_eq!(project_total(3, 0, 200), None);
    assert_eq!(project_total(3, 250, 200), Some(3));
    assert_eq!(project_total(1, 3, 10), Some(3));
}

#[test]
fn session_pace_uses_cached_count() {
    let mut log = MarathonLog::new(200);
    assert_eq!(log.estimate_pace_at(100), None);
    log.record_at(5000, 10);
    log.record_at(5000, 20);
    assert_eq!(log.estimate_pace_at(100), Some(4));
    assert_eq!(log.estimate_pace_at(0), None);
    assert_eq!(log.estimate_pace(), Ok(None));
}

#[test]
fn time_since_last_success_example() {
    let mut log = MarathonLog::new(86400);
    log.record_at(3000, 10);
    log.record_at(5000, 40);
    log.record_at(4000, 70);
    assert_eq!(log.time_since_last_5k_at(100), Some(60));
    assert_eq!(log.time_since_last_5k_at(30), Some(0));
}

#[test]
fn time_since_last_success_none_without_success() {
    let mut log = MarathonLog::new(86400);
    assert_eq!(log.time_since_last_5k_at(100), None);
    log.record_at(4000, 70);
    assert_eq!(log.time_since_last_5k_at(100), None);
    assert_eq!(log.time_since_last_5k(), Ok(None));
}

#[test]
fn time_since_last_success_latest_wins() {
    let mut log = MarathonLog::new(86400);
    log.record_at(5000, 10);
    log.record_at(5000, 50);
    log.record_at(5000, 50);
    assert_eq!(log.time_since_last_5k_at(80), Some(30));
    let mut paused = MarathonLog::new(86400);
    paused.record_at(5000, 0);
    let mut timer_set = paused;
    timer_set.set_time_remaining(HoursMinutesSeconds { hours: 23, minutes: 59, seconds: 0 });
    assert_eq!(timer_set.time_since_last_5k(), Ok(Some(60)));
}

#[test]
fn recount_matches_cache_over_any_adds() {
    let mut log = MarathonLog::new(86400);
    let scores: [u16; 9] = [5000, 0, 4999, 5000, 5001, 5000, 1, 65535, 5000];
    for s in scores {
        log.try_add_entry(s);
        assert_eq!(log.add_up_5ks(), log.total_5ks());
        assert!(log.is_in_sync());
    }
    assert_eq!(log.total_5ks(), 4);
    assert_eq!(log.len(), 7);
}

#[test]
fn fix_previous_rescores_last_entry() {
    let mut log = MarathonLog::new(86400);
    assert!(log.fix_prev_entry(100).is_err());
    log.record_at(4000, 5);
    log.record_at(4100, 9);
    assert!(log.fix_prev_entry(4200).is_ok());
    assert_eq!(log.entry(1), Some(Attempt { score: 4200, time_seconds: 9 }));
    assert_eq!(log.entry(0), Some(Attempt { score: 4000, time_seconds: 5 }));
    assert!(log.is_in_sync());
}

#[test]
fn fix_previous_to_success_leaves_cache_for_resync() {
    let mut log = MarathonLog::new(86400);
    log.record_at(4000, 5);
    assert!(log.fix_prev_entry(5000).is_ok());
    assert_eq!(log.total_5ks(), 0);
    assert_eq!(log.add_up_5ks(), 1);
    assert!(!log.is_in_sync());
    log.resync();
    assert_eq!(log.total_5ks(), 1);
}

#[test]
fn headstart_adds_missing_successes() {
    let mut log = MarathonLog::new(86400);
    log.record_at(5000, 5);
    log.record_at(3000, 6);
    let excess = log.apply_headstart_5ks_at(3, 7);
    assert!(!excess);
    assert_eq!(log.len(), 4);
    assert_eq!(log.total_5ks(), 3);
    assert_eq!(log.entry(3), Some(Attempt { score: 5000, time_seconds: 7 }));
    assert!(log.apply_headstart_5ks_at(1, 8));
    assert_eq!(log.len(), 4);
    assert_eq!(log.apply_headstart_5ks(3), Ok(false));
    assert_eq!(log.len(), 4);
}

#[test]
fn time_remaining_sets_offset() {
    let mut log = MarathonLog::new(86400);
    log.set_time_remaining(HoursMinutesSeconds { hours: 1, minutes: 0, seconds: 0 });
    assert_eq!(log.offset_secs(), 82800);
    assert_eq!(log.countdown(), "01:00:00");
    assert_eq!(log.elapsed_seconds(), Some(82800));
    log.set_time_remaining(HoursMinutesSeconds { hours: 25, minutes: 0, seconds: 0 });
    assert_eq!(log.offset_secs(), 0);
}

#[test]
fn load_replaces_ledger() {
    let mut log = MarathonLog::new(86400);
    log.record_at(5000, 1);
    log.record_at(5000, 2);
    let record = LogEntries { scores: vec![100, 5000], times: vec![10, 20] };
    assert_eq!(log.load_entries(record), Ok(()));
    assert_eq!(log.len(), 2);
    assert_eq!(log.entry(0), Some(Attempt { score: 100, time_seconds: 10 }));
    assert_eq!(log.total_5ks(), 2);
    assert_eq!(log.add_up_5ks(), 1);
    assert!(!log.is_in_sync());
    log.resync();
    assert_eq!(log.total_5ks(), 1);
}

#[test]
fn load_into_fresh_session_keeps_count_until_resync() {
    let mut log = MarathonLog::new(86400);
    let record = LogEntries { scores: vec![5000], times: vec![3] };
    assert_eq!(log.load_entries(record), Ok(()));
    assert_eq!(log.total_5ks(), 0);
    assert_eq!(log.add_up_5ks(), 1);
}

#[test]
fn headstart_on_paused_clock_uses_banked_time() {
    let mut log = MarathonLog::new(86400);
    log.set_time_remaining(HoursMinutesSeconds { hours: 23, minutes: 0, seconds: 0 });
    assert_eq!(log.apply_headstart_5ks(2), Ok(false));
    assert_eq!(log.len(), 2);
    assert_eq!(log.entry(1), Some(Attempt { score: 5000, time_seconds: 3600 }));
    assert_eq!(log.total_5ks(), 2);
}

#[test]
fn load_rejects_mismatched_lengths() {
    let mut log = MarathonLog::new(86400);
    log.record_at(5000, 1);
    let record = LogEntries { scores: vec![100, 5000], times: vec![10] };
    assert_eq!(log.load_entries(record), Err(LoadError::InvalidData));
    assert_eq!(log.len(), 1);
    assert_eq!(log.entry(0), Some(Attempt { score: 5000, time_seconds: 1 }));
}

#[test]
fn summary_counts_afresh() {
    let mut log = MarathonLog::new(86400);
    let empty = log.summary();
    assert_eq!(empty.success_count, 0);
    assert_eq!(empty.miss_count, 0);
    assert_eq!(empty.total_score, 0);
    assert_eq!(empty.last_time, 0);
    log.record_at(5000, 10);
    log.record_at(3000, 25);
    log.record_at(5000, 31);
    log.fix_prev_entry(4000).unwrap();
    let s = log.summary();
    assert_eq!(s.success_count, 1);
    assert_eq!(s.miss_count, 2);
    assert_eq!(s.total_score, 12000);
    assert_eq!(s.last_time, 31);
    assert_eq!(log.total_5ks(), 2);
}
