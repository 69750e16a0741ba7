use geoguessr_tracker::attempts_log::{AttemptsLog, RoundResult};

#[test]
fn calculated_scores_follow_totals() {
    let mut log = AttemptsLog::new();
    assert_eq!(log.add_entry_calculated(4000), RoundResult::Added { score: 4000 });
    assert_eq!(log.add_entry_calculated(9000), RoundResult::Added { score: 5000 });
    assert_eq!(log.total_score(), 9000);
    assert!(log.get(1).unwrap().success);
    assert_eq!(log.add_entry_calculated(3000), RoundResult::Added { score: 3000 });
    assert_eq!(log.add_entry_calculated(2999), RoundResult::Added { score: 2999 });
    assert_eq!(log.len(), 4);
}

#[test]
fn calculated_impossible_scores_are_refused() {
    let mut log = AttemptsLog::new();
    assert_eq!(log.add_entry_calculated(20000), RoundResult::Inconsistent);
    assert_eq!(log.len(), 0);
    assert_eq!(log.total_score(), 0);
    assert_eq!(log.add_entry_calculated(5000), RoundResult::Added { score: 5000 });
    assert_eq!(log.add_entry_calculated(10001), RoundResult::Inconsistent);
    assert_eq!(log.add_entry_calculated(10000), RoundResult::Added { score: 5000 });
    assert_eq!(log.add_entry_calculated(6000), RoundResult::Inconsistent);
    assert_eq!(log.len(), 2);
    assert_eq!(log.total_score(), 10000);
}

#[test]
fn direct_scores_must_match_totals() {
    let mut log = AttemptsLog::new();
    assert_eq!(log.add_entry_direct(3000, 3000), RoundResult::Added { score: 3000 });
    assert_eq!(log.add_entry_direct(1000, 5000), RoundResult::Inconsistent);
    assert_eq!(log.add_entry_direct(2000, 5000), RoundResult::Added { score: 2000 });
    assert_eq!(log.add_entry_direct(4000, 4000), RoundResult::Added { score: 4000 });
    assert_eq!(log.add_entry_direct(100, 200), RoundResult::Inconsistent);
    assert_eq!(log.add_entry_direct(6000, 10000), RoundResult::Inconsistent);
    assert_eq!(log.len(), 3);
    assert_eq!(log.total_score(), 4000);
}

#[test]
fn fix_previous_round() {
    let mut log = AttemptsLog::new();
    assert_eq!(log.fix_prev_entry(5000), Err(()));
    log.add_entry_calculated(100);
    assert_eq!(log.fix_prev_entry(5000), Ok(()));
    let round = log.get(0).unwrap();
    assert_eq!(round.score, 5000);
    assert!(round.success);
    assert_eq!(log.total_score(), 100);
    assert_eq!(log.get(1), None);
}

#[test]
fn stats_count_rounds() {
    let mut log = AttemptsLog::new();
    assert_eq!(log.stats().last_time, None);
    log.add_entry_calculated(5000);
    log.add_entry_calculated(8000);
    log.add_entry_calculated(4500);
    let stats = log.stats();
    assert_eq!(stats.success_count, 1);
    assert_eq!(stats.miss_count, 2);
    assert_eq!(stats.total_score, 12500);
    assert!(stats.last_time.is_some());
}
