use geoguessr_tracker::ledger::LogEntries;
use geoguessr_tracker::marathon_log::MarathonLog;
use geoguessr_tracker::persistence::{first_free_slot, SlotPool, SlotProbe, SAVE_SLOT_COUNT};
use std::collections::HashSet;

#[test]
fn slot_names_follow_pattern() {
    let pool = SlotPool::session_files();
    assert_eq!(pool.count(), SAVE_SLOT_COUNT);
    assert_eq!(pool.slot_name(0), "data0.ron");
    assert_eq!(pool.slot_name(19), "data19.ron");
    let names = pool.slot_names();
    assert_eq!(names.len(), 20);
    assert_eq!(names[7], "data7.ron");
    let custom = SlotPool::new("run-", ".txt", 3);
    assert_eq!(custom.slot_names(), vec!["run-0.txt", "run-1.txt", "run-2.txt"]);
}

#[test]
fn first_free_slot_skips_taken_and_unreadable() {
    assert_eq!(first_free_slot(&vec![SlotProbe::Taken, SlotProbe::Unreadable, SlotProbe::Free, SlotProbe::Free]), Some(2));
    assert_eq!(first_free_slot(&vec![SlotProbe::Free]), Some(0));
    assert_eq!(first_free_slot(&vec![SlotProbe::Taken, SlotProbe::Unreadable]), None);
    assert_eq!(first_free_slot(&vec![]), None);
}

#[test]
fn repeated_saves_run_out_of_slots() {
    let pool = SlotPool::session_files();
    let names = pool.slot_names();
    let mut existing: HashSet<String> = HashSet::new();
    let mut saved = 0;
    let mut exhausted = false;
    for _ in 0..25 {
        let probes: Vec<SlotProbe> = names
            .iter()
            .map(|n| if existing.contains(n) { SlotProbe::Taken } else { SlotProbe::Free })
            .collect();
        match first_free_slot(&probes) {
            Some(i) => {
                assert!(!exhausted);
                existing.insert(names[i].clone());
                saved += 1;
            }
            None => exhausted = true,
        }
    }
    assert_eq!(saved, 20);
    assert!(exhausted);
}

#[test]
fn save_then_load_keeps_entries() {
    let mut log = MarathonLog::new(86400);
    log.record_at(3000, 10);
    log.record_at(5000, 40);
    log.record_at(4000, 70);
    let saved = log.to_entries();
    let text = ron::to_string(&(saved.scores, saved.times)).unwrap();
    let (scores, times): (Vec<u16>, Vec<u32>) = ron::from_str(&text).unwrap();
    let mut restored = MarathonLog::new(86400);
    restored.record_at(1, 1);
    assert!(restored.load_entries(LogEntries { scores, times }).is_ok());
    assert_eq!(restored.len(), 3);
    for i in 0..3 {
        assert_eq!(restored.entry(i), log.entry(i));
    }
    assert_eq!(restored.total_5ks(), 0);
    assert_eq!(restored.add_up_5ks(), 1);
    restored.resync();
    assert_eq!(restored.total_5ks(), 1);
}
