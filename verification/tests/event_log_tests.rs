use forge_watch::event_log::{EventLog, LOG_CAPACITY, LOG_EVICTED};

fn filled(n: usize) -> EventLog {
    let mut log = EventLog::new();
    for i in 1..=n {
        assert_eq!(log.push(format!("e{i}")), i as u64);
    }
    log
}

fn numbers(log: &EventLog, after: u64) -> Vec<u64> {
    log.since(after).into_iter().map(|(seq, _)| seq).collect()
}

#[test]
fn empty_log_has_no_events() {
    let log = EventLog::new();
    assert_eq!(log.next_seq(), 1);
    assert!(log.since(0).is_empty());
    assert!(log.since(u64::MAX).is_empty());
}

#[test]
fn numbers_start_at_one() {
    let log = filled(3);
    assert_eq!(log.next_seq(), 4);
    assert_eq!(log.since(0), vec![(1, "e1"), (2, "e2"), (3, "e3")]);
}

#[test]
fn since_gives_the_newer_events() {
    let log = filled(5);
    assert_eq!(log.since(3), vec![(4, "e4"), (5, "e5")]);
    assert_eq!(log.since(4), vec![(5, "e5")]);
    assert!(log.since(5).is_empty());
    assert!(log.since(99).is_empty());
}

#[test]
fn up_to_date_reader_gets_the_new_event() {
    let mut log = filled(7);
    let seq = log.push("new".to_string());
    assert_eq!(log.since(seq - 1), vec![(8, "new")]);
}

#[test]
fn full_log_keeps_everything() {
    let log = filled(LOG_CAPACITY);
    assert_eq!(LOG_CAPACITY, 10_000);
    assert_eq!(numbers(&log, 0).len(), 10_000);
    assert_eq!(numbers(&log, 0)[0], 1);
}

#[test]
fn overfull_log_loses_its_oldest() {
    let log = filled(LOG_CAPACITY + 1);
    assert_eq!(LOG_EVICTED, 5_000);
    let kept = log.since(0);
    assert_eq!(kept.len(), 5_001);
    assert_eq!(kept[0], (5_001, "e5001"));
    assert_eq!(kept[5_000], (10_001, "e10001"));
    assert_eq!(numbers(&log, 10_000), vec![10_001]);
}

#[test]
fn numbers_go_on_after_eviction() {
    let mut log = filled(LOG_CAPACITY + 1);
    assert_eq!(log.push("next".to_string()), 10_002);
    let kept = numbers(&log, 0);
    assert!(kept.windows(2).all(|pair| pair[1] == pair[0] + 1));
    assert_eq!(kept.len(), 5_002);
    let log = filled(15_001);
    let kept = numbers(&log, 0);
    assert_eq!(kept.len(), 5_001);
    assert_eq!(kept[0], 10_001);
}
