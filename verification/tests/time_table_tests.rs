use filehandler::time_table::{ChunkSizeReport, TimeTable};

fn table(times: Vec<u64>) -> TimeTable {
    TimeTable::new(times).expect("timestamps in order")
}

#[test]
fn three_hundred_unit_steps_give_window_of_128() {
    let t = table((0..300u64).collect());
    let report = t.analyze().unwrap();
    assert_eq!(
        report,
        ChunkSizeReport { min_span: 128, extended_end: 300, event_count: 300 }
    );
}

#[test]
fn short_table_reports_final_timestamp() {
    let t = table(vec![3, 9, 40]);
    let report = t.analyze().unwrap();
    assert_eq!(report.min_span, 40);
    assert_eq!(report.event_count, 3);
    // ceil(40 / 3) = 14
    assert_eq!(report.extended_end, 54);
}

#[test]
fn table_of_exactly_128_events_reports_final_timestamp() {
    let t = table((0..128u64).map(|i| i * 5).collect());
    let report = t.analyze().unwrap();
    assert_eq!(report.min_span, 127 * 5);
}

#[test]
fn table_of_129_events_uses_the_one_window() {
    let t = table((0..129u64).map(|i| i * 5).collect());
    let report = t.analyze().unwrap();
    assert_eq!(report.min_span, 128 * 5);
}

#[test]
fn tightest_window_is_found_in_the_middle() {
    // steps of 10, but 128 steps of 2 in the middle
    let mut times: Vec<u64> = Vec::new();
    let mut now: u64 = 0;
    for i in 0..400u64 {
        times.push(now);
        now += if (150..278).contains(&i) { 2 } else { 10 };
    }
    let report = table(times).analyze().unwrap();
    assert_eq!(report.min_span, 256);
}

#[test]
fn heuristic_is_never_below_one() {
    let t = table(vec![7; 200]);
    let report = t.analyze().unwrap();
    assert_eq!(report.min_span, 1);
    assert_eq!(report.extended_end, 8);
}

#[test]
fn extended_end_adds_at_least_one() {
    let report = table(vec![0, 0, 0]).analyze().unwrap();
    assert_eq!(report.extended_end, 1);
    let report = table(vec![0, 10]).analyze().unwrap();
    assert_eq!(report.extended_end, 15);
    let report = table(vec![1, 2, 7]).analyze().unwrap();
    // ceil(7 / 3) = 3
    assert_eq!(report.extended_end, 10);
}

#[test]
fn empty_table_has_no_report() {
    assert!(table(Vec::new()).analyze().is_none());
}

#[test]
fn extended_end_beyond_64_bits_is_reported_as_the_largest_time() {
    // one event: the step is the final timestamp itself
    let report = table(vec![u64::MAX / 2]).analyze().unwrap();
    assert_eq!(report.extended_end, u64::MAX - 1);
    let report = table(vec![u64::MAX / 2 + 1]).analyze().unwrap();
    assert_eq!(report.extended_end, u64::MAX);
    let report = table(vec![u64::MAX]).analyze().unwrap();
    assert_eq!(report.extended_end, u64::MAX);
    assert_eq!(report.min_span, u64::MAX);
    assert_eq!(report.event_count, 1);
}

#[test]
fn short_table_near_the_largest_time_reports_its_final_timestamp() {
    let times: Vec<u64> = (0..128u64).map(|i| u64::MAX - 127 + i).collect();
    let report = table(times).analyze().unwrap();
    assert_eq!(report.min_span, u64::MAX);
    assert_eq!(report.extended_end, u64::MAX);
    assert_eq!(report.event_count, 128);
}

#[test]
fn timestamps_that_go_back_are_no_table() {
    assert!(TimeTable::new(vec![0, 5, 4]).is_none());
    assert!(TimeTable::new(vec![0, 5, 5]).is_some());
}

#[test]
fn lookup_by_time_index() {
    let t = table(vec![2, 4, 8]);
    assert_eq!(t.len(), 3);
    assert_eq!(t.get(1), Some(4));
    assert_eq!(t.get(3), None);
}
