use filehandler::time_table::TimeTable;
use filehandler::transitions::{EncodeError, SignalChanges, Transition};
use filehandler::values::{split_ranges, value_at_time, values_at_time, PathRequest};

fn change(time_index: u32, value: &str) -> Transition {
    Transition { time_index, value: value.to_string() }
}

fn top_a() -> SignalChanges {
    SignalChanges {
        signal_id: 3,
        width: 1,
        changes: vec![change(0, "0"), change(1, "1"), change(2, "0")],
    }
}

fn request(path: &str, signal_id: u32) -> PathRequest {
    PathRequest { path: path.to_string(), signal_id }
}

#[test]
fn value_at_time_5_of_top_a() {
    let table = TimeTable::new(vec![0, 4, 9]).unwrap();
    let text = values_at_time(5, &vec![request("top.a", 3)], &vec![top_a()], &table).unwrap();
    assert_eq!(
        String::from_utf8(text).unwrap(),
        "[{\"instancePath\":\"top.a\",\"value\":\"[\\\"1\\\"]\"}]"
    );
}

fn at(times: Vec<u64>, changes: &Vec<Transition>, query: u64) -> String {
    value_at_time(changes, &TimeTable::new(times).unwrap(), query).unwrap()
}

#[test]
fn value_on_a_transition_reports_prior_and_current() {
    let changes = top_a().changes;
    assert_eq!(at(vec![0, 4, 9], &changes, 4), "[\"0\",\"1\"]");
    assert_eq!(at(vec![0, 4, 9], &changes, 9), "[\"1\",\"0\"]");
}

#[test]
fn value_on_the_first_transition_reports_it_alone() {
    let changes = top_a().changes;
    assert_eq!(at(vec![2, 4, 9], &changes, 2), "[\"0\"]");
}

#[test]
fn value_before_the_first_transition_is_empty() {
    let changes = top_a().changes;
    assert_eq!(at(vec![2, 4, 9], &changes, 1), "[]");
    assert_eq!(at(Vec::new(), &Vec::new(), 1), "[]");
}

#[test]
fn value_behind_the_last_transition_is_the_last() {
    let changes = top_a().changes;
    assert_eq!(at(vec![0, 4, 9], &changes, 1000), "[\"0\"]");
    assert_eq!(at(vec![0, 4, 9], &changes, 8), "[\"1\"]");
}

#[test]
fn results_are_keyed_by_path_signal_by_signal() {
    let table = TimeTable::new(vec![0, 4, 9]).unwrap();
    let b = SignalChanges { signal_id: 1, width: 2, changes: vec![change(1, "zz")] };
    let requests = vec![request("top.a", 3), request("top.b", 1), request("top.alias", 3)];
    let text = values_at_time(4, &requests, &vec![b, top_a()], &table).unwrap();
    assert_eq!(
        String::from_utf8(text).unwrap(),
        "[{\"instancePath\":\"top.b\",\"value\":\"[\\\"zz\\\"]\"},\
         {\"instancePath\":\"top.a\",\"value\":\"[\\\"0\\\",\\\"1\\\"]\"},\
         {\"instancePath\":\"top.alias\",\"value\":\"[\\\"0\\\",\\\"1\\\"]\"}]"
    );
}

#[test]
fn no_resolved_path_gives_the_empty_array() {
    let table = TimeTable::new(vec![0, 4, 9]).unwrap();
    let text = values_at_time(4, &Vec::new(), &vec![top_a()], &table).unwrap();
    assert_eq!(text, b"[]".to_vec());
    let text = values_at_time(4, &vec![request("top.a", 8)], &vec![top_a()], &table).unwrap();
    assert_eq!(text, b"[]".to_vec());
}

#[test]
fn values_with_a_time_index_outside_the_table_fail() {
    let table = TimeTable::new(vec![0, 4]).unwrap();
    let r = values_at_time(4, &vec![request("top.a", 3)], &vec![top_a()], &table);
    assert_eq!(r.err(), Some(EncodeError::TimeIndexOutOfRange));
}

#[test]
fn paths_are_cut_at_blanks_and_dots() {
    let paths = "top.u0.clk top.a";
    assert_eq!(split_ranges(paths.as_bytes(), b' '), vec![(0, 10), (11, 16)]);
    assert_eq!(split_ranges(b"top.u0.clk", b'.'), vec![(0, 3), (4, 6), (7, 10)]);
    assert_eq!(split_ranges(b"clk", b'.'), vec![(0, 3)]);
}

#[test]
fn neighbouring_delimiters_have_an_empty_piece_between_them() {
    assert_eq!(split_ranges(b"a  b", b' '), vec![(0, 1), (2, 2), (3, 4)]);
    assert_eq!(split_ranges(b" a ", b' '), vec![(0, 0), (1, 2), (3, 3)]);
    assert_eq!(split_ranges(b"", b' '), vec![(0, 0)]);
    assert_eq!(split_ranges(b".", b'.'), vec![(0, 0), (1, 1)]);
}

#[test]
fn value_of_a_signal_outside_the_table_is_nothing() {
    let table = TimeTable::new(vec![0, 4]).unwrap();
    assert_eq!(value_at_time(&top_a().changes, &table, 0), None);
}
