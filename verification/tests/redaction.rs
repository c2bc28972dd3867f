use desktop_recorder::ranges::{merge, PrivateRange};
use desktop_recorder::redact::{filter_log_lines, validate_ranges, RedactionError};

fn range(start: i64, end: i64) -> PrivateRange {
    PrivateRange { start, end }
}

#[test]
fn merge_overlapping_pair() {
    let merged = merge(vec![range(0, 10), range(5, 15), range(20, 25)]);
    assert_eq!(merged, vec![range(0, 15), range(20, 25)]);
}

#[test]
fn merge_unsorted_and_touching() {
    let merged = merge(vec![range(20, 30), range(0, 5), range(5, 10)]);
    assert_eq!(merged, vec![range(0, 10), range(20, 30)]);
}

#[test]
fn merge_is_sorted_and_disjoint() {
    let merged = merge(vec![range(50, 60), range(10, 20), range(15, 30), range(-5, 3)]);
    assert_eq!(merged, vec![range(-5, 3), range(10, 30), range(50, 60)]);
    for w in merged.windows(2) {
        assert!(w[0].end < w[1].start);
    }
}

#[test]
fn merge_empty_is_empty() {
    let merged = merge(Vec::new());
    assert!(merged.is_empty());
}

#[test]
fn validate_accepts_ordered_pairs() {
    let rs = validate_ranges(&vec![(0, 10), (5, 7)]).unwrap();
    assert_eq!(rs, vec![range(0, 10), range(5, 7)]);
}

#[test]
fn validate_rejects_inverted_pair() {
    let err = validate_ranges(&vec![(0, 10), (7, 7)]).unwrap_err();
    assert_eq!(err, RedactionError::MalformedRange { index: 1 });
}

fn line(time: i64, tag: &str) -> String {
    format!("{{\"event\":\"{}\",\"data\":{{}},\"time\":{}}}", tag, time)
}

#[test]
fn filter_drops_exactly_the_private_line() {
    // lines at relative times -5, 0, 1200 and 3000 around the session zero;
    // the reference is the first line's own time
    let lines = vec![
        line(-5, "a"),
        line(0, "b"),
        line(1200, "c"),
        line(3000, "d"),
        "{\"event\":\"e\",\"data\":{}}".to_string(),
    ];
    let out = filter_log_lines(&lines, &vec![range(1000, 2000)]).unwrap();
    assert_eq!(
        out,
        vec![
            line(-5, "a"),
            line(0, "b"),
            line(3000, "d"),
            "{\"event\":\"e\",\"data\":{}}".to_string(),
        ]
    );
}

#[test]
fn filter_with_no_ranges_keeps_every_line() {
    let lines = vec![line(100, "a"), line(250, "b"), "{\"x\":1}".to_string()];
    let out = filter_log_lines(&lines, &Vec::new()).unwrap();
    assert_eq!(out, lines);
}

#[test]
fn filter_passes_empty_lines_through() {
    // an empty line has no time field, so it is never dropped, whatever
    // the ranges say
    let lines = vec!["".to_string(), line(0, "a"), "".to_string(), line(5, "b")];
    let out = filter_log_lines(&lines, &vec![range(-100, 10_000)]).unwrap();
    assert_eq!(out, vec!["".to_string(), "".to_string()]);
}

#[test]
fn empty_range_list_is_the_identity() {
    // identity redaction: with no ranges declared the output equals the
    // input line for line, blank lines included
    let lines = vec![
        line(100, "a"),
        "".to_string(),
        line(250, "b"),
        "".to_string(),
        "{\"x\":1}".to_string(),
    ];
    let out = filter_log_lines(&lines, &Vec::new()).unwrap();
    assert_eq!(out, lines);
}

#[test]
fn filter_reports_the_first_malformed_line() {
    let lines = vec![line(0, "a"), "not json".to_string(), line(9, "b")];
    let err = filter_log_lines(&lines, &Vec::new()).unwrap_err();
    assert_eq!(err, RedactionError::MalformedLogLine { index: 1 });
}

#[test]
fn filter_keeps_lines_without_time() {
    let lines = vec![line(0, "a"), "{\"event\":\"x\"}".to_string(), line(50, "b")];
    let out = filter_log_lines(&lines, &vec![range(-100, 10_000)]).unwrap();
    // every timed line is private here, but the untimed one survives
    assert_eq!(out, vec!["{\"event\":\"x\"}".to_string()]);
}
