use vocab::models::Session;
use vocab::stats::{clock, is_good_accuracy, minutes_and_seconds, summary_totals, totals_fit};

fn session(acc: i32, dur: i32) -> Session {
    Session {
        id: 1,
        bank_name: "B".to_string(),
        mode: "quiz".to_string(),
        total: 1,
        remembered: 1,
        forgotten: 0,
        accuracy: acc,
        duration: dur,
        date: 0,
    }
}

#[test]
fn totals() {
    let t = summary_totals(&vec![]);
    assert_eq!((t.session_count, t.accuracy_sum, t.total_minutes), (0, 0, 0));
    let ss = vec![session(80, 100), session(50, 30), session(100, 59)];
    assert!(totals_fit(&ss));
    let t = summary_totals(&ss);
    assert_eq!((t.session_count, t.accuracy_sum, t.total_minutes), (3, 230, 3));
}

#[test]
fn totals_that_overflow_are_detected() {
    assert!(!totals_fit(&vec![session(i32::MAX, 0), session(1, 0)]));
    assert!(!totals_fit(&vec![session(0, i32::MIN), session(0, -1)]));
    assert!(totals_fit(&vec![session(i32::MAX, 0), session(-1, 0), session(1, 0)]));
}

#[test]
fn clocks() {
    let c = clock(3725);
    assert_eq!((c.hours, c.minutes, c.seconds), (1, 2, 5));
    let c = clock(59);
    assert_eq!((c.hours, c.minutes, c.seconds), (0, 0, 59));
    let c = clock(-61);
    assert_eq!((c.hours, c.minutes, c.seconds), (0, -1, -1));
    for e in [0i64, 1, 59, 60, 3599, 3600, 86399, 123456] {
        let c = clock(e);
        assert_eq!(c.hours * 3600 + c.minutes * 60 + c.seconds, e);
        assert!((0..60).contains(&c.minutes) && (0..60).contains(&c.seconds));
    }
}

#[test]
fn minutes_seconds() {
    assert_eq!(minutes_and_seconds(125), (2, 5));
    assert_eq!(minutes_and_seconds(-61), (-1, -1));
}

#[test]
fn good_accuracy() {
    assert!(is_good_accuracy(80));
    assert!(!is_good_accuracy(79));
}
