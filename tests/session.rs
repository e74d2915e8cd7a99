use pomo::app::App;
use pomo::phase::Phase;
use std::time::{Duration, Instant};

/// Waits `ms` milliseconds by watching the monotonic clock.
fn sleep(ms: u64) {
    let from = Instant::now();
    while from.elapsed() < Duration::from_millis(ms) {}
}

#[test]
fn test_punch_in_out() {
    let mut app = App::new();
    // no divisions, no current division
    assert_eq!(app.divisions.len(), 0);
    assert_eq!(app.current_division, None);
    // start tracking
    app.punch_in();
    // this starts a division
    assert_ne!(app.current_division, None);
    // stop tracking
    app.punch_out();
    // this finishes the current division and adds it to the divisions vec
    assert_eq!(app.current_division, None);
    assert_eq!(app.divisions.len(), 1);
}

#[test]
fn test_calc_duration_from_division() {
    let mut app = App::new();
    app.punch_in();
    sleep(1);
    app.punch_out();
    assert!(app.duration() > 0);
}

#[test]
fn test_punch_in_multiple_times() {
    let mut app = App::new();
    // no div at first
    assert!(app.current_division.is_none());
    app.punch_in();
    assert!(app.current_division.is_some());
    // nothing should change on second punch in
    let first_card = app.current_division.clone();
    app.punch_in();
    assert_eq!(first_card, app.current_division);
    assert_eq!(app.divisions.len(), 0)
}

#[test]
fn test_multiple_in_out_duration_correct() {
    let mut app = App::new();
    let now = Instant::now();
    app.punch_in();
    sleep(5);
    app.punch_out();
    app.punch_in();
    sleep(50);
    app.punch_out();
    // should be 55ish ms of gap
    let dur = now.elapsed().as_nanos() as f64 / 1e9;
    let appdur = app.duration() as f64 / 1e9;
    let diff = dur - appdur;
    assert!(diff > 0.0);
}

#[test]
fn test_duration_increases_when_card_open() {
    let mut app = App::new();
    app.punch_in();
    sleep(1);
    let d1 = app.duration();
    sleep(1);
    assert_eq!(app.divisions.len(), 0);
    assert!(d1 < app.duration());
}

#[test]
fn one_interval_counts_its_time() {
    let mut app = App::new();
    app.punch_in();
    sleep(1);
    app.punch_out();
    assert_eq!(app.divisions.len(), 1);
    assert!(app.duration() >= 1_000_000);
    assert!(!app.is_punched_in());
}

#[test]
fn second_punch_in_keeps_the_start() {
    let mut app = App::new();
    app.punch_in();
    let start = app.current_division.as_ref().unwrap().start();
    sleep(1);
    app.punch_in();
    assert_eq!(app.divisions.len(), 0);
    assert!(app.is_punched_in());
    assert_eq!(app.current_division.as_ref().unwrap().start(), start);
}

#[test]
fn two_intervals_add_up_to_about_their_waits() {
    let mut app = App::new();
    app.punch_in();
    sleep(5);
    app.punch_out();
    app.punch_in();
    sleep(50);
    app.punch_out();
    assert_eq!(app.divisions_count(), 2);
    let total = app.duration();
    assert!(total >= 55_000_000);
    assert!(total < 1_000_000_000);
    let sum: u64 = app.divisions.iter().map(|d| d.duration()).sum();
    assert_eq!(total, sum);
}

#[test]
fn punch_out_without_punch_in_is_harmless() {
    let mut app = App::new();
    app.punch_out();
    assert_eq!(app.divisions.len(), 0);
    assert!(!app.is_punched_in());
    assert_eq!(app.duration(), 0);
}

#[test]
fn fresh_session_is_idle() {
    let app = App::default();
    assert!(!app.is_punched_in());
    assert_eq!(app.divisions_count(), 0);
    assert!(!app.should_quit);
    assert_eq!(app.phase, Phase::Work);
}

#[test]
fn explicit_times_give_exact_totals() {
    let mut app = App::new();
    app.punch_in_at(100);
    app.punch_out_at(150);
    app.punch_in_at(200);
    assert_eq!(app.duration_at(230), 80);
    app.punch_in_at(210);
    assert_eq!(app.current_division.as_ref().unwrap().start(), 200);
    app.punch_out_at(260);
    assert_eq!(app.divisions_count(), 2);
    assert_eq!(app.divisions[1].start(), 200);
    assert_eq!(app.divisions[1].end(), 260);
    assert_eq!(app.duration_at(1_000), 110);
}

#[test]
fn total_grows_while_punched_in() {
    let mut app = App::new();
    app.punch_in_at(10);
    app.punch_out_at(20);
    app.punch_in_at(30);
    let a = app.duration_at(40);
    let b = app.duration_at(41);
    assert_eq!(a, 20);
    assert!(a < b);
    // a reading before the open interval's start adds nothing for it
    assert_eq!(app.duration_at(5), 10);
}

#[test]
fn punched_in_follows_unmatched_punch_ins() {
    let mut app = App::new();
    app.punch_in_at(1);
    app.punch_in_at(2);
    assert!(app.is_punched_in());
    app.punch_out_at(3);
    assert!(!app.is_punched_in());
    app.punch_out_at(4);
    assert!(!app.is_punched_in());
    app.punch_in_at(5);
    assert!(app.is_punched_in());
    assert_eq!(app.divisions_count(), 1);
}

#[test]
fn punch_out_before_start_closes_empty() {
    let mut app = App::new();
    app.punch_in_at(500);
    app.punch_out_at(400);
    assert_eq!(app.divisions[0].start(), 500);
    assert_eq!(app.divisions[0].end(), 500);
    assert_eq!(app.duration_at(600), 0);
}

#[test]
fn total_saturates_at_the_largest_value() {
    let mut app = App::new();
    app.punch_in_at(0);
    app.punch_out_at(u64::MAX);
    app.punch_in_at(0);
    assert_eq!(app.duration_at(10), u64::MAX);
}
