use vorgon::timing::advance_clock;
use vorgon::{timest, timex};

#[test]
fn advance_clock_moves_the_timestamp() {
    let mut last: i64 = 1_000;
    assert_eq!(advance_clock(&mut last, 1_250), 250);
    assert_eq!(last, 1_250);
    let mut last: i64 = i64::MIN;
    assert_eq!(advance_clock(&mut last, 1), i64::MIN + 1);
}

#[test]
fn timex_records_each_duration() {
    let mut last: i64 = 0;
    let _ = timest(&mut last);
    assert!(last > 0);
    let mut durations = Vec::new();
    let before = last;
    let d = timex(&mut last, &mut durations);
    assert_eq!(durations, vec![d]);
    assert_eq!(d, (last - before) as u32);
    timex(&mut last, &mut durations);
    assert_eq!(durations.len(), 2);
}
