use pulsync::recurrence::{every, RecurrenceCast, RecurrenceUnit};
use pulsync::time::{Timestamp, MAX_SECS, MIN_SECS};

#[test]
fn casts_give_seconds() {
    assert_eq!(5u64.seconds().as_secs(), 5);
    assert_eq!(2u64.minutes().as_secs(), 120);
    assert_eq!(3u64.hours().as_secs(), 10_800);
    assert_eq!(3u64.days().as_secs(), 259_200);
    assert_eq!(1u64.weeks().as_secs(), 604_800);
    assert_eq!(1u64.months().as_secs(), 2_592_000);
    assert_eq!(1u64.years().as_secs(), 31_536_000);
    assert_eq!(*7u64.seconds(), 7);
}

#[test]
fn minutes_are_sixty_seconds() {
    assert_eq!(4u64.minutes(), 240u64.seconds());
    assert_eq!(1u64.days(), 24u64.hours());
}

#[test]
fn every_starts_without_count_or_limit() {
    let r = every(1u64.seconds());
    assert_eq!(r.unit, RecurrenceUnit::from_secs(1));
    assert!(!r.run_after);
    assert_eq!(r.count, None);
    assert!(r.limit.is_none());
    assert!(r.limit_datetime.is_none());
}

#[test]
fn and_adds_units() {
    let r = every(1u64.minutes()).and(2u64.seconds());
    assert_eq!(r.unit.as_secs(), 62);
}

#[test]
fn builders_set_fields() {
    let deadline = Timestamp::from_parts(1_767_225_600, 0).unwrap();
    let r = every(3u64.seconds())
        .count(3)
        .run_after(true)
        .until(10u64.seconds())
        .until_datetime(deadline);
    assert_eq!(r.unit.as_secs(), 3);
    assert_eq!(r.count, Some(3));
    assert!(r.run_after);
    assert_eq!(r.limit, Some(RecurrenceUnit::from_secs(10)));
    assert_eq!(r.limit_datetime, Some(deadline));
}

#[test]
fn timestamps_order_and_measure() {
    let a = Timestamp::from_parts(10, 500_000_000).unwrap();
    let b = Timestamp::from_parts(12, 400_000_000).unwrap();
    assert!(a.is_at_or_before(&b));
    assert!(!b.is_at_or_before(&a));
    assert!(a.is_at_or_before(&a));
    assert_eq!(b.whole_seconds_since(&a), 1);
    assert_eq!(a.whole_seconds_since(&b), -1);
    assert_eq!(b.whole_seconds_since(&b), 0);
}

#[test]
fn timestamps_out_of_range_are_refused() {
    assert!(Timestamp::from_parts(i64::MAX, 0).is_none());
    assert!(Timestamp::from_parts(0, 2_000_000_000).is_none());
    let leap = Timestamp::from_parts(59, 1_500_000_000).unwrap();
    assert_eq!(leap.nanos(), 1_500_000_000);
    assert_eq!(leap.secs(), 59);
    assert!(Timestamp::from_parts(58, 1_500_000_000).is_none());
}

#[test]
fn leap_seconds_are_kept() {
    let leap = Timestamp::from_parts(59, 1_500_000_000).unwrap();
    let last = Timestamp::from_parts(59, 999_999_999).unwrap();
    let next = Timestamp::from_parts(60, 0).unwrap();
    assert!(last.is_at_or_before(&leap));
    assert!(!leap.is_at_or_before(&last));
    assert!(leap.is_at_or_before(&next));
    assert_eq!(next.whole_seconds_since(&leap), 0);
    assert_eq!(leap.whole_seconds_since(&next), 0);
    assert_eq!(Timestamp::from_parts(61, 0).unwrap().whole_seconds_since(&leap), 1);
    let a = every(1u64.seconds()).until_datetime(leap);
    let b = every(1u64.seconds()).until_datetime(last);
    assert_ne!(pulsync::task::task_id("T", &a, ""), pulsync::task::task_id("T", &b, ""));
}

#[test]
fn date_text_names_the_day() {
    assert_eq!(Timestamp::from_parts(0, 0).unwrap().date_text(), "1970-01-01");
    assert_eq!(Timestamp::from_parts(86_400, 0).unwrap().date_text(), "1970-01-02");
    assert_eq!(Timestamp::from_parts(1_767_225_600, 0).unwrap().date_text(), "2026-01-01");
    assert_eq!(Timestamp::from_parts(-1, 0).unwrap().date_text(), "1969-12-31");
}

#[test]
fn calendar_ends() {
    assert_eq!(Timestamp::from_parts(MIN_SECS, 0).unwrap().date_text(), "-262143-01-01");
    assert_eq!(Timestamp::from_parts(MAX_SECS, 0).unwrap().date_text(), "+262142-12-31");
    assert!(Timestamp::from_parts(MIN_SECS - 1, 0).is_none());
    assert!(Timestamp::from_parts(MAX_SECS + 1, 0).is_none());
}
