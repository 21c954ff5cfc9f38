use yuri_every_hour_bot::time::{
    Timestamp, APPROVAL_TTL, MAX_MICROS, MICROS_PER_DAY, MICROS_PER_SECOND, MIN_MICROS,
};

fn at(micros: i64) -> Timestamp {
    Timestamp::from_micros(micros).unwrap()
}

#[test]
fn timestamp_round_trips() {
    assert_eq!(at(1_000_000).micros(), 1_000_000);
    assert_eq!(at(-5).micros(), -5);
    assert_eq!(at(0).micros(), 0);
}

#[test]
fn constants_have_their_values() {
    assert_eq!(MICROS_PER_SECOND, 1_000_000);
    assert_eq!(MICROS_PER_DAY, 86_400_000_000);
    assert_eq!(APPROVAL_TTL, 24 * 60 * 60 * 1_000_000);
}

#[test]
fn range_is_that_of_the_calendar() {
    assert_eq!(chrono::DateTime::<chrono::Utc>::MIN_UTC.timestamp_micros(), MIN_MICROS);
    assert_eq!(chrono::DateTime::<chrono::Utc>::MAX_UTC.timestamp_micros(), MAX_MICROS);
    assert!(chrono::DateTime::from_timestamp_micros(MIN_MICROS).is_some());
    assert!(chrono::DateTime::from_timestamp_micros(MAX_MICROS).is_some());
    assert!(chrono::DateTime::from_timestamp_micros(MIN_MICROS - 1).is_none());
    assert!(chrono::DateTime::from_timestamp_micros(MAX_MICROS + 1).is_none());
}

#[test]
fn from_micros_accepts_exactly_the_range() {
    assert!(Timestamp::from_micros(MIN_MICROS).is_some());
    assert!(Timestamp::from_micros(MAX_MICROS).is_some());
    assert!(Timestamp::from_micros(MIN_MICROS - 1).is_none());
    assert!(Timestamp::from_micros(MAX_MICROS + 1).is_none());
    assert!(Timestamp::from_micros(i64::MIN).is_none());
    assert!(Timestamp::from_micros(i64::MAX).is_none());
}

#[test]
fn days_since_counts_whole_days() {
    let start = at(1_700_000_000_000_000);
    assert_eq!(at(start.micros()).days_since(&start), 0);
    assert_eq!(at(start.micros() + MICROS_PER_DAY - 1).days_since(&start), 0);
    assert_eq!(at(start.micros() + MICROS_PER_DAY).days_since(&start), 1);
    assert_eq!(at(start.micros() + 2 * MICROS_PER_DAY + 1).days_since(&start), 2);
    assert_eq!(at(start.micros() + 10 * MICROS_PER_DAY - 1).days_since(&start), 9);
}

#[test]
fn days_since_rounds_towards_zero() {
    let start = at(1_700_000_000_000_000);
    assert_eq!(at(start.micros() - 1).days_since(&start), 0);
    assert_eq!(at(start.micros() - MICROS_PER_DAY + 1).days_since(&start), 0);
    assert_eq!(at(start.micros() - MICROS_PER_DAY).days_since(&start), -1);
    assert_eq!(at(start.micros() - 3 * MICROS_PER_DAY - 5).days_since(&start), -3);
}

#[test]
fn days_since_spans_the_whole_range() {
    let first = at(MIN_MICROS);
    let last = at(MAX_MICROS);
    let span = MAX_MICROS as i128 - MIN_MICROS as i128;
    assert_eq!(last.days_since(&first) as i128, span / MICROS_PER_DAY as i128);
    assert_eq!(first.days_since(&last) as i128, -(span / MICROS_PER_DAY as i128));
}

#[test]
fn days_since_across_the_epoch() {
    assert_eq!(at(MICROS_PER_DAY / 2).days_since(&at(-MICROS_PER_DAY / 2)), 1);
    assert_eq!(at(MICROS_PER_DAY / 2 - 1).days_since(&at(-MICROS_PER_DAY / 2)), 0);
}

#[test]
fn now_is_past_the_epoch_and_follows_the_clock() {
    let before = chrono::Utc::now().timestamp_micros();
    let now = Timestamp::now();
    let after = chrono::Utc::now().timestamp_micros();
    assert!(now.micros() >= 0);
    assert!(before <= now.micros() && now.micros() <= after);
}

#[test]
fn timestamps_compare_by_their_count() {
    assert_eq!(at(7), at(7));
    assert_ne!(at(7), at(8));
}
