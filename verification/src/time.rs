//! Points in time, and the time an approval stays open.

use vstd::prelude::*;

verus! {

/// Microseconds in one second.
pub const MICROS_PER_SECOND: i64 = 1_000_000;

/// Microseconds in one day.
pub const MICROS_PER_DAY: i64 = 86_400_000_000;

/// How long an approval stays open after it was created: one day.
pub const APPROVAL_TTL: i64 = 86_400_000_000;

/// The earliest representable instant: midnight of January 1 of the year -262143.
pub const MIN_MICROS: i64 = -8_334_601_228_800_000_000;

/// The latest representable instant: the last microsecond of the year 262142.
pub const MAX_MICROS: i64 = 8_210_266_876_799_999_999;

/// Whether a count of microseconds since the Unix epoch names an instant
/// that a calendar date and time of day can express.
pub open spec fn representable(micros: int) -> bool {
    MIN_MICROS <= micros <= MAX_MICROS
}

/// The whole days in a span of microseconds, rounded towards zero.
pub open spec fn whole_days(span: int) -> int {
    if span >= 0 {
        span / (MICROS_PER_DAY as int)
    } else {
        -((-span) / (MICROS_PER_DAY as int))
    }
}

/// An instant without time zone, counted in microseconds since the Unix epoch.
#[derive(Clone, Copy, Debug, PartialEq, Eq, Structural)]
pub struct Timestamp {
    micros: i64,
}

impl View for Timestamp {
    type V = int;

    closed spec fn view(&self) -> int {
        self.micros as int
    }
}

/// The clock: `chrono::Utc::now`, read as microseconds since the Unix epoch
/// through `DateTime::timestamp_micros`. The result depends on the machine's
/// clock, so the contract states only its range: the call returns no instant
/// before the epoch and none past the last date that `chrono` represents.
/// `Utc::now` panics while the system clock stands before the epoch.
#[verifier::external_body]
fn utc_now_micros() -> (micros: i64)
    ensures
        0 <= micros <= MAX_MICROS,
{
    chrono::Utc::now().timestamp_micros()
}

/// `NaiveDateTime::signed_duration_since` followed by `TimeDelta::num_days`,
/// on the two instants that `DateTime::from_timestamp_micros` makes of the
/// arguments: the whole days from `earlier` to `later`, rounded towards zero.
/// Both conversions succeed on representable counts.
#[verifier::external_body]
fn chrono_days_between(later: i64, earlier: i64) -> (days: i64)
    requires
        representable(later as int),
        representable(earlier as int),
    ensures
        days == whole_days(later - earlier),
{
    let later = chrono::DateTime::from_timestamp_micros(later).unwrap().naive_utc();
    let earlier = chrono::DateTime::from_timestamp_micros(earlier).unwrap().naive_utc();
    later.signed_duration_since(earlier).num_days()
}

impl Timestamp {
    #[verifier::type_invariant]
    spec fn in_range(self) -> bool {
        representable(self.micros as int)
    }

    /// The instant `micros` microseconds after the Unix epoch, where it is representable.
    pub fn from_micros(micros: i64) -> (result: Option<Timestamp>)
        ensures
            result is Some <==> representable(micros as int),
            result matches Some(t) ==> t@ == micros,
    {
        if MIN_MICROS <= micros && micros <= MAX_MICROS {
            Some(Timestamp { micros })
        } else {
            None
        }
    }

    /// Microseconds since the Unix epoch.
    pub fn micros(&self) -> (micros: i64)
        ensures
            micros == self@,
            representable(micros as int),
    {
        proof {
            use_type_invariant(self);
        }
        self.micros
    }

    /// The current instant in UTC.
    pub fn now() -> (now: Timestamp)
        ensures
            now@ >= 0,
    {
        Timestamp { micros: utc_now_micros() }
    }

    /// The whole days that have passed since `earlier`, rounded towards zero.
    pub fn days_since(&self, earlier: &Timestamp) -> (days: i64)
        ensures
            days == whole_days(self@ - earlier@),
    {
        proof {
            use_type_invariant(self);
            use_type_invariant(earlier);
        }
        chrono_days_between(self.micros, earlier.micros)
    }

    /// Two timestamps with the same count are the same timestamp.
    pub proof fn lemma_view_injective(a: Timestamp, b: Timestamp)
        ensures
            a@ == b@ <==> a == b,
    {
    }
}

} // verus!
