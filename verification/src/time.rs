//! Instants and spans of time as plain millisecond counts.
use vstd::prelude::*;

verus! {

/// Integer division rounded toward zero, as Rust's `/` does on signed integers.
pub open spec fn trunc_div(a: int, b: int) -> int
    recommends
        b > 0,
{
    if a >= 0 {
        a / b
    } else {
        -((-a) / b)
    }
}

pub const MILLIS_PER_SECOND: i128 = 1000;

pub const SECONDS_PER_MINUTE: i128 = 60;

pub const SECONDS_PER_HOUR: i128 = 3600;

pub const SECONDS_PER_DAY: i128 = 86400;

/// An instant, counted in milliseconds since the Unix epoch (UTC).
#[derive(Clone, Copy, Debug, PartialEq, Eq, Structural)]
pub struct DateTime(pub i64);

/// A signed span of time, counted in milliseconds.
#[derive(Clone, Copy, Debug, PartialEq, Eq, Structural)]
pub struct Duration {
    pub millis: i128,
}

impl DateTime {
    /// The span from `earlier` to `self` (negative when `self` comes first).
    pub fn signed_duration_since(self, earlier: DateTime) -> (d: Duration)
        ensures
            d.millis == self.0 - earlier.0,
    {
        Duration { millis: (self.0 as i128) - (earlier.0 as i128) }
    }
}

/// Truncating division of a span count, with its specification.
fn div_toward_zero(a: i128, b: i128) -> (q: i128)
    requires
        b > 0,
    ensures
        q == trunc_div(a as int, b as int),
{
    a / b
}

impl Duration {
    pub open spec fn spec_seconds(self) -> int {
        trunc_div(self.millis as int, 1000)
    }

    pub open spec fn spec_minutes(self) -> int {
        trunc_div(self.spec_seconds(), 60)
    }

    pub open spec fn spec_hours(self) -> int {
        trunc_div(self.spec_seconds(), 3600)
    }

    pub open spec fn spec_days(self) -> int {
        trunc_div(self.spec_seconds(), 86400)
    }

    pub open spec fn spec_weeks(self) -> int {
        trunc_div(self.spec_days(), 7)
    }

    /// Whole seconds in the span, rounded toward zero.
    pub fn num_seconds(&self) -> (r: i128)
        ensures
            r == self.spec_seconds(),
    {
        div_toward_zero(self.millis, MILLIS_PER_SECOND)
    }

    /// Whole minutes in the span, rounded toward zero.
    pub fn num_minutes(&self) -> (r: i128)
        ensures
            r == self.spec_minutes(),
    {
        div_toward_zero(self.num_seconds(), SECONDS_PER_MINUTE)
    }

    /// Whole hours in the span, rounded toward zero.
    pub fn num_hours(&self) -> (r: i128)
        ensures
            r == self.spec_hours(),
    {
        div_toward_zero(self.num_seconds(), SECONDS_PER_HOUR)
    }

    /// Whole days in the span, rounded toward zero.
    pub fn num_days(&self) -> (r: i128)
        ensures
            r == self.spec_days(),
    {
        div_toward_zero(self.num_seconds(), SECONDS_PER_DAY)
    }

    /// Whole weeks in the span, rounded toward zero.
    pub fn num_weeks(&self) -> (r: i128)
        ensures
            r == self.spec_weeks(),
    {
        div_toward_zero(self.num_days(), 7)
    }
}

} // verus!
