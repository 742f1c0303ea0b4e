use vstd::prelude::*;
use crate::version::Cmp;

verus! {

/// A calendar date: the cutoff against which publish dates are compared.
#[derive(Clone, Copy, PartialEq, Eq, Structural, Debug)]
pub struct Date {
    pub year: i32,
    pub month: u8,
    pub day: u8,
}

/// A publish instant: its place on the global timeline (whole seconds and
/// the nanosecond remainder since the Unix epoch), together with the calendar
/// date it fell on in the offset the registry reported. Instants are ordered
/// by the timeline fields; the cutoff filter looks at the calendar fields
/// only, discarding the time of day.
#[derive(Clone, Copy, PartialEq, Eq, Structural, Debug)]
pub struct Timestamp {
    pub unix_seconds: i64,
    pub nanos: u32,
    pub year: i32,
    pub month: u8,
    pub day: u8,
}

impl Timestamp {
    pub open spec fn spec_date(self) -> Date {
        Date { year: self.year, month: self.month, day: self.day }
    }

    pub fn date(&self) -> (r: Date)
        ensures
            r == self.spec_date(),
    {
        Date { year: self.year, month: self.month, day: self.day }
    }
}

/// Chronological order on calendar dates (year, then month, then day).
pub open spec fn date_le(a: Date, b: Date) -> bool {
    if a.year != b.year {
        a.year < b.year
    } else if a.month != b.month {
        a.month < b.month
    } else {
        a.day <= b.day
    }
}

pub fn date_at_or_before(a: Date, b: Date) -> (r: bool)
    ensures
        r == date_le(a, b),
{
    if a.year != b.year {
        a.year < b.year
    } else if a.month != b.month {
        a.month < b.month
    } else {
        a.day <= b.day
    }
}

/// Order on instants: by whole seconds, then by the nanosecond remainder.
pub open spec fn ts_cmp(a: Timestamp, b: Timestamp) -> Cmp {
    if a.unix_seconds < b.unix_seconds {
        Cmp::Lt
    } else if a.unix_seconds > b.unix_seconds {
        Cmp::Gt
    } else if a.nanos < b.nanos {
        Cmp::Lt
    } else if a.nanos > b.nanos {
        Cmp::Gt
    } else {
        Cmp::Eq
    }
}

pub fn timestamp_cmp(a: &Timestamp, b: &Timestamp) -> (r: Cmp)
    ensures
        r == ts_cmp(*a, *b),
{
    if a.unix_seconds < b.unix_seconds {
        Cmp::Lt
    } else if a.unix_seconds > b.unix_seconds {
        Cmp::Gt
    } else if a.nanos < b.nanos {
        Cmp::Lt
    } else if a.nanos > b.nanos {
        Cmp::Gt
    } else {
        Cmp::Eq
    }
}

} // verus!
