//! The unit in which a duration is shown: the largest of nanoseconds,
//! microseconds, milliseconds, seconds, minutes and hours that keeps the
//! shown number at least one.

use vstd::prelude::*;
use crate::text::string_from_chars;

verus! {

#[derive(Clone, Copy, Debug, PartialEq, Eq, Structural)]
pub enum DurationUnit {
    Nanoseconds,
    Microseconds,
    Milliseconds,
    Seconds,
    Minutes,
    Hours,
}

/// The nanoseconds in one unit.
pub open spec fn nanos_in(unit: DurationUnit) -> nat {
    match unit {
        DurationUnit::Nanoseconds => 1,
        DurationUnit::Microseconds => 1_000,
        DurationUnit::Milliseconds => 1_000_000,
        DurationUnit::Seconds => 1_000_000_000,
        DurationUnit::Minutes => 60_000_000_000,
        DurationUnit::Hours => 3_600_000_000_000,
    }
}

/// The unit for a duration of `nanos` nanoseconds.
pub open spec fn unit_for(nanos: nat) -> DurationUnit {
    if nanos < 1_000 {
        DurationUnit::Nanoseconds
    } else if nanos < 1_000_000 {
        DurationUnit::Microseconds
    } else if nanos < 1_000_000_000 {
        DurationUnit::Milliseconds
    } else if nanos < 60_000_000_000 {
        DurationUnit::Seconds
    } else if nanos < 3_600_000_000_000 {
        DurationUnit::Minutes
    } else {
        DurationUnit::Hours
    }
}

/// The suffix shown after the number.
pub open spec fn suffix_of(unit: DurationUnit) -> Seq<char> {
    match unit {
        DurationUnit::Nanoseconds => seq!['n', 's'],
        DurationUnit::Microseconds => seq!['\u{b5}', 's'],
        DurationUnit::Milliseconds => seq!['m', 's'],
        DurationUnit::Seconds => seq!['s'],
        DurationUnit::Minutes => seq!['m', 'i', 'n'],
        DurationUnit::Hours => seq!['h'],
    }
}

/// The unit for a duration of `nanos` nanoseconds.
pub fn duration_unit(nanos: u128) -> (unit: DurationUnit)
    ensures
        unit == unit_for(nanos as nat),
{
    if nanos < 1_000 {
        DurationUnit::Nanoseconds
    } else if nanos < 1_000_000 {
        DurationUnit::Microseconds
    } else if nanos < 1_000_000_000 {
        DurationUnit::Milliseconds
    } else if nanos < 60_000_000_000 {
        DurationUnit::Seconds
    } else if nanos < 3_600_000_000_000 {
        DurationUnit::Minutes
    } else {
        DurationUnit::Hours
    }
}

impl DurationUnit {
    /// The nanoseconds in one unit.
    pub fn nanos_per_unit(&self) -> (n: u128)
        ensures
            n == nanos_in(*self),
    {
        match self {
            DurationUnit::Nanoseconds => 1,
            DurationUnit::Microseconds => 1_000,
            DurationUnit::Milliseconds => 1_000_000,
            DurationUnit::Seconds => 1_000_000_000,
            DurationUnit::Minutes => 60_000_000_000,
            DurationUnit::Hours => 3_600_000_000_000,
        }
    }

    /// The suffix shown after the number.
    pub fn suffix(&self) -> (s: String)
        ensures
            s@ == suffix_of(*self),
    {
        let chars: Vec<char> = match self {
            DurationUnit::Nanoseconds => vec!['n', 's'],
            DurationUnit::Microseconds => vec!['\u{b5}', 's'],
            DurationUnit::Milliseconds => vec!['m', 's'],
            DurationUnit::Seconds => vec!['s'],
            DurationUnit::Minutes => vec!['m', 'i', 'n'],
            DurationUnit::Hours => vec!['h'],
        };
        string_from_chars(chars.as_slice())
    }
}

/// A duration is shown in a unit no larger than itself, and below the next
/// unit's threshold: under 1000 of its unit up to milliseconds, under 60
/// seconds, under 60 minutes; only hours are unbounded. Shorter durations
/// never get a larger unit.
pub proof fn lemma_unit_range(nanos: nat, other: nat)
    ensures
        unit_for(nanos) == DurationUnit::Nanoseconds || nanos_in(unit_for(nanos)) <= nanos,
        unit_for(nanos) != DurationUnit::Hours ==> nanos < nanos_in(unit_for(nanos)) * (
        if unit_for(nanos) == DurationUnit::Seconds || unit_for(nanos) == DurationUnit::Minutes {
            60int
        } else {
            1000int
        }),
        other <= nanos ==> nanos_in(unit_for(other)) <= nanos_in(unit_for(nanos)),
{
}

} // verus!
