//! Numbers of the feeds, held as integers.
use vstd::prelude::*;

verus! {

/// How many parts of a [`Measure`] make one unit of the feed.
pub const PARTS_PER_UNIT: i64 = 1_000_000;

/// A number of a feed, in millionths of the feed's unit.
///
/// A distance of 12 km is `Known(12_000_000)`. `Unknown` stands for a value
/// that was no number at all: it is neither smaller nor greater than any other
/// measure, so every comparison treats it as equal.
#[derive(Debug, Clone, Copy, PartialEq, Eq, Structural)]
pub enum Measure {
    Known(i64),
    Unknown,
}

impl Measure {
    /// Whether `self` is strictly smaller than `other`. False as soon as one
    /// of the two is unknown.
    pub open spec fn precedes(self, other: Measure) -> bool {
        match (self, other) {
            (Measure::Known(a), Measure::Known(b)) => a < b,
            _ => false,
        }
    }

    /// The whole units of a measure that is known and not negative.
    pub open spec fn whole_units(self) -> Option<usize> {
        match self {
            Measure::Known(v) => if 0 <= v && v / PARTS_PER_UNIT <= usize::MAX {
                Some((v / PARTS_PER_UNIT) as usize)
            } else {
                None
            },
            Measure::Unknown => None,
        }
    }

    /// Whether `self` is strictly smaller than `other`.
    pub fn is_less_than(&self, other: &Measure) -> (less: bool)
        ensures
            less == self.precedes(*other),
    {
        match (self, other) {
            (Measure::Known(a), Measure::Known(b)) => *a < *b,
            _ => false,
        }
    }

    /// The measure in whole units, rounded down; `None` where it is unknown,
    /// negative or too large for the machine.
    pub fn whole(&self) -> (units: Option<usize>)
        ensures
            units == self.whole_units(),
    {
        match self {
            Measure::Known(v) => {
                if *v < 0 {
                    None
                } else {
                    let quotient: u64 = (*v / PARTS_PER_UNIT) as u64;
                    if quotient <= usize::MAX as u64 {
                        Some(quotient as usize)
                    } else {
                        None
                    }
                }
            },
            Measure::Unknown => None,
        }
    }
}

} // verus!
