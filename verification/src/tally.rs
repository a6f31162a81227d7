//! The bookkeeping of a batch run: how many inputs were seen, how many were
//! repaired, and how long the repairs took.
//!
//! The run itself (listing the inputs, reading the clock, writing the results)
//! is the driver's; what it counts and compares is decided here. Times are
//! whole nanoseconds.

use vstd::prelude::*;
use crate::text::{chars_of, same_text};

verus! {

/// The longest time that the clock can report: the least time of a run in
/// which nothing was timed.
pub const LONGEST: u128 = 18_446_744_073_709_551_615_999_999_999u128;

/// The counts and times of a batch run.
pub struct Tally {
    /// Inputs listed, whether or not they take part.
    pub seen: u64,
    /// Inputs that were repaired.
    pub passed: u64,
    /// Inputs that were timed: all that take part.
    pub timed: u64,
    /// Sum of the times.
    pub total: u128,
    /// Least time.
    pub least: u128,
    /// Greatest time.
    pub greatest: u128,
}

/// The name of the one file among the inputs that is listed but takes no
/// part.
pub open spec fn bystander() -> Seq<char> {
    "borrow.rs"@
}

/// Whether the input called `name` takes part in the run.
pub fn takes_part(name: &str) -> (r: bool)
    ensures
        r == (name@ != bystander()),
{
    !same_text(&chars_of(name), &chars_of("borrow.rs"))
}

impl Tally {
    /// The tally of a run that has seen nothing yet.
    pub fn new() -> (t: Tally)
        ensures
            t.seen == 0,
            t.passed == 0,
            t.timed == 0,
            t.total == 0,
            t.least == LONGEST,
            t.greatest == 0,
    {
        Tally { seen: 0, passed: 0, timed: 0, total: 0, least: LONGEST, greatest: 0 }
    }

    /// Counts one more input as seen.
    pub fn see(&mut self)
        requires
            old(self).seen < u64::MAX,
        ensures
            final(self).seen == old(self).seen + 1,
            final(self).passed == old(self).passed,
            final(self).timed == old(self).timed,
            final(self).total == old(self).total,
            final(self).least == old(self).least,
            final(self).greatest == old(self).greatest,
    {
        self.seen = self.seen + 1;
    }

    /// Enters the result of one repair: the time it took, and whether it
    /// succeeded.
    pub fn record(&mut self, elapsed: u128, passed: bool)
        requires
            old(self).timed < u64::MAX,
            old(self).passed < u64::MAX,
            old(self).total + elapsed <= u128::MAX,
        ensures
            final(self).seen == old(self).seen,
            final(self).timed == old(self).timed + 1,
            final(self).passed == old(self).passed + (if passed {
                1int
            } else {
                0int
            }),
            final(self).total == old(self).total + elapsed,
            final(self).least == (if elapsed < old(self).least {
                elapsed
            } else {
                old(self).least
            }),
            final(self).greatest == (if elapsed > old(self).greatest {
                elapsed
            } else {
                old(self).greatest
            }),
    {
        self.timed = self.timed + 1;
        if passed {
            self.passed = self.passed + 1;
        }
        self.total = self.total + elapsed;
        if elapsed < self.least {
            self.least = elapsed;
        }
        if elapsed > self.greatest {
            self.greatest = elapsed;
        }
    }

    /// The mean time of the repairs that were timed; zero where none was.
    pub fn mean(&self) -> (m: u128)
        ensures
            m == (if self.timed == 0 {
                0
            } else {
                self.total / (self.timed as u128)
            }),
    {
        if self.timed == 0 {
            0
        } else {
            self.total / (self.timed as u128)
        }
    }
}

} // verus!
