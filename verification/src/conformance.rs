//! A tally of conformance tests that passed and failed.

use crate::text::{decimal, push_decimal};
use crate::TerminatorError;
use vstd::prelude::*;

verus! {

pub struct ConformanceHarness {
    pub passed: usize,
    pub failed: usize,
}

/// One more than `count`, held to the range of a counter.
pub open spec fn counted(count: usize) -> usize {
    if count < usize::MAX {
        (count + 1) as usize
    } else {
        count
    }
}

impl ConformanceHarness {
    /// The tally after one more test with the given outcome.
    pub open spec fn recorded(self, passed: bool) -> Self {
        if passed {
            ConformanceHarness { passed: counted(self.passed), failed: self.failed }
        } else {
            ConformanceHarness { passed: self.passed, failed: counted(self.failed) }
        }
    }

    /// The line that reports the tally.
    pub open spec fn report_text(self) -> Seq<char> {
        "Conformance test results: "@ + decimal(self.passed as nat) + " passed, "@ + decimal(
            self.failed as nat,
        ) + " failed"@
    }

    pub fn new() -> (harness: Self)
        ensures
            harness.passed == 0,
            harness.failed == 0,
    {
        ConformanceHarness { passed: 0, failed: 0 }
    }

    /// Counts one test with the given outcome.
    pub fn record(&mut self, passed: bool)
        ensures
            *final(self) == old(self).recorded(passed),
    {
        if passed {
            if self.passed < usize::MAX {
                self.passed += 1;
            }
        } else {
            if self.failed < usize::MAX {
                self.failed += 1;
            }
        }
    }

    /// Runs `test_fn` and counts its outcome: a pass for `Ok`, a failure
    /// for an error.
    pub fn run_test<F>(&mut self, name: &str, test_fn: F) where
        F: FnOnce() -> Result<(), TerminatorError>,

        requires
            test_fn.requires(()),
        ensures
            exists|outcome: Result<(), TerminatorError>|
                test_fn.ensures((), outcome) && *final(self) == old(self).recorded(outcome is Ok),
    {
        let outcome = test_fn();
        match outcome {
            Ok(()) => self.record(true),
            Err(_) => self.record(false),
        }
    }

    /// The line that reports the tally.
    pub fn report(&self) -> (line: String)
        ensures
            line@ == self.report_text(),
    {
        let mut line = String::from_str("Conformance test results: ");
        push_decimal(&mut line, self.passed as u64);
        line.append(" passed, ");
        push_decimal(&mut line, self.failed as u64);
        line.append(" failed");
        assert(line@ =~= self.report_text());
        line
    }
}

} // verus!
