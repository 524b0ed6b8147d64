// This Source Code Form is subject to the terms of the Mozilla Public
// License, v. 2.0. If a copy of the MPL was not distributed with this
// file, You can obtain one at http://mozilla.org/MPL/2.0/.
//
// Copyright (c) DUSK NETWORK. All rights reserved.

//! How many source files a scan has looked at, and how many of them lack the
//! license header.

use crate::errors::{outcome_view, AnalyzeError, AnalyzeErrorView};
use vstd::prelude::*;

verus! {

/// The tally of a scan. Never more files have failed than were looked at.
#[derive(Debug, Clone, Copy, PartialEq, Eq)]
pub struct ScanCounts {
    total: usize,
    failed: usize,
}

/// A tally in numbers without bound.
pub struct Tally {
    pub total: nat,
    pub failed: nat,
}

impl Tally {
    /// The tally of nothing.
    pub open spec fn zero() -> Tally {
        Tally { total: 0, failed: 0 }
    }

    /// Two tallies taken together.
    pub open spec fn plus(self, other: Tally) -> Tally {
        Tally { total: self.total + other.total, failed: self.failed + other.failed }
    }

    /// The tally after one more file, which passed or did not.
    pub open spec fn record(self, passed: bool) -> Tally {
        Tally {
            total: self.total + 1,
            failed: if passed {
                self.failed
            } else {
                self.failed + 1
            },
        }
    }

    /// Success where no file failed, otherwise the three numbers.
    pub open spec fn verdict(self) -> Result<(), AnalyzeErrorView> {
        if self.failed > 0 {
            Err(
                AnalyzeErrorView::MissingLicenseHeader {
                    success: (self.total - self.failed) as usize,
                    failed: self.failed as usize,
                    total: self.total as usize,
                },
            )
        } else {
            Ok(())
        }
    }
}

impl View for ScanCounts {
    type V = Tally;

    closed spec fn view(&self) -> Tally {
        Tally { total: self.total as nat, failed: self.failed as nat }
    }
}

impl ScanCounts {
    /// Holds of every tally that exists: no more files have failed than were
    /// looked at, and the machine can hold their number.
    #[verifier::type_invariant]
    pub open spec fn bounded(self) -> bool {
        self@.failed <= self@.total <= usize::MAX
    }

    /// The tally before any file.
    pub fn new() -> (counts: ScanCounts)
        ensures
            counts@ == Tally::zero(),
    {
        ScanCounts { total: 0, failed: 0 }
    }

    /// The number of source files looked at.
    pub fn total(&self) -> (total: usize)
        ensures
            total == self@.total,
    {
        self.total
    }

    /// The number of source files without the header, which is never more
    /// than the number looked at.
    pub fn failed(&self) -> (failed: usize)
        ensures
            failed == self@.failed,
            failed <= self@.total,
    {
        proof {
            use_type_invariant(self);
        }
        self.failed
    }

    /// The number of source files with the header.
    pub fn succeeded(&self) -> (succeeded: usize)
        ensures
            succeeded == self@.total - self@.failed,
    {
        proof {
            use_type_invariant(self);
        }
        self.total - self.failed
    }

    /// Counts one more file.
    pub fn record(&mut self, passed: bool)
        requires
            old(self)@.total < usize::MAX,
        ensures
            final(self)@ == old(self)@.record(passed),
    {
        proof {
            use_type_invariant(&*self);
        }
        self.total = self.total + 1;
        if !passed {
            self.failed = self.failed + 1;
        }
    }

    /// The verdict on the scan: success where no file failed, otherwise the
    /// error with the number of files that passed, of those that failed, which
    /// is at least one, and of all, which is the sum of the two.
    pub fn verdict(&self) -> (outcome: Result<(), AnalyzeError>)
        ensures
            outcome_view(outcome) == self@.verdict(),
            match outcome {
                Ok(()) => self@.failed == 0,
                Err(AnalyzeError::MissingLicenseHeader { success, failed, total }) => {
                    &&& 1 <= failed <= total
                    &&& success == total - failed
                    &&& failed == self@.failed
                    &&& total == self@.total
                },
                Err(_) => false,
            },
    {
        if self.failed() > 0 {
            Err(
                AnalyzeError::MissingLicenseHeader {
                    success: self.succeeded(),
                    failed: self.failed(),
                    total: self.total(),
                },
            )
        } else {
            Ok(())
        }
    }
}

} // verus!
