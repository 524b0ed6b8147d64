// This Source Code Form is subject to the terms of the Mozilla Public
// License, v. 2.0. If a copy of the MPL was not distributed with this
// file, You can obtain one at http://mozilla.org/MPL/2.0/.
//
// Copyright (c) DUSK NETWORK. All rights reserved.

//! The packages that an analysis is run on.

use crate::deps::Dependency;
use crate::errors::{outcome_view, AnalyzeError, AnalyzeErrorView};
use vstd::prelude::*;

verus! {

/// A package as the package metadata gives it.
#[derive(Debug, Clone, PartialEq, Eq)]
pub struct Package {
    pub name: String,
    pub manifest_path: String,
    pub dependencies: Vec<Dependency>,
}

/// An analysis needs a package to look at.
pub open spec fn packages_outcome(packages: nat) -> Result<(), AnalyzeErrorView> {
    if packages == 0 {
        Err(AnalyzeErrorView::NoMainPackage)
    } else {
        Ok(())
    }
}

/// Fails where the metadata lists no package at all.
pub fn check_packages(packages: &[Package]) -> (outcome: Result<(), AnalyzeError>)
    ensures
        outcome_view(outcome) == packages_outcome(packages@.len()),
{
    if packages.len() == 0 {
        Err(AnalyzeError::NoMainPackage)
    } else {
        Ok(())
    }
}

} // verus!
