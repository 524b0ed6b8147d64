// This Source Code Form is subject to the terms of the Mozilla Public
// License, v. 2.0. If a copy of the MPL was not distributed with this
// file, You can obtain one at http://mozilla.org/MPL/2.0/.
//
// Copyright (c) DUSK NETWORK. All rights reserved.

//! The ways in which an analysis ends without success.

use vstd::prelude::*;

verus! {

/// Why the analysis of a package stopped. None of these is recovered from.
#[derive(Debug, Clone, PartialEq, Eq)]
pub enum AnalyzeError {
    /// The package metadata could not be obtained; holds the reason given.
    MetadataError(String),
    /// The file system refused an access during the walk; holds the reason
    /// given.
    IoError(String),
    /// The metadata lists no package.
    NoMainPackage,
    /// That many git dependencies float without a valid version tag.
    InvalidDependencies(usize),
    /// The package root holds no license file.
    MissingRootLicense,
    /// Source files without the license header were found.
    MissingLicenseHeader { success: usize, failed: usize, total: usize },
}

/// An [`AnalyzeError`] with its texts as sequences of characters.
pub enum AnalyzeErrorView {
    MetadataError(Seq<char>),
    IoError(Seq<char>),
    NoMainPackage,
    InvalidDependencies(usize),
    MissingRootLicense,
    MissingLicenseHeader { success: usize, failed: usize, total: usize },
}

impl View for AnalyzeError {
    type V = AnalyzeErrorView;

    open spec fn view(&self) -> AnalyzeErrorView {
        match *self {
            AnalyzeError::MetadataError(reason) => AnalyzeErrorView::MetadataError(reason@),
            AnalyzeError::IoError(reason) => AnalyzeErrorView::IoError(reason@),
            AnalyzeError::NoMainPackage => AnalyzeErrorView::NoMainPackage,
            AnalyzeError::InvalidDependencies(count) => AnalyzeErrorView::InvalidDependencies(
                count,
            ),
            AnalyzeError::MissingRootLicense => AnalyzeErrorView::MissingRootLicense,
            AnalyzeError::MissingLicenseHeader { success, failed, total } => {
                AnalyzeErrorView::MissingLicenseHeader { success, failed, total }
            },
        }
    }
}

/// The view of a result that holds nothing on success.
pub open spec fn outcome_view(outcome: Result<(), AnalyzeError>) -> Result<(), AnalyzeErrorView> {
    match outcome {
        Ok(()) => Ok(()),
        Err(error) => Err(error@),
    }
}

} // verus!
