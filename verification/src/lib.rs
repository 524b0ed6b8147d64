// This Source Code Form is subject to the terms of the Mozilla Public
// License, v. 2.0. If a copy of the MPL was not distributed with this
// file, You can obtain one at http://mozilla.org/MPL/2.0/.
//
// Copyright (c) DUSK NETWORK. All rights reserved.

//! Policy checks for a package and its source tree: every git dependency
//! hosted under the organization must be pinned to a release tag, the package
//! root must hold a license file, and every source file must start with the
//! license header.
//!
//! The library reads neither the package metadata nor the file system. The
//! dependencies come in as plain values ([`deps`]). The walk over the source
//! tree is a scan that asks for one directory or file at a time and is told
//! what was found ([`scan`]); [`tree`] runs a scan on a tree in memory and
//! proves that a scan which is answered from a tree counts the source files
//! of that tree.

pub mod counts;
pub mod deps;
pub mod errors;
pub mod header;
pub mod package;
pub mod scan;
pub mod text;
pub mod tree;

pub use counts::ScanCounts;
pub use deps::{
    analyze_deps, get_invalid_git_dusk_deps, get_tag_version_from_query, Dependency,
};
pub use errors::AnalyzeError;
pub use header::{has_license_header, HEADER};
pub use package::{check_packages, Package};
pub use scan::{
    analyze_license, check_license_file, Action, Entry, EntryKind, LicenseScan, Request,
    Response, Step,
};
pub use tree::{check_license_header, Tree};
