// This Source Code Form is subject to the terms of the Mozilla Public
// License, v. 2.0. If a copy of the MPL was not distributed with this
// file, You can obtain one at http://mozilla.org/MPL/2.0/.
//
// Copyright (c) DUSK NETWORK. All rights reserved.

//! The walk over a package's directory, one step at a time. The scan never
//! touches the file system: it says which directory to list or which file to
//! read next, is told what was found, and decides from that what to count
//! and where to go on.
//!
//! A driver starts with [`LicenseScan::new`] and [`LicenseScan::next_action`],
//! and then, as long as the action is a request, answers it and hands the
//! response to [`analyze_license`], which gives the next action. The first
//! request lists the package root, and the scan goes on from there depth
//! first, in the order of the listings.

use crate::counts::{ScanCounts, Tally};
use crate::errors::{outcome_view, AnalyzeError, AnalyzeErrorView};
use crate::header::{has_license_header, opens_with, HEADER};
use crate::text::same_text;
use vstd::prelude::*;

verus! {

/// The directory that holds build artifacts; the walk does not enter it.
pub const BUILD_DIRECTORY: &'static str = "target";

/// The directory of the version control system; the walk does not enter it.
pub const VCS_DIRECTORY: &'static str = ".git";

/// The name of the license file that the package root must hold.
pub const LICENSE_FILE: &'static str = "LICENSE";

/// The reason with which the scan is given up when the response that came in
/// does not answer the request that was pending.
pub const UNEXPECTED_RESPONSE: &'static str = "the response does not answer the pending request";

/// What a directory entry is, without following links.
#[derive(Debug, Clone, Copy, PartialEq, Eq, Structural)]
pub enum EntryKind {
    Directory,
    File,
    /// A link, a device, or anything else that is neither of the above.
    Other,
}

/// One entry of a directory listing.
#[derive(Debug, Clone, PartialEq, Eq)]
pub struct Entry {
    pub name: String,
    pub kind: EntryKind,
}

/// An [`Entry`] with its name as a sequence of characters.
pub struct EntryView {
    pub name: Seq<char>,
    pub kind: EntryKind,
}

impl View for Entry {
    type V = EntryView;

    open spec fn view(&self) -> EntryView {
        EntryView { name: self.name@, kind: self.kind }
    }
}

/// What the scan asks of the file system.
#[derive(Debug, Clone, PartialEq, Eq)]
pub enum Request {
    /// List the directory at this path.
    ListDirectory(String),
    /// Read the file at this path.
    ReadFile(String),
}

/// A [`Request`] with its path as a sequence of characters.
pub enum RequestView {
    ListDirectory(Seq<char>),
    ReadFile(Seq<char>),
}

impl View for Request {
    type V = RequestView;

    open spec fn view(&self) -> RequestView {
        match *self {
            Request::ListDirectory(path) => RequestView::ListDirectory(path@),
            Request::ReadFile(path) => RequestView::ReadFile(path@),
        }
    }
}

/// What the file system answered.
#[derive(Debug, Clone, PartialEq, Eq)]
pub enum Response {
    /// The entries of the directory that was to be listed.
    Listing(Vec<Entry>),
    /// The contents of the file that was to be read.
    Contents(String),
    /// The access failed, for this reason.
    Failed(String),
}

/// A [`Response`] with its texts as sequences of characters.
pub enum ResponseView {
    Listing(Seq<EntryView>),
    Contents(Seq<char>),
    Failed(Seq<char>),
}

/// The views of the entries of a listing.
pub open spec fn entry_views(entries: Seq<Entry>) -> Seq<EntryView> {
    entries.map_values(|entry: Entry| entry@)
}

/// The views of pending requests.
pub open spec fn request_views(requests: Seq<Request>) -> Seq<RequestView> {
    requests.map_values(|request: Request| request@)
}

impl View for Response {
    type V = ResponseView;

    open spec fn view(&self) -> ResponseView {
        match *self {
            Response::Listing(entries) => ResponseView::Listing(entry_views(entries@)),
            Response::Contents(text) => ResponseView::Contents(text@),
            Response::Failed(reason) => ResponseView::Failed(reason@),
        }
    }
}

/// What the driver is to do next.
#[derive(Debug, PartialEq, Eq)]
pub enum Action {
    /// Answer this request and hand the response to the scan.
    Perform(Request),
    /// Stop: the scan has ended in this way.
    Finish(Result<(), AnalyzeError>),
}

/// An [`Action`] with its texts as sequences of characters.
pub enum ActionView {
    Perform(RequestView),
    Finish(Result<(), AnalyzeErrorView>),
}

impl View for Action {
    type V = ActionView;

    open spec fn view(&self) -> ActionView {
        match *self {
            Action::Perform(request) => ActionView::Perform(request@),
            Action::Finish(outcome) => ActionView::Finish(outcome_view(outcome)),
        }
    }
}

/// A directory of this name is skipped: neither entered nor counted.
pub open spec fn pruned(name: Seq<char>) -> bool {
    name == BUILD_DIRECTORY@ || name == VCS_DIRECTORY@
}

/// A file of this name is a source file: its extension, the part after the
/// last dot of a name that holds more than that part and the dot, is `rs`.
pub open spec fn source_name(name: Seq<char>) -> bool {
    name.len() > 3 && name.skip(name.len() - 3) == seq!['.', 'r', 's']
}

/// The path of the entry `name` of the directory `dir`.
pub open spec fn join(dir: Seq<char>, name: Seq<char>) -> Seq<char> {
    dir.push('/') + name
}

/// Whether a directory of this name is skipped by the walk.
pub fn is_pruned(name: &str) -> (skipped: bool)
    ensures
        skipped == pruned(name@),
{
    same_text(name, BUILD_DIRECTORY) || same_text(name, VCS_DIRECTORY)
}

/// Whether a file of this name is a source file.
pub fn is_source_file(name: &str) -> (source: bool)
    ensures
        source == source_name(name@),
{
    let len = name.unicode_len();
    if len <= 3 {
        return false;
    }
    let dot = name.get_char(len - 3);
    let first = name.get_char(len - 2);
    let second = name.get_char(len - 1);
    let found = dot == '.' && first == 'r' && second == 's';
    proof {
        if found {
            assert(name@.skip(name@.len() - 3) =~= seq!['.', 'r', 's']);
        }
    }
    found
}

/// The path of the entry `name` of the directory `dir`.
pub fn join_path(dir: &str, name: &str) -> (path: String)
    ensures
        path@ == join(dir@, name@),
{
    proof {
        reveal_strlit("/");
    }
    dir.to_owned().concat("/").concat(name)
}

/// Whether the listing holds an entry with the license file's name.
pub open spec fn holds_license(entries: Seq<EntryView>) -> bool {
    exists|i: int| 0 <= i < entries.len() && (#[trigger] entries[i]).name == LICENSE_FILE@
}

/// Success where the listing holds the license file.
pub open spec fn license_outcome(entries: Seq<EntryView>) -> Result<(), AnalyzeErrorView> {
    if holds_license(entries) {
        Ok(())
    } else {
        Err(AnalyzeErrorView::MissingRootLicense)
    }
}

/// Checks that the listing of the package root holds the license file.
pub fn check_license_file(root: &[Entry]) -> (outcome: Result<(), AnalyzeError>)
    ensures
        outcome_view(outcome) == license_outcome(entry_views(root@)),
{
    let mut at: usize = 0;
    while at < root.len()
        invariant
            at <= root.len(),
            forall|i: int| 0 <= i < at ==> (#[trigger] entry_views(root@)[i]).name != LICENSE_FILE@,
        decreases root.len() - at,
    {
        if same_text(root[at].name.as_str(), LICENSE_FILE) {
            assert(entry_views(root@)[at as int].name == LICENSE_FILE@);
            return Ok(());
        }
        at = at + 1;
    }
    Err(AnalyzeError::MissingRootLicense)
}

/// The request that an entry of the directory `dir` gives rise to: directories
/// are listed unless pruned, source files are read, nothing else is visited.
pub open spec fn visit_of(dir: Seq<char>, entry: EntryView) -> Option<RequestView> {
    match entry.kind {
        EntryKind::Directory if !pruned(entry.name) => Some(
            RequestView::ListDirectory(join(dir, entry.name)),
        ),
        EntryKind::File if source_name(entry.name) => Some(
            RequestView::ReadFile(join(dir, entry.name)),
        ),
        _ => None,
    }
}

/// The requests that a listing of the directory `dir` gives rise to, as they
/// are stacked: the request of the first entry comes last, so that it is
/// answered first.
pub open spec fn visits(dir: Seq<char>, entries: Seq<EntryView>) -> Seq<RequestView>
    decreases entries.len(),
{
    if entries.len() == 0 {
        Seq::empty()
    } else {
        let later = visits(dir, entries.skip(1));
        match visit_of(dir, entries[0]) {
            Some(request) => later.push(request),
            None => later,
        }
    }
}

/// The request that an entry of the directory `dir` gives rise to, if any.
pub fn visit(dir: &str, entry: &Entry) -> (request: Option<Request>)
    ensures
        match request {
            Some(request) => visit_of(dir@, entry@) == Some(request@),
            None => visit_of(dir@, entry@) is None,
        },
{
    match entry.kind {
        EntryKind::Directory => {
            if is_pruned(entry.name.as_str()) {
                None
            } else {
                Some(Request::ListDirectory(join_path(dir, entry.name.as_str())))
            }
        },
        EntryKind::File => {
            if is_source_file(entry.name.as_str()) {
                Some(Request::ReadFile(join_path(dir, entry.name.as_str())))
            } else {
                None
            }
        },
        EntryKind::Other => None,
    }
}

/// The state of a scan as the contracts see it.
pub struct ScanView {
    /// The listing of the package root has not come in yet.
    pub at_root: bool,
    /// The requests that are still to be made; the last one is made next.
    pub pending: Seq<RequestView>,
    /// The files counted so far.
    pub counts: Tally,
    /// Why the scan was given up, if it was.
    pub failure: Option<AnalyzeErrorView>,
}

impl ScanView {
    /// The scan of the package rooted at `root`, before its first step.
    pub open spec fn start(root: Seq<char>) -> ScanView {
        ScanView {
            at_root: true,
            pending: seq![RequestView::ListDirectory(root)],
            counts: Tally::zero(),
            failure: None,
        }
    }

    /// Holds of every state that a scan comes to: no more files have failed
    /// than were counted; a scan is given up only for a missing license file
    /// or a failed access; and a scan that was given up has nothing left to
    /// ask.
    pub open spec fn sound(self) -> bool {
        &&& self.counts.failed <= self.counts.total
        &&& match self.failure {
            None => true,
            Some(AnalyzeErrorView::MissingRootLicense) => true,
            Some(AnalyzeErrorView::IoError(_)) => true,
            Some(_) => false,
        }
        &&& self.failure is Some ==> self.pending.len() == 0
    }

    /// The scan of the directory `dir` that is no package root: no license
    /// file is asked of it.
    pub open spec fn within(dir: Seq<char>) -> ScanView {
        ScanView { at_root: false, ..ScanView::start(dir) }
    }

    /// The scan was given up or has nothing left to ask.
    pub open spec fn finished(self) -> bool {
        self.failure is Some || self.pending.len() == 0
    }

    /// What the driver is to do in this state.
    pub open spec fn next_action(self) -> ActionView {
        match self.failure {
            Some(error) => ActionView::Finish(Err(error)),
            None => if self.pending.len() == 0 {
                ActionView::Finish(self.counts.verdict())
            } else {
                ActionView::Perform(self.pending.last())
            },
        }
    }

    /// The scan given up for this reason: nothing is left to ask.
    pub open spec fn fail(self, error: AnalyzeErrorView) -> ScanView {
        ScanView { pending: Seq::empty(), failure: Some(error), ..self }
    }

    /// The state after `response` has come in for the pending request.
    ///
    /// A finished scan stays as it is. The first listing is that of the
    /// package root: without the license file in it the scan is given up
    /// before any file is read. A listing replaces its request by the
    /// requests of its entries. The contents of a file are counted, as passed
    /// when they open with the license header. A failed access, or a response
    /// that does not answer the pending request, gives the scan up.
    pub open spec fn step(self, response: ResponseView) -> ScanView {
        if self.finished() {
            self
        } else {
            let rest = self.pending.drop_last();
            match (self.pending.last(), response) {
                (RequestView::ListDirectory(dir), ResponseView::Listing(entries)) => {
                    if self.at_root && !holds_license(entries) {
                        self.fail(AnalyzeErrorView::MissingRootLicense)
                    } else {
                        ScanView { at_root: false, pending: rest + visits(dir, entries), ..self }
                    }
                },
                (RequestView::ReadFile(_), ResponseView::Contents(text)) => ScanView {
                    pending: rest,
                    counts: self.counts.record(opens_with(text, HEADER@)),
                    ..self
                },
                (_, ResponseView::Failed(reason)) => self.fail(AnalyzeErrorView::IoError(reason)),
                _ => self.fail(AnalyzeErrorView::IoError(UNEXPECTED_RESPONSE@)),
            }
        }
    }

    /// The response brings the contents of the file that was to be read, so
    /// that the step counts a file.
    pub open spec fn counts_file(self, response: ResponseView) -> bool {
        &&& !self.finished()
        &&& self.pending.last() is ReadFile
        &&& response is Contents
    }

    /// The file that `response` shows to lack the license header, if it shows
    /// one: the file that was to be read.
    pub open spec fn offender(self, response: ResponseView) -> Option<Seq<char>> {
        if self.finished() {
            None
        } else {
            match (self.pending.last(), response) {
                (RequestView::ReadFile(path), ResponseView::Contents(text)) if !opens_with(
                    text,
                    HEADER@,
                ) => Some(path),
                _ => None,
            }
        }
    }
}

/// The ways in which a scan ends: with success, for a missing license file,
/// for a failed access, or with the numbers of the files that passed and
/// failed, of which at least one failed and which add up to the total.
pub open spec fn scan_outcome(outcome: Result<(), AnalyzeErrorView>) -> bool {
    match outcome {
        Ok(()) => true,
        Err(AnalyzeErrorView::MissingRootLicense) => true,
        Err(AnalyzeErrorView::IoError(_)) => true,
        Err(AnalyzeErrorView::MissingLicenseHeader { success, failed, total }) => {
            &&& 1 <= failed <= total
            &&& success == total - failed
        },
        Err(_) => false,
    }
}

/// A scan starts in a sound state, and a step takes a sound state to a sound
/// state: every state that a scan comes to is sound.
pub proof fn lemma_scan_stays_sound(root: Seq<char>, scan: ScanView, response: ResponseView)
    ensures
        ScanView::start(root).sound(),
        scan.sound() ==> scan.step(response).sound(),
{
}

/// A scan in a sound state whose counts the machine holds ends, if it ends,
/// in one of the ways in which a scan ends; where it ends with the numbers of
/// the files, these are its counts.
pub proof fn lemma_sound_scan_ends_well(scan: ScanView)
    requires
        scan.sound(),
        scan.counts.total <= usize::MAX,
    ensures
        match scan.next_action() {
            ActionView::Finish(outcome) => {
                &&& scan_outcome(outcome)
                &&& outcome matches Err(
                    AnalyzeErrorView::MissingLicenseHeader { success, failed, total },
                ) ==> failed == scan.counts.failed && total == scan.counts.total
            },
            ActionView::Perform(_) => !scan.finished(),
        },
{
}

/// The scan of one package for its license file and its license headers.
#[derive(Debug)]
pub struct LicenseScan {
    at_root: bool,
    pending: Vec<Request>,
    counts: ScanCounts,
    failure: Option<AnalyzeError>,
}

impl View for LicenseScan {
    type V = ScanView;

    closed spec fn view(&self) -> ScanView {
        ScanView {
            at_root: self.at_root,
            pending: request_views(self.pending@),
            counts: self.counts@,
            failure: match self.failure {
                Some(error) => Some(error@),
                None => None,
            },
        }
    }
}

/// What a step of the scan hands to the driver.
#[derive(Debug, PartialEq, Eq)]
pub struct Step {
    /// The file that was just found to lack the license header, to be
    /// reported at once.
    pub offender: Option<String>,
    /// What to do next.
    pub next: Action,
}

/// The characters of an optional path.
pub open spec fn path_view(path: Option<String>) -> Option<Seq<char>> {
    match path {
        Some(path) => Some(path@),
        None => None,
    }
}

/// A copy of the request.
fn same_request(request: &Request) -> (copy: Request)
    ensures
        copy@ == request@,
{
    match request {
        Request::ListDirectory(path) => Request::ListDirectory(path.clone()),
        Request::ReadFile(path) => Request::ReadFile(path.clone()),
    }
}

/// A copy of the error.
fn same_error(error: &AnalyzeError) -> (copy: AnalyzeError)
    ensures
        copy@ == error@,
{
    match error {
        AnalyzeError::MetadataError(reason) => AnalyzeError::MetadataError(reason.clone()),
        AnalyzeError::IoError(reason) => AnalyzeError::IoError(reason.clone()),
        AnalyzeError::NoMainPackage => AnalyzeError::NoMainPackage,
        AnalyzeError::InvalidDependencies(count) => AnalyzeError::InvalidDependencies(*count),
        AnalyzeError::MissingRootLicense => AnalyzeError::MissingRootLicense,
        AnalyzeError::MissingLicenseHeader { success, failed, total } => {
            AnalyzeError::MissingLicenseHeader { success: *success, failed: *failed, total: *total }
        },
    }
}

impl LicenseScan {
    /// Holds of every scan that exists: its state is sound, and the machine
    /// holds its counts.
    #[verifier::type_invariant]
    pub open spec fn sound(self) -> bool {
        self@.sound() && self@.counts.total <= usize::MAX
    }

    /// The scan of the package whose root directory is `root`. Its first
    /// request is to list that directory.
    pub fn new(root: &str) -> (scan: LicenseScan)
        ensures
            scan@ == ScanView::start(root@),
            scan@.sound(),
    {
        let mut pending = Vec::new();
        pending.push(Request::ListDirectory(root.to_owned()));
        let scan = LicenseScan { at_root: true, pending, counts: ScanCounts::new(), failure: None };
        assert(scan@.pending =~= seq![RequestView::ListDirectory(root@)]);
        scan
    }

    /// The scan of the directory `dir` for its license headers alone: its
    /// first request is to list that directory, and no license file is asked
    /// of it.
    pub fn within(dir: &str) -> (scan: LicenseScan)
        ensures
            scan@ == ScanView::within(dir@),
            scan@.sound(),
    {
        let mut scan = LicenseScan::new(dir);
        scan.at_root = false;
        scan
    }

    /// The files counted so far.
    pub fn counts(&self) -> (counts: ScanCounts)
        ensures
            counts@ == self@.counts,
    {
        self.counts
    }

    /// Whether the scan has ended.
    pub fn is_finished(&self) -> (finished: bool)
        ensures
            finished == self@.finished(),
    {
        self.failure.is_some() || self.pending.len() == 0
    }

    /// What the driver is to do now. Where that is to stop, the scan has ended
    /// in one of the ways in which a scan ends.
    pub fn next_action(&self) -> (action: Action)
        ensures
            action@ == self@.next_action(),
            action@ matches ActionView::Finish(outcome) ==> scan_outcome(outcome),
            self@.sound(),
    {
        proof {
            use_type_invariant(self);
            lemma_sound_scan_ends_well(self@);
        }
        match &self.failure {
            Some(error) => Action::Finish(Err(same_error(error))),
            None => {
                if self.pending.len() == 0 {
                    Action::Finish(self.counts.verdict())
                } else {
                    Action::Perform(same_request(&self.pending[self.pending.len() - 1]))
                }
            },
        }
    }

    /// Gives the scan up.
    fn give_up(&mut self, error: AnalyzeError)
        requires
            error is MissingRootLicense || error is IoError,
        ensures
            final(self)@ == old(self)@.fail(error@),
    {
        proof {
            use_type_invariant(&*self);
        }
        self.pending = Vec::new();
        self.failure = Some(error);
        assert(self@.pending =~= Seq::empty());
    }

    /// Counts the source file at `path` with these contents, and hands the
    /// path back for the report where the contents lack the license header.
    fn count_file(&mut self, path: String, contents: &str) -> (offender: Option<String>)
        requires
            old(self)@.counts.total < usize::MAX,
        ensures
            final(self)@ == (ScanView {
                counts: old(self)@.counts.record(opens_with(contents@, HEADER@)),
                ..old(self)@
            }),
            path_view(offender) == if opens_with(contents@, HEADER@) {
                None
            } else {
                Some(path@)
            },
    {
        proof {
            use_type_invariant(&*self);
        }
        let passed = has_license_header(contents);
        let mut counts = self.counts;
        counts.record(passed);
        self.counts = counts;
        if passed {
            None
        } else {
            Some(path)
        }
    }
}

/// Stacks the requests of a listing of the directory `dir` upon the pending
/// ones.
fn stack_visits(pending: &mut Vec<Request>, dir: &str, entries: &Vec<Entry>)
    ensures
        request_views(final(pending)@) == request_views(old(pending)@) + visits(
            dir@,
            entry_views(entries@),
        ),
{
    let ghost views = entry_views(entries@);
    let ghost before = request_views(pending@);
    let mut at: usize = entries.len();
    while at > 0
        invariant
            at <= entries.len(),
            views == entry_views(entries@),
            request_views(pending@) == before + visits(dir@, views.skip(at as int)),
        decreases at,
    {
        at = at - 1;
        let ghost stacked = request_views(pending@);
        proof {
            assert(views.skip(at as int).skip(1) =~= views.skip(at as int + 1));
        }
        match visit(dir, &entries[at]) {
            Some(request) => {
                pending.push(request);
                assert(request_views(pending@) =~= stacked.push(request@));
            },
            None => {},
        }
    }
    assert(views.skip(0) =~= views);
}

/// Takes the scan one step on: `response` answers the request that was
/// pending. Returns the file to report, if the response showed one without
/// the license header, and what to do next. Where that is to stop, the scan
/// has ended in one of the ways in which a scan ends.
pub fn analyze_license(scan: &mut LicenseScan, response: Response) -> (step: Step)
    requires
        old(scan)@.counts_file(response@) ==> old(scan)@.counts.total < usize::MAX,
    ensures
        final(scan)@ == old(scan)@.step(response@),
        path_view(step.offender) == old(scan)@.offender(response@),
        step.next@ == final(scan)@.next_action(),
        step.next@ matches ActionView::Finish(outcome) ==> scan_outcome(outcome),
        final(scan)@.sound(),
        final(scan)@.counts.failed <= final(scan)@.counts.total,
{
    proof {
        use_type_invariant(&*scan);
    }
    if scan.is_finished() {
        return Step { offender: None, next: scan.next_action() };
    }
    let ghost before = scan@;
    let mut pending: Vec<Request> = Vec::new();
    std::mem::swap(&mut scan.pending, &mut pending);
    let request = pending.pop().unwrap();
    assert(request_views(pending@) =~= before.pending.drop_last());
    let mut offender: Option<String> = None;
    match request {
        Request::ListDirectory(dir) => match response {
            Response::Listing(entries) => {
                if scan.at_root && check_license_file(entries.as_slice()).is_err() {
                    scan.give_up(AnalyzeError::MissingRootLicense);
                } else {
                    scan.at_root = false;
                    stack_visits(&mut pending, dir.as_str(), &entries);
                    std::mem::swap(&mut scan.pending, &mut pending);
                }
            },
            Response::Contents(_) => {
                scan.give_up(AnalyzeError::IoError(UNEXPECTED_RESPONSE.to_owned()));
            },
            Response::Failed(reason) => {
                scan.give_up(AnalyzeError::IoError(reason));
            },
        },
        Request::ReadFile(path) => match response {
            Response::Contents(text) => {
                offender = scan.count_file(path, text.as_str());
                std::mem::swap(&mut scan.pending, &mut pending);
            },
            Response::Listing(_) => {
                scan.give_up(AnalyzeError::IoError(UNEXPECTED_RESPONSE.to_owned()));
            },
            Response::Failed(reason) => {
                scan.give_up(AnalyzeError::IoError(reason));
            },
        },
    }
    Step { offender, next: scan.next_action() }
}

} // verus!
