// This Source Code Form is subject to the terms of the Mozilla Public
// License, v. 2.0. If a copy of the MPL was not distributed with this
// file, You can obtain one at http://mozilla.org/MPL/2.0/.
//
// Copyright (c) DUSK NETWORK. All rights reserved.

//! What a tree of directories holds, why a scan that is answered from the
//! tree counts and reports exactly that, and the walk over a tree in memory.

use crate::counts::Tally;
use crate::errors::AnalyzeErrorView;
use crate::header::{opens_with, HEADER};
use crate::counts::ScanCounts;
use crate::scan::{
    analyze_license, entry_views, holds_license, is_pruned, is_source_file, join, pruned,
    source_name, visit_of, visits, Action, ActionView, Entry, EntryKind, EntryView, LicenseScan,
    RequestView, Response, ResponseView, ScanView,
};
use vstd::prelude::*;

verus! {

/// A file system entry with what lies below it.
pub enum Node {
    File { name: Seq<char>, contents: Seq<char> },
    Directory { name: Seq<char>, entries: Seq<Node> },
    Other { name: Seq<char> },
}

/// What a walk has to do below some entries: the source files to count, the
/// paths of those without the license header in the order in which a walk
/// comes by them, and the number of requests to make.
pub struct Census {
    pub tally: Tally,
    pub offenders: Seq<Seq<char>>,
    pub requests: nat,
}

impl Census {
    /// Nothing to count, to report or to ask.
    pub open spec fn zero() -> Census {
        Census { tally: Tally::zero(), offenders: Seq::empty(), requests: 0 }
    }

    /// This census and then the other.
    pub open spec fn plus(self, other: Census) -> Census {
        Census {
            tally: self.tally.plus(other.tally),
            offenders: self.offenders + other.offenders,
            requests: self.requests + other.requests,
        }
    }
}

impl Node {
    /// The name of the entry in its directory.
    pub open spec fn name(self) -> Seq<char> {
        match self {
            Node::File { name, .. } => name,
            Node::Directory { name, .. } => name,
            Node::Other { name } => name,
        }
    }

    /// A walk visits the entry: it is a directory that is not pruned, or a
    /// source file.
    pub open spec fn visited(self) -> bool {
        match self {
            Node::File { name, .. } => source_name(name),
            Node::Directory { name, .. } => !pruned(name),
            Node::Other { .. } => false,
        }
    }

    /// What the entry itself gives a walk to do, without what lies below it:
    /// a source file is counted, and reported unless it opens with the
    /// license header; a directory that is not pruned is listed.
    pub open spec fn own(self, dir: Seq<char>) -> Census {
        match self {
            Node::File { .. } => self.census(dir),
            Node::Directory { name, .. } => if pruned(name) {
                Census::zero()
            } else {
                Census { tally: Tally::zero(), offenders: Seq::empty(), requests: 1 }
            },
            Node::Other { .. } => Census::zero(),
        }
    }

    /// The entry as a listing of its directory shows it.
    pub open spec fn entry(self) -> EntryView {
        match self {
            Node::File { name, .. } => EntryView { name, kind: EntryKind::File },
            Node::Directory { name, .. } => EntryView { name, kind: EntryKind::Directory },
            Node::Other { name } => EntryView { name, kind: EntryKind::Other },
        }
    }

    /// What the file system answers when asked for the entry.
    pub open spec fn answer(self) -> ResponseView {
        match self {
            Node::File { contents, .. } => ResponseView::Contents(contents),
            Node::Directory { entries, .. } => ResponseView::Listing(listing(entries)),
            Node::Other { .. } => ResponseView::Failed(Seq::empty()),
        }
    }

    /// The census of the entry, which lies in the directory `dir`, and of
    /// what lies below it: a source file counts once, and as failed, with
    /// its path, unless it opens with the license header; a directory counts
    /// what it holds, unless it is pruned; nothing else counts.
    pub open spec fn census(self, dir: Seq<char>) -> Census
        decreases self,
    {
        match self {
            Node::File { name, contents } => if !source_name(name) {
                Census::zero()
            } else if opens_with(contents, HEADER@) {
                Census {
                    tally: Tally { total: 1, failed: 0 },
                    offenders: Seq::empty(),
                    requests: 1,
                }
            } else {
                Census {
                    tally: Tally { total: 1, failed: 1 },
                    offenders: seq![join(dir, name)],
                    requests: 1,
                }
            },
            Node::Directory { name, entries } => if pruned(name) {
                Census::zero()
            } else {
                let below = census_in(join(dir, name), entries);
                Census { requests: below.requests + 1, ..below }
            },
            Node::Other { .. } => Census::zero(),
        }
    }
}

/// The census of the entries of the directory `dir`, in their order.
pub open spec fn census_in(dir: Seq<char>, entries: Seq<Node>) -> Census
    decreases entries,
{
    if entries.len() == 0 {
        Census::zero()
    } else {
        entries[0].census(dir).plus(census_in(dir, entries.skip(1)))
    }
}

/// The listing of a directory that holds these entries.
pub open spec fn listing(entries: Seq<Node>) -> Seq<EntryView> {
    entries.map_values(|node: Node| node.entry())
}

/// An entry together with the path of the directory that it lies in.
pub struct Placed {
    pub dir: Seq<char>,
    pub node: Node,
}

impl Placed {
    /// The request that a walk makes for the entry, if it visits the entry.
    pub open spec fn request(self) -> Option<RequestView> {
        visit_of(self.dir, self.node.entry())
    }

    /// The census of the entry and of what lies below it.
    pub open spec fn census(self) -> Census {
        self.node.census(self.dir)
    }
}

/// The entries of the directory `dir` that a walk visits, as their requests
/// are stacked: the first one comes last.
pub open spec fn reached(dir: Seq<char>, entries: Seq<Node>) -> Seq<Placed>
    decreases entries.len(),
{
    if entries.len() == 0 {
        Seq::empty()
    } else {
        let later = reached(dir, entries.skip(1));
        if entries[0].visited() {
            later.push(Placed { dir, node: entries[0] })
        } else {
            later
        }
    }
}

/// The census of a stack of entries, from the last one down.
pub open spec fn census_of(nodes: Seq<Placed>) -> Census
    decreases nodes.len(),
{
    if nodes.len() == 0 {
        Census::zero()
    } else {
        nodes.last().census().plus(census_of(nodes.drop_last()))
    }
}

/// Each pending request is the one that a walk makes for the entry at its
/// place.
pub open spec fn follows(pending: Seq<RequestView>, nodes: Seq<Placed>) -> bool {
    &&& pending.len() == nodes.len()
    &&& forall|i: int| 0 <= i < nodes.len() ==> (#[trigger] nodes[i]).request() == Some(pending[i])
}

/// The entries that are left to visit once the last of `nodes` has been
/// answered for.
pub open spec fn remaining(nodes: Seq<Placed>) -> Seq<Placed> {
    match nodes.last().node {
        Node::Directory { name, entries } => nodes.drop_last() + reached(
            join(nodes.last().dir, name),
            entries,
        ),
        _ => nodes.drop_last(),
    }
}

/// A scan and the offenders that it has handed out for the report so far.
pub struct Run {
    pub scan: ScanView,
    pub reported: Seq<Seq<char>>,
}

impl Run {
    /// The run after `response` has come in.
    pub open spec fn step(self, response: ResponseView) -> Run {
        Run {
            scan: self.scan.step(response),
            reported: match self.scan.offender(response) {
                Some(path) => self.reported.push(path),
                None => self.reported,
            },
        }
    }
}

/// The run after at most `steps` requests, each answered from the entry that
/// it asks for.
pub open spec fn walk(run: Run, nodes: Seq<Placed>, steps: nat) -> Run
    decreases steps,
{
    if steps == 0 || nodes.len() == 0 {
        run
    } else {
        walk(run.step(nodes.last().node.answer()), remaining(nodes), (steps - 1) as nat)
    }
}

/// The scan of the package at `root` that holds `entries`, run until
/// `steps` requests have been answered from the tree or none is left.
pub open spec fn scan_of(root: Seq<char>, entries: Seq<Node>, steps: nat) -> Run {
    let start = Run { scan: ScanView::start(root), reported: Seq::empty() };
    if steps == 0 {
        start
    } else {
        walk(
            start.step(ResponseView::Listing(listing(entries))),
            reached(root, entries),
            (steps - 1) as nat,
        )
    }
}

/// As many files have failed in a census as it names offenders.
pub proof fn lemma_census_names_the_failed(dir: Seq<char>, entries: Seq<Node>)
    ensures
        census_in(dir, entries).tally.failed == census_in(dir, entries).offenders.len(),
        census_in(dir, entries).tally.failed <= census_in(dir, entries).tally.total,
    decreases entries,
{
    if entries.len() > 0 {
        lemma_census_names_the_failed(dir, entries.skip(1));
        match entries[0] {
            Node::Directory { name, entries: below } => {
                lemma_census_names_the_failed(join(dir, name), below);
            },
            _ => {},
        }
        assert(census_in(dir, entries) == entries[0].census(dir).plus(
            census_in(dir, entries.skip(1)),
        ));
    }
}

/// The requests of a listing are those that a walk makes for the entries that
/// it visits.
pub proof fn lemma_visits_follow(dir: Seq<char>, entries: Seq<Node>)
    ensures
        follows(visits(dir, listing(entries)), reached(dir, entries)),
    decreases entries.len(),
{
    if entries.len() > 0 {
        lemma_visits_follow(dir, entries.skip(1));
        assert(listing(entries).skip(1) =~= listing(entries.skip(1)));
    }
}

/// The census of two stacks, one upon the other, is that of the upper one
/// and then that of the lower one.
pub proof fn lemma_census_of_concat(below: Seq<Placed>, above: Seq<Placed>)
    ensures
        census_of(below + above) == census_of(above).plus(census_of(below)),
    decreases above.len(),
{
    if above.len() > 0 {
        lemma_census_of_concat(below, above.drop_last());
        assert((below + above).drop_last() =~= below + above.drop_last());
        assert(census_of(below + above).offenders =~= census_of(above).plus(
            census_of(below),
        ).offenders);
    }
}

/// The entries that a walk visits hold all that the directory counts.
pub proof fn lemma_census_of_reached(dir: Seq<char>, entries: Seq<Node>)
    ensures
        census_of(reached(dir, entries)) == census_in(dir, entries),
    decreases entries.len(),
{
    if entries.len() > 0 {
        lemma_census_of_reached(dir, entries.skip(1));
        let later = reached(dir, entries.skip(1));
        let first = Placed { dir, node: entries[0] };
        if first.request() is Some {
            assert(later.push(first).drop_last() =~= later);
        } else {
            assert(first.census() == Census::zero());
        }
    }
}

/// A walk that is answered from the tree ends, within as many steps as the
/// census foresees requests, and then has counted and reported what the
/// census foresees, after what it had counted and reported before.
pub proof fn lemma_walk_counts(run: Run, nodes: Seq<Placed>, steps: nat)
    requires
        follows(run.scan.pending, nodes),
        run.scan.failure is None,
        !run.scan.at_root,
    ensures
        walk(run, nodes, steps).scan.failure is None,
        walk(run, nodes, steps).scan.finished() ==> {
            &&& walk(run, nodes, steps).scan.counts == run.scan.counts.plus(census_of(nodes).tally)
            &&& walk(run, nodes, steps).reported == run.reported + census_of(nodes).offenders
        },
        steps >= census_of(nodes).requests ==> walk(run, nodes, steps).scan.finished(),
    decreases steps,
{
    if nodes.len() > 0 {
        let last = nodes.last();
        if steps > 0 {
            let next = run.step(last.node.answer());
            match last.node {
                Node::Directory { name, entries } => {
                    let dir = join(last.dir, name);
                    lemma_visits_follow(dir, entries);
                    lemma_census_of_concat(nodes.drop_last(), reached(dir, entries));
                    lemma_census_of_reached(dir, entries);
                },
                _ => {},
            }
            lemma_walk_counts(next, remaining(nodes), (steps - 1) as nat);
        }
    }
}

/// A scan that is answered from the tree, in a package root that holds the
/// license file, ends within one step more than the census of the root
/// foresees requests. Whenever it has ended, it has not been given up, it has
/// counted every source file below the root outside the pruned directories,
/// and as failed those among them that do not open with the license header,
/// it has reported the paths of the latter, each once and in the order of the
/// walk, and it ends with the verdict on those counts.
pub proof fn lemma_scan_counts_tree(root: Seq<char>, entries: Seq<Node>, steps: nat)
    requires
        holds_license(listing(entries)),
    ensures
        steps > census_in(root, entries).requests ==> scan_of(root, entries, steps).scan.finished(),
        scan_of(root, entries, steps).scan.finished() ==> {
            &&& scan_of(root, entries, steps).scan.failure is None
            &&& scan_of(root, entries, steps).scan.counts == census_in(root, entries).tally
            &&& scan_of(root, entries, steps).reported == census_in(root, entries).offenders
            &&& scan_of(root, entries, steps).scan.next_action() == ActionView::Finish(
                census_in(root, entries).tally.verdict(),
            )
        },
{
    if steps > 0 {
        let start = Run { scan: ScanView::start(root), reported: Seq::empty() };
        let first = start.step(ResponseView::Listing(listing(entries)));
        lemma_visits_follow(root, entries);
        lemma_census_of_reached(root, entries);
        lemma_walk_counts(first, reached(root, entries), (steps - 1) as nat);
    }
}

/// In a package root without the license file the scan ends with its first
/// step, before any file is read.
pub proof fn lemma_scan_stops_without_license(root: Seq<char>, entries: Seq<EntryView>)
    requires
        !holds_license(entries),
    ensures
        ({
            let first = ScanView::start(root).step(ResponseView::Listing(entries));
            &&& first.finished()
            &&& first.counts == Tally::zero()
            &&& first.next_action() == ActionView::Finish(
                Err(AnalyzeErrorView::MissingRootLicense),
            )
        }),
{
}

/// The census of a stack is what its last entry gives a walk to do itself,
/// and then the census of what is left after it.
pub proof fn lemma_census_of_step(nodes: Seq<Placed>)
    requires
        nodes.len() > 0,
        nodes.last().node.visited(),
    ensures
        census_of(nodes) == nodes.last().node.own(nodes.last().dir).plus(
            census_of(remaining(nodes)),
        ),
{
    let last = nodes.last();
    match last.node {
        Node::Directory { name, entries } => {
            let dir = join(last.dir, name);
            lemma_census_of_concat(nodes.drop_last(), reached(dir, entries));
            lemma_census_of_reached(dir, entries);
        },
        _ => {},
    }
}

/// Where what was told and what is still to tell make up what was there
/// before and all there is to tell, what was told is what was there before
/// and the first of all there is to tell.
proof fn lemma_told_so_far<A>(told: Seq<A>, rest: Seq<A>, before: Seq<A>, all: Seq<A>)
    requires
        told + rest == before + all,
        told.len() >= before.len(),
    ensures
        rest.len() <= all.len(),
        told == before + all.take(all.len() - rest.len()),
{
    assert((before + all).len() == before.len() + all.len());
    let first = all.take(all.len() - rest.len());
    assert forall|i: int| 0 <= i < told.len() implies told[i] == (before + first)[i] by {
        assert((before + all)[i] == (before + first)[i]);
    }
}

/// A file system entry in memory, with what lies below it.
#[derive(Debug, PartialEq, Eq)]
pub enum Tree {
    File { name: String, contents: String },
    Directory { name: String, entries: Vec<Tree> },
    Other { name: String },
}

impl View for Tree {
    type V = Node;

    open spec fn view(&self) -> Node
        decreases self,
    {
        match self {
            Tree::File { name, contents } => Node::File { name: name@, contents: contents@ },
            Tree::Directory { name, entries } => Node::Directory {
                name: name@,
                entries: nodes(entries@),
            },
            Tree::Other { name } => Node::Other { name: name@ },
        }
    }
}

/// The entries in memory as the contracts see them.
pub open spec fn nodes(trees: Seq<Tree>) -> Seq<Node>
    decreases trees,
{
    if trees.len() == 0 {
        Seq::empty()
    } else {
        nodes(trees.drop_last()).push(trees.last()@)
    }
}

/// The entries that are left to visit as the contracts see them.
pub open spec fn left_nodes(left: Seq<&Tree>) -> Seq<Node> {
    left.map_values(|tree: &Tree| tree@)
}

/// The entries of a stack without their directories.
pub open spec fn placed_nodes(placed: Seq<Placed>) -> Seq<Node> {
    placed.map_values(|placed: Placed| placed.node)
}

/// The characters of paths.
pub open spec fn texts(paths: Seq<String>) -> Seq<Seq<char>> {
    paths.map_values(|path: String| path@)
}

/// Entry by entry, the contracts see what is in memory.
pub proof fn lemma_nodes(trees: Seq<Tree>)
    ensures
        nodes(trees).len() == trees.len(),
        forall|i: int| 0 <= i < trees.len() ==> (#[trigger] nodes(trees)[i]) == trees[i]@,
    decreases trees.len(),
{
    if trees.len() > 0 {
        lemma_nodes(trees.drop_last());
        assert(nodes(trees) == nodes(trees.drop_last()).push(trees.last()@));
    } else {
    }
}

/// The entry as a listing of its directory shows it.
fn entry_of(tree: &Tree) -> (entry: Entry)
    ensures
        entry@ == tree@.entry(),
{
    match tree {
        Tree::File { name, .. } => Entry { name: name.clone(), kind: EntryKind::File },
        Tree::Directory { name, .. } => Entry { name: name.clone(), kind: EntryKind::Directory },
        Tree::Other { name } => Entry { name: name.clone(), kind: EntryKind::Other },
    }
}

/// Whether a walk visits the entry.
fn is_visited(tree: &Tree) -> (visited: bool)
    ensures
        visited == tree@.visited(),
{
    match tree {
        Tree::File { name, .. } => is_source_file(name.as_str()),
        Tree::Directory { name, .. } => !is_pruned(name.as_str()),
        Tree::Other { .. } => false,
    }
}

/// The listing of a directory that holds these entries.
fn listing_of(trees: &Vec<Tree>) -> (entries: Vec<Entry>)
    ensures
        entry_views(entries@) == listing(nodes(trees@)),
{
    let mut entries: Vec<Entry> = Vec::new();
    let mut at: usize = 0;
    proof {
        lemma_nodes(trees@);
    }
    while at < trees.len()
        invariant
            at <= trees.len(),
            entries@.len() == at,
            nodes(trees@).len() == trees@.len(),
            forall|i: int| 0 <= i < at ==> (#[trigger] entries@[i])@ == nodes(trees@)[i].entry(),
            forall|i: int| 0 <= i < trees@.len() ==> (#[trigger] nodes(trees@)[i]) == trees@[i]@,
        decreases trees.len() - at,
    {
        entries.push(entry_of(&trees[at]));
        at = at + 1;
    }
    entries
}

/// Stacks those of the entries of the directory `dir` that a walk visits,
/// as the scan stacks its requests for them.
fn stack_trees<'a>(left: &mut Vec<&'a Tree>, trees: &'a Vec<Tree>, Ghost(dir): Ghost<Seq<char>>)
    ensures
        left_nodes(final(left)@) == left_nodes(old(left)@) + placed_nodes(
            reached(dir, nodes(trees@)),
        ),
{
    let ghost all = nodes(trees@);
    let ghost before = left_nodes(left@);
    let mut at: usize = trees.len();
    proof {
        lemma_nodes(trees@);
    }
    while at > 0
        invariant
            at <= trees.len(),
            all == nodes(trees@),
            all.len() == trees@.len(),
            forall|i: int| 0 <= i < trees@.len() ==> (#[trigger] all[i]) == trees@[i]@,
            left_nodes(left@) == before + placed_nodes(reached(dir, all.skip(at as int))),
        decreases at,
    {
        at = at - 1;
        let ghost stacked = left_nodes(left@);
        proof {
            assert(all.skip(at as int).skip(1) =~= all.skip(at as int + 1));
        }
        if is_visited(&trees[at]) {
            left.push(&trees[at]);
            assert(left_nodes(left@) =~= stacked.push(trees@[at as int]@));
        }
    }
    assert(all.skip(0) =~= all);
}

/// Walks the directory `dir` that holds `entries`, and hands back how many
/// source files lie below it outside the pruned directories, and how many of
/// them do not open with the license header. The paths of the latter are
/// added to `offenders`, in the order of the walk.
///
/// Nothing is handed back where the machine cannot hold the number of the
/// source files; the walk then stops at the file that it can no longer
/// count, with the offenders before that file added.
pub fn check_license_header(dir: &str, entries: &Vec<Tree>, offenders: &mut Vec<String>) -> (walked:
    Option<ScanCounts>)
    ensures
        walked is Some <==> census_in(dir@, nodes(entries@)).tally.total <= usize::MAX,
        walked matches Some(counts) ==> {
            &&& counts@ == census_in(dir@, nodes(entries@)).tally
            &&& counts@.failed <= counts@.total
            &&& texts(final(offenders)@) == texts(old(offenders)@) + census_in(
                dir@,
                nodes(entries@),
            ).offenders
        },
        walked is None ==> exists|told: int|
            0 <= told <= census_in(dir@, nodes(entries@)).offenders.len() && texts(
                final(offenders)@,
            ) == texts(old(offenders)@) + #[trigger] census_in(
                dir@,
                nodes(entries@),
            ).offenders.take(told),
{
    let ghost census = census_in(dir@, nodes(entries@));
    let ghost reported = texts(offenders@);
    let mut scan = LicenseScan::within(dir);
    let mut left: Vec<&Tree> = Vec::new();
    let step = analyze_license(&mut scan, Response::Listing(listing_of(entries)));
    stack_trees(&mut left, entries, Ghost(dir@));
    let ghost mut placed = reached(dir@, nodes(entries@));
    let mut action = step.next;
    proof {
        lemma_visits_follow(dir@, nodes(entries@));
        lemma_census_of_reached(dir@, nodes(entries@));
        lemma_census_names_the_failed(dir@, nodes(entries@));
    }
    loop
        invariant
            follows(scan@.pending, placed),
            scan@.failure is None,
            !scan@.at_root,
            left_nodes(left@) == placed_nodes(placed),
            action@ == scan@.next_action(),
            scan@.counts.plus(census_of(placed).tally) == census.tally,
            texts(offenders@) + census_of(placed).offenders == reported + census.offenders,
            census == census_in(dir@, nodes(entries@)),
            reported == texts(old(offenders)@),
            census.tally.failed <= census.tally.total,
            texts(offenders@).len() >= reported.len(),
        decreases census_of(placed).requests,
    {
        if let Action::Finish(_) = action {
            let counts = scan.counts();
            proof {
                use_type_invariant(&counts);
            }
            return Some(counts);
        }
        assert(left_nodes(left@).len() == placed_nodes(placed).len());
        let ghost full = left@;
        let tree = left.pop().unwrap();
        let ghost last = placed.last();
        proof {
            assert(tree@ == placed_nodes(placed)[placed.len() - 1]);
            assert(left_nodes(full.drop_last()) =~= left_nodes(full).drop_last());
            lemma_census_of_step(placed);
        }
        let full_count = scan.counts().total() == usize::MAX;
        let response = match tree {
            Tree::File { contents, .. } => {
                if full_count {
                    proof {
                        lemma_told_so_far(
                            texts(offenders@),
                            census_of(placed).offenders,
                            reported,
                            census.offenders,
                        );
                    }
                    return None;
                }
                Response::Contents(contents.clone())
            },
            Tree::Directory { entries: below, .. } => Response::Listing(listing_of(below)),
            Tree::Other { .. } => Response::Failed(String::new()),
        };
        let step = analyze_license(&mut scan, response);
        match step.offender {
            Some(path) => {
                offenders.push(path);
            },
            None => {},
        }
        match tree {
            Tree::Directory { entries: below, .. } => {
                let ghost inner = join(last.dir, last.node.name());
                stack_trees(&mut left, below, Ghost(inner));
                proof {
                    lemma_visits_follow(inner, nodes(below@));
                }
            },
            _ => {},
        }
        proof {
            placed = remaining(placed);
        }
        action = step.next;
    }
}

} // verus!
