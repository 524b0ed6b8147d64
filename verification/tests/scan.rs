use dusk_analyzer::counts::ScanCounts;
use dusk_analyzer::header::HEADER;
use dusk_analyzer::scan::{
    analyze_license, check_license_file, is_pruned, is_source_file, join_path, visit, Action,
    Entry, EntryKind, LicenseScan, Request, Response, Step, BUILD_DIRECTORY, LICENSE_FILE,
    UNEXPECTED_RESPONSE, VCS_DIRECTORY,
};
use dusk_analyzer::tree::{check_license_header, Tree};
use dusk_analyzer::AnalyzeError;

/// A tree in memory to answer the scan from.
enum Node {
    File(&'static str, String),
    Dir(&'static str, Vec<Node>),
    Other(&'static str),
    Unreadable(&'static str, EntryKind),
}

impl Node {
    fn name(&self) -> &'static str {
        match self {
            Node::File(name, _) | Node::Dir(name, _) | Node::Other(name) => name,
            Node::Unreadable(name, _) => name,
        }
    }

    fn entry(&self) -> Entry {
        let kind = match self {
            Node::File(..) => EntryKind::File,
            Node::Dir(..) => EntryKind::Directory,
            Node::Other(..) => EntryKind::Other,
            Node::Unreadable(_, kind) => *kind,
        };
        Entry { name: self.name().to_string(), kind }
    }
}

fn find<'a>(nodes: &'a [Node], path: &str) -> Option<&'a Node> {
    let (first, rest) = match path.split_once('/') {
        Some((first, rest)) => (first, Some(rest)),
        None => (path, None),
    };
    let node = nodes.iter().find(|node| node.name() == first)?;
    match (rest, node) {
        (None, _) => Some(node),
        (Some(rest), Node::Dir(_, below)) => find(below, rest),
        _ => None,
    }
}

fn answer(root: &[Node], request: &Request) -> Response {
    let failed = || Response::Failed("denied".to_string());
    match request {
        Request::ListDirectory(path) => {
            let below = if path == "root" {
                Some(root)
            } else {
                match find(root, &path["root/".len()..]) {
                    Some(Node::Dir(_, below)) => Some(&below[..]),
                    _ => None,
                }
            };
            match below {
                Some(below) => Response::Listing(below.iter().map(Node::entry).collect()),
                None => failed(),
            }
        }
        Request::ReadFile(path) => match find(root, &path["root/".len()..]) {
            Some(Node::File(_, contents)) => Response::Contents(contents.clone()),
            _ => failed(),
        },
    }
}

struct Run {
    requests: Vec<Request>,
    offenders: Vec<String>,
    counts: ScanCounts,
    outcome: Result<(), AnalyzeError>,
}

fn run(root: &[Node]) -> Run {
    let mut scan = LicenseScan::new("root");
    let mut requests = Vec::new();
    let mut offenders = Vec::new();
    let mut action = scan.next_action();
    loop {
        match action {
            Action::Perform(request) => {
                assert!(!scan.is_finished());
                assert!(requests.len() < 1000);
                let response = answer(root, &request);
                requests.push(request);
                let step = analyze_license(&mut scan, response);
                if let Some(path) = step.offender {
                    offenders.push(path);
                }
                action = step.next;
            }
            Action::Finish(outcome) => {
                assert!(scan.is_finished());
                return Run { requests, offenders, counts: scan.counts(), outcome };
            }
        }
    }
}

fn list(path: &str) -> Request {
    Request::ListDirectory(path.to_string())
}

fn read(path: &str) -> Request {
    Request::ReadFile(path.to_string())
}

fn good() -> String {
    format!("{}\nfn main() {{}}\n", HEADER)
}

fn bad() -> String {
    "fn main() {}\n".to_string()
}

fn license() -> Node {
    Node::File("LICENSE", "Mozilla Public License Version 2.0".to_string())
}

fn entry(name: &str, kind: EntryKind) -> Entry {
    Entry { name: name.to_string(), kind }
}

#[test]
fn names_are_the_policy() {
    assert_eq!(BUILD_DIRECTORY, "target");
    assert_eq!(VCS_DIRECTORY, ".git");
    assert_eq!(LICENSE_FILE, "LICENSE");
}

#[test]
fn missing_license_stops_the_scan() {
    let root = vec![Node::Dir("src", vec![Node::File("lib.rs", bad())])];
    let run = run(&root);
    assert_eq!(run.outcome, Err(AnalyzeError::MissingRootLicense));
    assert_eq!(run.requests, vec![list("root")]);
    assert_eq!(run.counts.total(), 0);
    assert_eq!(run.counts.failed(), 0);
    assert!(run.offenders.is_empty());
}

#[test]
fn empty_root_misses_the_license() {
    let run = run(&[]);
    assert_eq!(run.outcome, Err(AnalyzeError::MissingRootLicense));
    assert_eq!(run.requests, vec![list("root")]);
}

#[test]
fn license_below_the_root_does_not_count() {
    let root = vec![Node::Dir("docs", vec![license()])];
    let run = run(&root);
    assert_eq!(run.outcome, Err(AnalyzeError::MissingRootLicense));
    assert_eq!(run.requests, vec![list("root")]);
}

#[test]
fn two_files_with_header_pass() {
    let root = vec![
        license(),
        Node::Dir(
            "src",
            vec![Node::File("lib.rs", HEADER.to_string()), Node::File("main.rs", good())],
        ),
    ];
    let run = run(&root);
    assert_eq!(run.outcome, Ok(()));
    assert_eq!(run.counts.total(), 2);
    assert_eq!(run.counts.failed(), 0);
    assert_eq!(run.counts.succeeded(), 2);
    assert!(run.offenders.is_empty());
    assert_eq!(
        run.requests,
        vec![list("root"), list("root/src"), read("root/src/lib.rs"), read("root/src/main.rs")]
    );
}

#[test]
fn file_without_header_fails() {
    let root = vec![license(), Node::Dir("src", vec![Node::File("lib.rs", bad())])];
    let run = run(&root);
    assert_eq!(
        run.outcome,
        Err(AnalyzeError::MissingLicenseHeader { success: 0, failed: 1, total: 1 })
    );
    assert_eq!(run.counts.total(), 1);
    assert_eq!(run.counts.failed(), 1);
    assert_eq!(run.offenders, vec!["root/src/lib.rs".to_string()]);
}

#[test]
fn all_files_are_counted_before_the_verdict() {
    let root = vec![
        Node::File("build.rs", bad()),
        license(),
        Node::Dir(
            "src",
            vec![
                Node::File("a.rs", good()),
                Node::Dir("deep", vec![Node::File("b.rs", bad()), Node::File("c.rs", good())]),
                Node::File("d.rs", format!("{}fn main() {{}}", HEADER)),
            ],
        ),
        Node::Dir("tests", vec![Node::File("e.rs", good())]),
    ];
    let run = run(&root);
    assert_eq!(
        run.outcome,
        Err(AnalyzeError::MissingLicenseHeader { success: 3, failed: 3, total: 6 })
    );
    assert_eq!(
        run.offenders,
        vec![
            "root/build.rs".to_string(),
            "root/src/deep/b.rs".to_string(),
            "root/src/d.rs".to_string()
        ]
    );
    assert_eq!(
        run.requests,
        vec![
            list("root"),
            read("root/build.rs"),
            list("root/src"),
            read("root/src/a.rs"),
            list("root/src/deep"),
            read("root/src/deep/b.rs"),
            read("root/src/deep/c.rs"),
            read("root/src/d.rs"),
            list("root/tests"),
            read("root/tests/e.rs"),
        ]
    );
}

#[test]
fn pruned_directories_are_not_entered() {
    let root = vec![
        license(),
        Node::Dir("target", vec![Node::File("generated.rs", bad())]),
        Node::Dir(".git", vec![Node::File("hook.rs", bad())]),
        Node::Dir(
            "src",
            vec![
                Node::Dir("target", vec![Node::File("x.rs", bad())]),
                Node::Dir(".git", vec![Node::File("y.rs", bad())]),
                Node::File("lib.rs", good()),
            ],
        ),
    ];
    let run = run(&root);
    assert_eq!(run.outcome, Ok(()));
    assert_eq!(run.counts.total(), 1);
    assert_eq!(run.requests, vec![list("root"), list("root/src"), read("root/src/lib.rs")]);
}

#[test]
fn names_close_to_the_pruned_ones_are_entered() {
    let root = vec![
        license(),
        Node::Dir("targets", vec![Node::File("a.rs", bad())]),
        Node::Dir("Target", vec![Node::File("b.rs", bad())]),
        Node::Dir(".github", vec![Node::File("c.rs", bad())]),
        Node::Dir("git", vec![Node::File("d.rs", bad())]),
    ];
    let run = run(&root);
    assert_eq!(
        run.outcome,
        Err(AnalyzeError::MissingLicenseHeader { success: 0, failed: 4, total: 4 })
    );
}

#[test]
fn files_named_like_pruned_directories_are_files() {
    let root = vec![license(), Node::File("target", bad()), Node::File(".git", bad())];
    let run = run(&root);
    assert_eq!(run.outcome, Ok(()));
    assert_eq!(run.counts.total(), 0);
    assert_eq!(run.requests, vec![list("root")]);
}

#[test]
fn only_source_files_are_read() {
    let root = vec![
        license(),
        Node::File("README.md", bad()),
        Node::File("Cargo.toml", bad()),
        Node::File("rs", bad()),
        Node::File(".rs", bad()),
        Node::File("lib.rs.bak", bad()),
        Node::File("lib.RS", bad()),
        Node::File("lib.rs", good()),
    ];
    let run = run(&root);
    assert_eq!(run.outcome, Ok(()));
    assert_eq!(run.counts.total(), 1);
    assert_eq!(run.requests, vec![list("root"), read("root/lib.rs")]);
}

#[test]
fn other_entries_are_ignored() {
    let root = vec![
        license(),
        Node::Other("link.rs"),
        Node::Other("src"),
        Node::Other("target"),
    ];
    let run = run(&root);
    assert_eq!(run.outcome, Ok(()));
    assert_eq!(run.counts.total(), 0);
    assert_eq!(run.requests, vec![list("root")]);
}

#[test]
fn directory_with_source_name_is_entered() {
    let root = vec![license(), Node::Dir("odd.rs", vec![Node::File("inner.rs", bad())])];
    let run = run(&root);
    assert_eq!(
        run.outcome,
        Err(AnalyzeError::MissingLicenseHeader { success: 0, failed: 1, total: 1 })
    );
    assert_eq!(run.requests, vec![list("root"), list("root/odd.rs"), read("root/odd.rs/inner.rs")]);
}

#[test]
fn license_of_any_kind_is_found() {
    for kind in [EntryKind::File, EntryKind::Directory, EntryKind::Other] {
        assert_eq!(check_license_file(&[entry("LICENSE", kind)]), Ok(()));
    }
}

#[test]
fn license_is_found_by_its_exact_name() {
    let kind = EntryKind::File;
    assert_eq!(check_license_file(&[]), Err(AnalyzeError::MissingRootLicense));
    assert_eq!(
        check_license_file(&[entry("LICENSE.md", kind), entry("license", kind)]),
        Err(AnalyzeError::MissingRootLicense)
    );
    assert_eq!(
        check_license_file(&[entry("LICENSE-MIT", kind), entry("COPYING", kind)]),
        Err(AnalyzeError::MissingRootLicense)
    );
    assert_eq!(
        check_license_file(&[entry("src", EntryKind::Directory), entry("LICENSE", kind)]),
        Ok(())
    );
}

#[test]
fn unreadable_file_gives_the_scan_up() {
    let root = vec![
        license(),
        Node::File("a.rs", bad()),
        Node::Unreadable("b.rs", EntryKind::File),
        Node::File("c.rs", bad()),
    ];
    let run = run(&root);
    assert_eq!(run.outcome, Err(AnalyzeError::IoError("denied".to_string())));
    assert_eq!(run.requests, vec![list("root"), read("root/a.rs"), read("root/b.rs")]);
    assert_eq!(run.offenders, vec!["root/a.rs".to_string()]);
}

#[test]
fn unreadable_directory_gives_the_scan_up() {
    let root = vec![
        license(),
        Node::Unreadable("src", EntryKind::Directory),
        Node::File("c.rs", bad()),
    ];
    let run = run(&root);
    assert_eq!(run.outcome, Err(AnalyzeError::IoError("denied".to_string())));
    assert_eq!(run.requests, vec![list("root"), list("root/src")]);
    assert!(run.offenders.is_empty());
}

#[test]
fn unreadable_entries_that_are_not_visited_do_no_harm() {
    let root = vec![
        license(),
        Node::Unreadable("target", EntryKind::Directory),
        Node::Unreadable("notes.txt", EntryKind::File),
        Node::Unreadable("socket.rs", EntryKind::Other),
    ];
    let run = run(&root);
    assert_eq!(run.outcome, Ok(()));
}

#[test]
fn unreadable_root_gives_the_scan_up() {
    let mut scan = LicenseScan::new("/nowhere");
    assert_eq!(scan.next_action(), Action::Perform(list("/nowhere")));
    let step = analyze_license(&mut scan, Response::Failed("not found".to_string()));
    assert_eq!(
        step,
        Step {
            offender: None,
            next: Action::Finish(Err(AnalyzeError::IoError("not found".to_string()))),
        }
    );
    assert!(scan.is_finished());
}

#[test]
fn contents_for_a_listing_give_the_scan_up() {
    let mut scan = LicenseScan::new("root");
    let step = analyze_license(&mut scan, Response::Contents(HEADER.to_string()));
    assert_eq!(step.offender, None);
    assert_eq!(
        step.next,
        Action::Finish(Err(AnalyzeError::IoError(UNEXPECTED_RESPONSE.to_string())))
    );
    assert_eq!(scan.counts().total(), 0);
}

#[test]
fn listing_for_a_file_gives_the_scan_up() {
    let mut scan = LicenseScan::new("root");
    let listing = vec![entry("LICENSE", EntryKind::File), entry("a.rs", EntryKind::File)];
    let step = analyze_license(&mut scan, Response::Listing(listing));
    assert_eq!(step.next, Action::Perform(read("root/a.rs")));
    let step = analyze_license(&mut scan, Response::Listing(vec![]));
    assert_eq!(step.offender, None);
    assert_eq!(
        step.next,
        Action::Finish(Err(AnalyzeError::IoError(UNEXPECTED_RESPONSE.to_string())))
    );
}

#[test]
fn finished_scan_stays_finished() {
    let mut scan = LicenseScan::new("root");
    let listing = vec![entry("LICENSE", EntryKind::File), entry("a.rs", EntryKind::File)];
    analyze_license(&mut scan, Response::Listing(listing.clone()));
    let last = analyze_license(&mut scan, Response::Contents(bad()));
    let verdict = Err(AnalyzeError::MissingLicenseHeader { success: 0, failed: 1, total: 1 });
    assert_eq!(last.offender, Some("root/a.rs".to_string()));
    assert_eq!(last.next, Action::Finish(verdict.clone()));
    for response in [
        Response::Listing(listing),
        Response::Contents(bad()),
        Response::Failed("late".to_string()),
    ] {
        let step = analyze_license(&mut scan, response);
        assert_eq!(step, Step { offender: None, next: Action::Finish(verdict.clone()) });
        assert_eq!(scan.counts().total(), 1);
        assert_eq!(scan.counts().failed(), 1);
    }
}

#[test]
fn license_is_asked_of_the_root_only() {
    let mut scan = LicenseScan::new("root");
    let root = vec![entry("LICENSE", EntryKind::File), entry("src", EntryKind::Directory)];
    let step = analyze_license(&mut scan, Response::Listing(root));
    assert_eq!(step.next, Action::Perform(list("root/src")));
    let step = analyze_license(&mut scan, Response::Listing(vec![entry("a.rs", EntryKind::File)]));
    assert_eq!(step.next, Action::Perform(read("root/src/a.rs")));
}

#[test]
fn empty_package_passes() {
    let run = run(&[license()]);
    assert_eq!(run.outcome, Ok(()));
    assert_eq!(run.counts.total(), 0);
    assert_eq!(run.counts.failed(), 0);
    assert_eq!(run.counts.succeeded(), 0);
}

#[test]
fn failed_never_exceeds_total() {
    let mut scan = LicenseScan::new("root");
    let mut listing = vec![entry("LICENSE", EntryKind::File)];
    for name in ["a.rs", "b.rs", "c.rs", "d.rs", "e.rs"] {
        listing.push(entry(name, EntryKind::File));
    }
    analyze_license(&mut scan, Response::Listing(listing));
    for (seen, contents) in [bad(), good(), bad(), bad(), good()].into_iter().enumerate() {
        analyze_license(&mut scan, Response::Contents(contents));
        let counts = scan.counts();
        assert_eq!(counts.total(), seen + 1);
        assert!(counts.failed() <= counts.total());
        assert_eq!(counts.succeeded() + counts.failed(), counts.total());
    }
    assert_eq!(scan.counts().failed(), 3);
}

#[test]
fn counts_start_at_nothing() {
    let counts = ScanCounts::new();
    assert_eq!(counts.total(), 0);
    assert_eq!(counts.failed(), 0);
    assert_eq!(counts.succeeded(), 0);
    assert_eq!(counts.verdict(), Ok(()));
}

#[test]
fn counts_record_each_file() {
    let mut counts = ScanCounts::new();
    counts.record(true);
    assert_eq!((counts.total(), counts.failed(), counts.succeeded()), (1, 0, 1));
    assert_eq!(counts.verdict(), Ok(()));
    counts.record(false);
    assert_eq!((counts.total(), counts.failed(), counts.succeeded()), (2, 1, 1));
    counts.record(false);
    counts.record(true);
    assert_eq!((counts.total(), counts.failed(), counts.succeeded()), (4, 2, 2));
    assert_eq!(
        counts.verdict(),
        Err(AnalyzeError::MissingLicenseHeader { success: 2, failed: 2, total: 4 })
    );
}

#[test]
fn source_files_are_known_by_their_extension() {
    for name in ["a.rs", "lib.rs", "a.b.rs", ".a.rs", "..rs", "é.rs", "a .rs", "rs.rs"] {
        assert!(is_source_file(name));
    }
    for name in ["", "rs", ".rs", "ars", "a.rs.", "a.rs~", "a.Rs", "a.r", "a.rss", "a.rs/", "a.toml"] {
        assert!(!is_source_file(name));
    }
}

#[test]
fn pruned_names_are_exact() {
    assert!(is_pruned("target"));
    assert!(is_pruned(".git"));
    for name in ["", "Target", "target ", "targets", "git", ".gitignore", ".github", "src"] {
        assert!(!is_pruned(name));
    }
}

#[test]
fn paths_are_joined_with_a_slash() {
    assert_eq!(join_path("root", "src"), "root/src");
    assert_eq!(join_path("/a/b", "lib.rs"), "/a/b/lib.rs");
    assert_eq!(join_path(".", "src"), "./src");
    assert_eq!(join_path("", "x"), "/x");
    assert_eq!(join_path("é", "ü"), "é/ü");
}

#[test]
fn entries_are_turned_into_requests() {
    assert_eq!(visit("r", &entry("src", EntryKind::Directory)), Some(list("r/src")));
    assert_eq!(visit("r", &entry("a.rs", EntryKind::Directory)), Some(list("r/a.rs")));
    assert_eq!(visit("r", &entry("a.rs", EntryKind::File)), Some(read("r/a.rs")));
    assert_eq!(visit("r", &entry("target", EntryKind::Directory)), None);
    assert_eq!(visit("r", &entry(".git", EntryKind::Directory)), None);
    assert_eq!(visit("r", &entry("a.txt", EntryKind::File)), None);
    assert_eq!(visit("r", &entry("a.rs", EntryKind::Other)), None);
    assert_eq!(visit("r", &entry("src", EntryKind::Other)), None);
}

#[test]
fn scan_counts_the_source_files_of_a_tree() {
    fn sources(nodes: &[Node]) -> (usize, usize) {
        let mut total = 0;
        let mut failed = 0;
        for node in nodes {
            match node {
                Node::File(name, contents) if name.len() > 3 && name.ends_with(".rs") => {
                    total += 1;
                    let passes = contents == HEADER
                        || contents.starts_with(&format!("{}\n", HEADER));
                    if !passes {
                        failed += 1;
                    }
                }
                Node::Dir(name, below) if *name != "target" && *name != ".git" => {
                    let (t, f) = sources(below);
                    total += t;
                    failed += f;
                }
                _ => {}
            }
        }
        (total, failed)
    }
    let root = vec![
        license(),
        Node::File("build.rs", good()),
        Node::Dir(
            "src",
            vec![
                Node::File("lib.rs", good()),
                Node::File("notes.txt", bad()),
                Node::Dir(
                    "a",
                    vec![
                        Node::Dir("b", vec![Node::File("c.rs", bad()), Node::Dir("d", vec![])]),
                        Node::File("e.rs", HEADER.to_string()),
                        Node::Dir("target", vec![Node::File("f.rs", bad())]),
                    ],
                ),
            ],
        ),
        Node::Dir("target", vec![Node::Dir("debug", vec![Node::File("g.rs", bad())])]),
        Node::Dir("benches", vec![Node::File("h.rs", bad()), Node::Other("i.rs")]),
    ];
    let expected = sources(&root);
    assert_eq!(expected, (5, 2));
    let run = run(&root);
    assert_eq!((run.counts.total(), run.counts.failed()), expected);
    assert_eq!(
        run.outcome,
        Err(AnalyzeError::MissingLicenseHeader { success: 3, failed: 2, total: 5 })
    );
    assert_eq!(run.offenders, vec!["root/src/a/b/c.rs".to_string(), "root/benches/h.rs".to_string()]);
}

fn file(name: &str, contents: String) -> Tree {
    Tree::File { name: name.to_string(), contents }
}

fn dir(name: &str, entries: Vec<Tree>) -> Tree {
    Tree::Directory { name: name.to_string(), entries }
}

fn in_memory(nodes: &[Node]) -> Vec<Tree> {
    nodes
        .iter()
        .map(|node| match node {
            Node::File(name, contents) => file(name, contents.clone()),
            Node::Dir(name, below) => dir(name, in_memory(below)),
            Node::Other(name) | Node::Unreadable(name, _) => {
                Tree::Other { name: name.to_string() }
            }
        })
        .collect()
}

#[test]
fn walk_of_an_empty_directory_counts_nothing() {
    let mut offenders = Vec::new();
    let counts = check_license_header("dir", &vec![], &mut offenders).unwrap();
    assert_eq!((counts.total(), counts.failed()), (0, 0));
    assert!(offenders.is_empty());
}

#[test]
fn walk_asks_for_no_license() {
    let mut offenders = Vec::new();
    let entries = vec![file("lib.rs", good())];
    let counts = check_license_header("src", &entries, &mut offenders).unwrap();
    assert_eq!((counts.total(), counts.failed()), (1, 0));
    assert!(offenders.is_empty());
}

#[test]
fn walk_counts_the_source_files_below_a_directory() {
    let entries = vec![
        file("build.rs", bad()),
        file("README.md", bad()),
        dir(
            "src",
            vec![
                file("a.rs", good()),
                dir("deep", vec![file("b.rs", bad()), file("c.rs", HEADER.to_string())]),
                dir("target", vec![file("d.rs", bad())]),
                file("e.rs", format!("{}fn main() {{}}", HEADER)),
            ],
        ),
        dir(".git", vec![file("f.rs", bad())]),
        dir("target", vec![dir("debug", vec![file("g.rs", bad())])]),
        Tree::Other { name: "h.rs".to_string() },
        dir("i.rs", vec![file("j.rs", good())]),
    ];
    let mut offenders = vec!["earlier".to_string()];
    let counts = check_license_header("root", &entries, &mut offenders).unwrap();
    assert_eq!(counts.total(), 6);
    assert_eq!(counts.failed(), 3);
    assert_eq!(counts.succeeded(), 3);
    assert_eq!(
        offenders,
        vec![
            "earlier".to_string(),
            "root/build.rs".to_string(),
            "root/src/deep/b.rs".to_string(),
            "root/src/e.rs".to_string()
        ]
    );
}

#[test]
fn walk_in_memory_agrees_with_the_scan() {
    let root = vec![
        license(),
        Node::File("build.rs", bad()),
        Node::Dir(
            "src",
            vec![
                Node::File("lib.rs", good()),
                Node::Dir("a", vec![Node::File("b.rs", bad()), Node::Other("c.rs")]),
                Node::Dir("target", vec![Node::File("d.rs", bad())]),
            ],
        ),
        Node::Dir("benches", vec![Node::File("e.rs", bad())]),
    ];
    let run = run(&root);
    let mut offenders = Vec::new();
    let counts = check_license_header("root", &in_memory(&root), &mut offenders).unwrap();
    assert_eq!(counts, run.counts);
    assert_eq!(offenders, run.offenders);
    assert_eq!((counts.total(), counts.failed()), (4, 3));
}

#[test]
fn scan_of_a_directory_alone_asks_for_no_license() {
    let mut scan = LicenseScan::within("src");
    assert_eq!(scan.next_action(), Action::Perform(list("src")));
    let step = analyze_license(&mut scan, Response::Listing(vec![entry("a.rs", EntryKind::File)]));
    assert_eq!(step.next, Action::Perform(read("src/a.rs")));
    let step = analyze_license(&mut scan, Response::Contents(good()));
    assert_eq!(step, Step { offender: None, next: Action::Finish(Ok(())) });
}

#[test]
fn scan_ends_in_one_of_its_ways() {
    let endings = [
        run(&[]).outcome,
        run(&[license()]).outcome,
        run(&[license(), Node::File("a.rs", bad()), Node::File("b.rs", good())]).outcome,
        run(&[license(), Node::Unreadable("a.rs", EntryKind::File)]).outcome,
    ];
    for outcome in endings {
        match outcome {
            Ok(()) | Err(AnalyzeError::MissingRootLicense) | Err(AnalyzeError::IoError(_)) => {}
            Err(AnalyzeError::MissingLicenseHeader { success, failed, total }) => {
                assert!(1 <= failed && failed <= total);
                assert_eq!(success, total - failed);
            }
            Err(other) => panic!("{:?}", other),
        }
    }
}
