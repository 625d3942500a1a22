use std::time::Duration;
use turbocharge::assoc::AssocMap;
use turbocharge::package_hashes::package_hash_watcher::TrackError;
use turbocharge::package_hashes::package_json::{
    read_package_json, sort_package_json, PackageJsonFile,
};
use turbocharge::package_hashes::root_files::Publications;
use turbocharge::package_hashes::task_definitions::task_ids;
use turbocharge::package_hashes::watch::WatchingPackageHasher;
use turbocharge::package_hashes::{
    optional_strategy, AfterPrimary, Attempt, DaemonPackageHasher, DiscoveredHashes, Error,
    FallbackPackageHasher, FileHash, LocalPackageHashes, PackageHash, PackageInputsHashes,
    TaskNode,
};
use turbocharge::task_id::{TaskId, TaskName};

fn text(s: &str) -> String {
    s.to_string()
}

fn file(path: &str, hash: &str) -> FileHash {
    FileHash { relative_path: text(path), hash: text(hash) }
}

fn package(package: &str, task: &str, hash: &str, inputs: &[&str]) -> PackageHash {
    PackageHash {
        package: text(package),
        task: text(task),
        hash: text(hash),
        inputs: inputs.iter().map(|input| text(input)).collect(),
    }
}

fn hashes_of(outcome: Result<PackageInputsHashes, Error>) -> PackageInputsHashes {
    outcome.unwrap()
}

#[test]
fn maps_keep_the_last_value_of_a_key() {
    let mut map: AssocMap<String, String> = AssocMap::new();
    assert!(map.get(&text("a")).is_none());
    assert_eq!(map.insert(text("a"), text("1")), None);
    assert_eq!(map.insert(text("b"), text("2")), None);
    assert_eq!(map.insert(text("a"), text("3")), Some(text("1")));
    assert_eq!(map.get(&text("a")), Some(&text("3")));
    assert_eq!(map.get(&text("b")), Some(&text("2")));
    assert!(map.contains_key(&text("b")));
    assert!(!map.contains_key(&text("c")));
    let mut keys = map.keys();
    keys.sort();
    assert_eq!(keys, vec![text("a"), text("b")]);
    let mut other: AssocMap<String, String> = AssocMap::new();
    other.insert(text("b"), text("4"));
    other.insert(text("c"), text("5"));
    map.extend(other);
    assert_eq!(map.get(&text("a")), Some(&text("3")));
    assert_eq!(map.get(&text("b")), Some(&text("4")));
    assert_eq!(map.get(&text("c")), Some(&text("5")));
    assert_eq!(map.keys().len(), 3);
    let mut copy = map.copy();
    copy.insert(text("a"), text("6"));
    assert_eq!(copy.get(&text("a")), Some(&text("6")));
    assert_eq!(copy.get(&text("c")), Some(&text("5")));
    assert_eq!(map.get(&text("a")), Some(&text("3")));
}

#[test]
fn the_daemons_report_is_read() {
    let report = DiscoveredHashes {
        file_hashes: vec![file("a.js", "old"), file("b.js", "hb"), file("a.js", "ha")],
        package_hashes: vec![
            package("ui", "build", "first", &["a.js"]),
            package("ui", "lint", "h2", &["b.js", "missing.js", "b.js"]),
            package("ui", "build", "h1", &["a.js", "b.js"]),
            package("web", "build", "h3", &[]),
        ],
    };
    let hashes = hashes_of(DaemonPackageHasher::<()>::calculate_hashes(Ok(report)));
    let hash = |package: &str, task: &str| hashes.hashes.get(&TaskId::new(package, task)).cloned();
    assert_eq!(hash("ui", "build"), Some(text("h1")));
    assert_eq!(hash("ui", "lint"), Some(text("h2")));
    assert_eq!(hash("web", "build"), Some(text("h3")));
    assert_eq!(hash("web", "lint"), None);
    assert_eq!(hashes.hashes.keys().len(), 3);
    // the tasks with the hashes of their inputs are the tasks with a hash
    assert_eq!(hashes.expanded_hashes.keys().len(), 3);
    let inputs = |package: &str, task: &str| {
        let files = &hashes.expanded_hashes.get(&TaskId::new(package, task)).unwrap().0;
        let mut entries: Vec<(String, String)> = files
            .keys()
            .into_iter()
            .map(|path| {
                let hash = files.get(&path).unwrap().clone();
                (path, hash)
            })
            .collect();
        entries.sort();
        entries
    };
    assert_eq!(
        inputs("ui", "build"),
        vec![(text("a.js"), text("ha")), (text("b.js"), text("hb"))]
    );
    assert_eq!(inputs("ui", "lint"), vec![(text("b.js"), text("hb"))]);
    assert_eq!(inputs("web", "build"), vec![]);
}

#[test]
fn a_daemon_that_does_not_answer_is_an_error() {
    let outcome = DaemonPackageHasher::<()>::calculate_hashes(Err(text("closed")));
    assert!(matches!(outcome, Err(Error::Daemon(reason)) if reason == "closed"));
    assert_eq!(DaemonPackageHasher::new(7).daemon, 7);
}

#[test]
fn a_way_that_is_not_there_is_an_error() {
    assert!(matches!(optional_strategy(Some(3)), Ok(3)));
    assert!(matches!(
        optional_strategy::<u8>(None),
        Err(Error::PackageHashingUnavailable)
    ));
}

type Both = FallbackPackageHasher<u8, u8>;

fn some_hashes(hash: &str) -> PackageInputsHashes {
    let mut hashes = PackageInputsHashes::default();
    hashes.hashes.insert(TaskId::new("ui", "build"), text(hash));
    hashes
}

fn hash_in(outcome: Result<PackageInputsHashes, Error>) -> String {
    hashes_of(outcome).hashes.get(&TaskId::new("ui", "build")).unwrap().clone()
}

#[test]
fn the_fallback_is_not_run_after_success() {
    let hasher = FallbackPackageHasher::new(1, 2, Duration::from_millis(5));
    assert_eq!((hasher.primary, hasher.fallback), (1, 2));
    assert_eq!(hasher.timeout, Duration::from_millis(5));
    let AfterPrimary::Settled(outcome) =
        Both::after_primary(Attempt::Finished(Ok(some_hashes("p"))))
    else {
        panic!("not settled");
    };
    assert_eq!(hash_in(outcome), "p");
}

#[test]
fn the_fallback_is_run_after_a_failure() {
    let failure = || Error::Hashing(text("broken"));
    let AfterPrimary::RunFallback(Some(error)) =
        Both::after_primary(Attempt::Finished(Err(failure())))
    else {
        panic!("no fallback");
    };
    assert!(matches!(&error, Error::Hashing(reason) if reason == "broken"));
    assert_eq!(hash_in(Both::after_fallback(Some(error), Ok(some_hashes("f")))), "f");
    // where the fallback is not there, the first error counts
    let outcome = Both::after_fallback(Some(failure()), Err(Error::PackageHashingUnavailable));
    assert!(matches!(outcome, Err(Error::Hashing(reason)) if reason == "broken"));
    let outcome = Both::after_fallback(Some(failure()), Err(Error::Daemon(text("closed"))));
    assert!(matches!(outcome, Err(Error::Daemon(reason)) if reason == "closed"));
}

#[test]
fn the_fallback_is_run_when_time_is_up() {
    let AfterPrimary::RunFallback(None) = Both::after_primary(Attempt::TimedOut) else {
        panic!("no fallback");
    };
    assert_eq!(hash_in(Both::after_fallback(None, Ok(some_hashes("f")))), "f");
    let outcome = Both::after_fallback(None, Err(Error::PackageHashingUnavailable));
    assert!(matches!(outcome, Err(Error::PackageHashingUnavailable)));
}

/// What a way that comes to `first` and one that comes to `second` come to together.
fn together(
    first: Result<PackageInputsHashes, Error>,
    second: Result<PackageInputsHashes, Error>,
) -> Result<PackageInputsHashes, Error> {
    match Both::after_primary(Attempt::Finished(first)) {
        AfterPrimary::Settled(outcome) => outcome,
        AfterPrimary::RunFallback(error) => Both::after_fallback(error, second),
    }
}

#[test]
fn an_absent_way_makes_no_difference() {
    let absent = || optional_strategy::<PackageInputsHashes>(None);
    assert_eq!(hash_in(together(Ok(some_hashes("p")), absent())), "p");
    assert_eq!(hash_in(together(absent(), Ok(some_hashes("p")))), "p");
    for outcome in [
        together(Err(Error::Daemon(text("closed"))), absent()),
        together(absent(), Err(Error::Daemon(text("closed")))),
    ] {
        assert!(matches!(outcome, Err(Error::Daemon(reason)) if reason == "closed"));
    }
    let outcome = together(absent(), absent());
    assert!(matches!(outcome, Err(Error::PackageHashingUnavailable)));
}

#[test]
fn later_publications_have_higher_numbers() {
    let mut publications = Publications::new();
    let first = publications.number('a').unwrap();
    let second = publications.number('b').unwrap();
    assert_eq!((first.number, first.value), (1, 'a'));
    assert_eq!((second.number, second.value), (2, 'b'));
}

#[test]
fn hashers_keep_what_they_are_made_from() {
    let tasks = vec![TaskNode::Root, TaskNode::Task(TaskId::new("ui", "build"))];
    let hasher = LocalPackageHashes::new("git", 2, tasks, 'd', "/repo");
    assert_eq!(
        (hasher.scm, hasher.workspaces, hasher.task_definitions, hasher.repo_root),
        ("git", 2, 'd', "/repo")
    );
    assert_eq!(hasher.tasks.len(), 2);
    let hasher = WatchingPackageHasher::new("discovery", Duration::from_secs(3), 9);
    assert_eq!(hasher.package_discovery, "discovery");
    assert_eq!(hasher.interval, Duration::from_secs(3));
    assert_eq!(hasher.file_watching, 9);
    let tracking: Result<PackageInputsHashes, TrackError> = Ok(some_hashes("w"));
    assert_eq!(hash_in(hasher.calculate_hashes(tracking)), "w");
}

fn name(package: Option<&str>, task: &str) -> TaskName {
    TaskName { package: package.map(text), task: text(task) }
}

#[test]
fn a_pipeline_defines_each_task_once() {
    let packages = vec![text("//"), text("ui"), text("web")];
    let pipeline = vec![name(None, "build"), name(Some("web"), "build"), name(Some("//"), "lint")];
    let tasks: Vec<(String, String)> = task_ids(&packages, &pipeline)
        .into_iter()
        .map(|id| (id.package().to_string(), id.task().to_string()))
        .collect();
    assert_eq!(
        tasks,
        vec![
            (text("//"), text("build")),
            (text("web"), text("build")),
            (text("//"), text("lint")),
            (text("ui"), text("build")),
        ]
    );
    assert!(task_ids(&vec![], &pipeline).is_empty());
    assert!(task_ids(&packages, &vec![]).is_empty());
}

#[test]
fn package_descriptions_are_read() {
    let PackageJsonFile::Document(value) =
        read_package_json(Some(b"{\"name\": \"web\", \"private\": true}"))
    else {
        panic!("no document");
    };
    assert_eq!(value.get("name").unwrap().as_str(), Some("web"));
    assert!(matches!(read_package_json(None), PackageJsonFile::Unopened));
    assert!(matches!(read_package_json(Some(b"{")), PackageJsonFile::Unparsable));
    assert!(matches!(read_package_json(Some(b"")), PackageJsonFile::Unparsable));
    assert!(matches!(read_package_json(Some(b"1 2")), PackageJsonFile::Unparsable));
    assert!(matches!(sort_package_json(true, None), PackageJsonFile::Unparsable));
    assert!(matches!(sort_package_json(false, None), PackageJsonFile::Unopened));
}
