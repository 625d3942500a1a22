use turbocharge::assoc::AssocMap;
use turbocharge::filewatch::{
    self, after_publishing, EventAction, EventReport, PackagesAction,
};
use turbocharge::package_hashes::file_event::{
    handle_file_event, Action, EventKind, FileEvent, PackageChanges, Report,
};
use turbocharge::package_hashes::package_hash_watcher::{
    audience, record_hashes, updates_between, watch_files, Audience, FileHashes, HashUpdate,
    PackageHashWatcher,
    PackageName, SubscriberCommand, TrackError, Tracking, WatchAction, WatchReport, WorkspaceData,
    WorkspaceLookup,
};
use turbocharge::package_hashes::package_json::{read_package_json, PackageJsonFile};
use turbocharge::package_hashes::updates::{
    update_package_graph, update_package_hasher, FreshHasher, GraphAction, GraphReport,
    HasherAction, HasherParts, HasherReport,
};
use turbocharge::package_hashes::root_files::{Numbered, Published, RootFiles};
use turbocharge::package_hashes::{LocalPackageHashes, PackageInputsHashes, TaskNode};
use turbocharge::task_id::TaskId;

type Hashes = AssocMap<TaskId, String>;

fn text(s: &str) -> String {
    s.to_string()
}

fn path(s: &str) -> Vec<String> {
    s.split('/').map(text).collect()
}

fn event(kind: EventKind, paths: &[&str]) -> FileEvent {
    FileEvent { kind, paths: paths.iter().map(|p| path(p)).collect() }
}

fn hashes(entries: &[(&str, &str, &str)]) -> Hashes {
    let mut map = AssocMap::new();
    for (package, task, hash) in entries {
        map.insert(TaskId::new(package, task), text(hash));
    }
    map
}

fn inputs(entries: &[(&str, &str, &str)]) -> PackageInputsHashes {
    PackageInputsHashes { hashes: hashes(entries), expanded_hashes: AssocMap::new() }
}

fn listed(map: &Hashes) -> Vec<(String, String, String)> {
    let mut entries: Vec<_> = map
        .keys()
        .into_iter()
        .map(|id| {
            let hash = map.get(&id).unwrap().clone();
            (id.package, id.task, hash)
        })
        .collect();
    entries.sort();
    entries
}

fn entry(package: &str, task: &str, hash: &str) -> (String, String, String) {
    (text(package), text(task), text(hash))
}

fn named(nodes: &[TaskNode]) -> Vec<String> {
    let mut names: Vec<String> = nodes
        .iter()
        .map(|node| match node {
            TaskNode::Root => text("root"),
            TaskNode::Task(id) => format!("{}#{}", id.package(), id.task()),
        })
        .collect();
    names.sort();
    names
}

const NOTHING: Published = Published { package_json: None, turbo_json: None };

/// What updates say, in order.
fn told(updates: &[HashUpdate]) -> Vec<(String, String, String)> {
    let mut entries: Vec<_> = updates
        .iter()
        .map(|update| (update.package.clone(), update.task.clone(), update.hash.clone()))
        .collect();
    entries.sort();
    entries
}

/// One step of dealing with an event under `root`, which holds `held`.
fn step(
    event: &FileEvent,
    action: Action<u8>,
    report: Report<u8>,
    held: &mut Hashes,
) -> Action<u8> {
    handle_file_event(event, &path("root"), action, report, held)
}

#[test]
fn events_that_alter_nothing_are_ignored() {
    for kind in [EventKind::Any, EventKind::Access, EventKind::Other] {
        let mut held = hashes(&[("ui", "build", "1")]);
        let event = event(kind, &["root/turbo.json", "root/package.json"]);
        let next = step(&event, Action::Start, Report::Performed, &mut held);
        assert!(matches!(next, Action::Finish));
        assert_eq!(listed(&held), vec![entry("ui", "build", "1")]);
    }
}

#[test]
fn a_changed_file_is_mapped_to_its_package() {
    for kind in [EventKind::Create, EventKind::Modify, EventKind::Remove] {
        let mut held = hashes(&[]);
        let event = event(kind, &["root/ui/src/a.js", "root/ui/package.json", "root/turbo.json/x"]);
        let next = step(&event, Action::Start, Report::Performed, &mut held);
        assert!(matches!(next, Action::MapChanges(NOTHING)));
    }
}

#[test]
fn a_changed_turbo_json_is_published_again() {
    let mut held = hashes(&[]);
    let event = event(EventKind::Modify, &["root/a", "root/ui/turbo.json"]);
    let next = step(&event, Action::Start, Report::Performed, &mut held);
    assert!(matches!(next, Action::ClearTurboJson));
    let next = step(&event, next, Report::Delivered(true), &mut held);
    assert!(matches!(next, Action::FetchRootPackageJson));
    let next = step(&event, next, Report::Available(true), &mut held);
    assert!(matches!(next, Action::ReloadTurboJson));
    let next = step(&event, next, Report::Published(3), &mut held);
    assert!(matches!(
        next,
        Action::MapChanges(Published { package_json: None, turbo_json: Some(3) })
    ));
}

#[test]
fn without_a_root_package_json_turbo_json_is_not_loaded() {
    let mut held = hashes(&[]);
    let event = event(EventKind::Modify, &["turbo.json"]);
    let next = step(&event, Action::FetchRootPackageJson, Report::Available(false), &mut held);
    assert!(matches!(next, Action::Finish));
}

#[test]
fn turbo_json_is_left_alone_if_nobody_listens() {
    let mut held = hashes(&[]);
    let both = event(EventKind::Modify, &["root/turbo.json", "root/package.json"]);
    let next = step(&both, Action::ClearTurboJson, Report::Delivered(false), &mut held);
    assert!(matches!(next, Action::ReadRootPackageJson(1, NOTHING)));
}

#[test]
fn the_root_package_json_is_read_at_its_first_path() {
    let mut held = hashes(&[]);
    let event = event(
        EventKind::Create,
        &["root/ui/package.json", "package.json", "root/package.json", "root/package.json"],
    );
    let next = step(&event, Action::Start, Report::Performed, &mut held);
    assert!(matches!(next, Action::ReadRootPackageJson(2, NOTHING)));
    let file = read_package_json(Some(b"{\"name\": \"repo\"}"));
    let next = step(&event, next, Report::Read(file), &mut held);
    let Action::DecodeRootPackageJson(value, _) = &next else {
        panic!("not to be decoded");
    };
    assert_eq!(value.get("name").unwrap().as_str(), Some("repo"));
    let next = step(&event, next, Report::Decoded(Some(5)), &mut held);
    assert!(matches!(next, Action::PublishRootPackageJson(5, NOTHING)));
    let next = step(&event, next, Report::Published(8), &mut held);
    assert!(matches!(
        next,
        Action::MapChanges(Published { package_json: Some(8), turbo_json: None })
    ));
}

#[test]
fn changed_root_files_have_all_tasks_hashed_by_a_new_hasher() {
    let mut held = hashes(&[("ui", "build", "1"), ("//", "lint", "2")]);
    let both = event(EventKind::Modify, &["root/turbo.json", "root/package.json"]);
    let next = step(&both, Action::ReloadTurboJson, Report::Published(3), &mut held);
    let file = read_package_json(Some(b"{}"));
    let next = step(&both, next, Report::Read(file), &mut held);
    let next = step(&both, next, Report::Decoded(Some(5)), &mut held);
    let next = step(&both, next, Report::Published(8), &mut held);
    // whatever the paths are mapped to, all tasks are hashed again
    let report = Report::Mapped(Some(PackageChanges::Only(vec![])));
    let next = step(&both, next, report, &mut held);
    let Action::AwaitHasher(published, tasks) = &next else {
        panic!("no new hasher");
    };
    assert_eq!(*published, Published { package_json: Some(8), turbo_json: Some(3) });
    assert_eq!(named(tasks), vec!["//#lint", "ui#build"]);
    let older = RootFiles { package_json: 8, turbo_json: 2 };
    assert!(!older.covers(published));
    assert!(!RootFiles { package_json: 7, turbo_json: 9 }.covers(published));
    let files = RootFiles { package_json: 8, turbo_json: 3 };
    assert!(files.covers(published));
    assert!(older.covers(&NOTHING));
    let next = step(&both, next, Report::NewHasher(Some(files)), &mut held);
    let Action::CalculateHashes(tasks) = &next else {
        panic!("not to be hashed");
    };
    assert_eq!(named(tasks), vec!["//#lint", "ui#build"]);
    let action = Action::AwaitHasher(NOTHING, vec![TaskNode::Root]);
    let next = step(&both, action, Report::NewHasher(None), &mut held);
    assert!(matches!(next, Action::Finish));
}

#[test]
fn without_a_new_turbo_json_the_hasher_at_hand_hashes_all_tasks() {
    let mut held = hashes(&[("ui", "build", "1"), ("web", "build", "2")]);
    let event = event(EventKind::Modify, &["root/turbo.json"]);
    let next = step(&event, Action::ClearTurboJson, Report::Delivered(false), &mut held);
    let report = Report::Mapped(Some(PackageChanges::Only(vec![])));
    let Action::FetchHasher(tasks) = step(&event, next, report, &mut held) else {
        panic!("no tasks");
    };
    assert_eq!(named(&tasks), vec!["ui#build", "web#build"]);
}

#[test]
fn a_root_package_json_that_cannot_be_read_ends_it() {
    let mut held = hashes(&[]);
    let event = event(EventKind::Remove, &["root/package.json"]);
    for file in [PackageJsonFile::Unopened, PackageJsonFile::Unparsable] {
        let action = Action::ReadRootPackageJson(0, NOTHING);
        let next = step(&event, action, Report::Read(file), &mut held);
        assert!(matches!(next, Action::Finish));
    }
    let PackageJsonFile::Document(value) = read_package_json(Some(b"[]")) else {
        panic!("no document");
    };
    let action = Action::DecodeRootPackageJson(value, NOTHING);
    let next = step(&event, action, Report::Decoded(None), &mut held);
    assert!(matches!(next, Action::Finish));
}

#[test]
fn the_tasks_of_changed_packages_are_hashed_again() {
    let mut held = hashes(&[
        ("ui", "build", "1"),
        ("ui", "lint", "2"),
        ("web", "build", "3"),
        ("//", "build", "4"),
    ]);
    let event = event(EventKind::Modify, &["root/ui/a.js"]);
    let names = vec![PackageName::Other(text("docs")), PackageName::Other(text("ui"))];
    let report = Report::Mapped(Some(PackageChanges::Only(names)));
    let next = step(&event, Action::MapChanges(NOTHING), report, &mut held);
    let Action::FetchHasher(tasks) = &next else {
        panic!("no tasks");
    };
    assert_eq!(named(tasks), vec!["ui#build", "ui#lint"]);
    let next = step(&event, next, Report::Available(true), &mut held);
    let Action::CalculateHashes(tasks) = &next else {
        panic!("not to be hashed");
    };
    assert_eq!(named(tasks), vec!["ui#build", "ui#lint"]);
    let report = Report::Hashed(inputs(&[("ui", "build", "5"), ("ui", "lint", "2")]));
    let next = step(&event, next, report, &mut held);
    let Action::SendUpdates(updates) = &next else {
        panic!("not sent");
    };
    assert_eq!(told(updates), vec![entry("ui", "build", "5")]);
    let next = step(&event, next, Report::Performed, &mut held);
    assert!(matches!(next, Action::RegisterCookie));
    // the others keep their hashes, and none is lost
    assert_eq!(
        listed(&held),
        vec![
            entry("//", "build", "4"),
            entry("ui", "build", "5"),
            entry("ui", "lint", "2"),
            entry("web", "build", "3"),
        ]
    );
    let next = step(&event, next, Report::Performed, &mut held);
    assert!(matches!(next, Action::Finish));
}

#[test]
fn the_tasks_of_the_root_package_are_hashed_again() {
    let mut held = hashes(&[("ui", "build", "1"), ("//", "build", "2")]);
    let event = event(EventKind::Modify, &["root/scripts/a.js"]);
    let names = vec![PackageName::Other(text("docs")), PackageName::Root];
    let report = Report::Mapped(Some(PackageChanges::Only(names)));
    let next = step(&event, Action::MapChanges(NOTHING), report, &mut held);
    let Action::FetchHasher(tasks) = next else {
        panic!("no tasks");
    };
    assert_eq!(named(&tasks), vec!["//#build"]);
}

#[test]
fn all_tasks_are_hashed_again_if_all_packages_changed() {
    let mut held = hashes(&[("ui", "build", "1"), ("//", "lint", "2")]);
    let event = event(EventKind::Modify, &["root/yarn.lock"]);
    let report = Report::Mapped(Some(PackageChanges::All));
    let Action::FetchHasher(tasks) = step(&event, Action::MapChanges(NOTHING), report, &mut held) else {
        panic!("no tasks");
    };
    assert_eq!(named(&tasks), vec!["//#lint", "ui#build"]);
}

#[test]
fn nothing_is_hashed_without_tasks_graph_or_hasher() {
    let event = event(EventKind::Modify, &["root/ui/a.js"]);
    let mut held = hashes(&[("ui", "build", "1")]);
    let web = || Some(PackageChanges::Only(vec![PackageName::Other(text("web"))]));
    for (action, report) in [
        (Action::MapChanges(NOTHING), Report::Mapped(None)),
        (Action::MapChanges(NOTHING), Report::Mapped(web())),
        (Action::MapChanges(NOTHING), Report::Mapped(Some(PackageChanges::Only(vec![])))),
        (Action::FetchHasher(vec![TaskNode::Root]), Report::Available(false)),
    ] {
        let next = step(&event, action, report, &mut held);
        assert!(matches!(next, Action::Finish));
    }
    let mut none = hashes(&[]);
    let report = Report::Mapped(Some(PackageChanges::All));
    assert!(matches!(step(&event, Action::MapChanges(NOTHING), report, &mut none), Action::Finish));
    assert_eq!(listed(&held), vec![entry("ui", "build", "1")]);
}

#[test]
fn hashes_that_differ_are_told() {
    let mut held = hashes(&[("ui", "build", "1"), ("web", "build", "2")]);
    let new = hashes(&[("ui", "build", "9"), ("web", "build", "2"), ("docs", "build", "3")]);
    let changes = record_hashes(&mut held, &new);
    assert_eq!(changes.len(), 1);
    assert_eq!(changes[0].task.package(), "ui");
    assert_eq!(changes[0].task.task(), "build");
    assert_eq!((changes[0].from.as_str(), changes[0].to.as_str()), ("1", "9"));
    assert_eq!(
        listed(&held),
        vec![
            entry("docs", "build", "3"),
            entry("ui", "build", "9"),
            entry("web", "build", "2"),
        ]
    );
    // once more is no change
    assert!(record_hashes(&mut held, &new).is_empty());
}

#[test]
fn updates_tell_of_new_hashes() {
    let before = hashes(&[("ui", "build", "1"), ("web", "build", "2"), ("web", "lint", "3")]);
    let after = hashes(&[("ui", "build", "9"), ("web", "build", "2"), ("docs", "build", "4")]);
    assert_eq!(
        told(&updates_between(&before, &after)),
        vec![entry("docs", "build", "4"), entry("ui", "build", "9")]
    );
    assert!(updates_between(&after, &after).is_empty());
}

#[test]
fn recalculated_hashes_are_sent_out() {
    let mut held = hashes(&[("ui", "build", "1"), ("web", "build", "2")]);
    let report = WatchReport::Recalculated(hashes(&[("ui", "build", "7"), ("web", "build", "2")]));
    let (next, changes) = watch_files(WatchAction::AwaitIncoming, report, &mut held);
    let WatchAction::SendUpdates(updates) = &next else {
        panic!("not sent");
    };
    assert_eq!(told(updates), vec![entry("ui", "build", "7")]);
    assert_eq!(changes.len(), 1);
    assert_eq!(listed(&held), vec![entry("ui", "build", "7"), entry("web", "build", "2")]);
    let (next, _) = watch_files(next, WatchReport::Sent, &mut held);
    assert!(matches!(next, WatchAction::AwaitIncoming));
}

#[test]
fn the_watcher_deals_with_events_and_commands() {
    let mut held = hashes(&[]);
    let incoming = event(EventKind::Modify, &["root/a"]);
    let report = WatchReport::Event(incoming);
    let (next, changes) = watch_files(WatchAction::AwaitIncoming, report, &mut held);
    assert!(changes.is_empty());
    let WatchAction::HandleEvent(event) = &next else {
        panic!("no event");
    };
    assert_eq!(event.paths, vec![path("root/a")]);
    let (next, _) = watch_files(next, WatchReport::Handled, &mut held);
    assert!(matches!(next, WatchAction::AwaitIncoming));
    let tasks = vec![TaskNode::Task(TaskId::new("ui", "build"))];
    let report = WatchReport::Command(SubscriberCommand::Update(tasks));
    let (next, _) = watch_files(next, report, &mut held);
    assert!(matches!(&next, WatchAction::FetchHasher(tasks) if named(tasks) == ["ui#build"]));
    let (next, _) = watch_files(next, WatchReport::Available(true), &mut held);
    assert!(matches!(&next, WatchAction::CalculateHashes(tasks) if named(tasks) == ["ui#build"]));
    let report = WatchReport::Hashed(inputs(&[("ui", "build", "1")]));
    let (next, changes) = watch_files(next, report, &mut held);
    // nothing changed, so nothing is sent
    assert!(matches!(next, WatchAction::AwaitIncoming));
    assert!(changes.is_empty());
    assert_eq!(listed(&held), vec![entry("ui", "build", "1")]);
}

#[test]
fn hashes_are_published_when_they_can_have_changed() {
    let to = |hasher: bool, askers: bool| Audience { hasher, askers };
    assert_eq!(audience(&WatchReport::Handled), to(true, true));
    assert_eq!(audience(&WatchReport::Hashed(inputs(&[]))), to(true, true));
    assert_eq!(audience(&WatchReport::Recalculated(hashes(&[]))), to(false, true));
    for report in [
        WatchReport::EventsLost,
        WatchReport::CommandsClosed,
        WatchReport::Available(true),
        WatchReport::Sent,
        WatchReport::Command(SubscriberCommand::Update(vec![])),
        WatchReport::Event(event(EventKind::Modify, &[])),
    ] {
        assert_eq!(audience(&report), to(false, false));
    }
}

#[test]
fn the_watcher_stops_when_there_is_nothing_to_watch() {
    let mut held = hashes(&[]);
    for (action, report) in [
        (WatchAction::AwaitIncoming, WatchReport::EventsLost),
        (WatchAction::AwaitIncoming, WatchReport::CommandsClosed),
        (WatchAction::FetchHasher(vec![]), WatchReport::Available(false)),
    ] {
        let (next, _) = watch_files(action, report, &mut held);
        assert!(matches!(next, WatchAction::Stop));
    }
}

#[test]
fn tracked_tasks_get_their_latest_hashes() {
    let watcher = PackageHashWatcher::new("/repo", 3);
    assert_eq!((watcher.repo_root, watcher.package_watcher), ("/repo", 3));
    let tasks = vec![
        TaskNode::Root,
        TaskNode::Task(TaskId::new("ui", "build")),
        TaskNode::Task(TaskId::new("ui", "test")),
    ];
    assert!(matches!(watcher.track(&tasks, Tracking::NotSent), Err(TrackError::Send)));
    assert!(matches!(watcher.track(&tasks, Tracking::NoChange), Err(TrackError::Recv)));
    let latest = FileHashes(hashes(&[("ui", "build", "1"), ("web", "build", "2")]));
    let Ok(found) = watcher.track(&tasks, Tracking::Changed(latest)) else {
        panic!("not tracked");
    };
    assert_eq!(listed(&found.hashes), vec![entry("ui", "build", "1")]);
    assert!(found.expanded_hashes.keys().is_empty());
}

#[test]
fn packages_are_looked_up_by_name() {
    let mut map = AssocMap::new();
    map.insert(
        PackageName::Other(text("ui")),
        WorkspaceData { package_json: path("packages/ui/package.json") },
    );
    map.insert(PackageName::Root, WorkspaceData { package_json: path("package.json") });
    map.insert(PackageName::Other(text("odd")), WorkspaceData { package_json: vec![] });
    let lookup = WorkspaceLookup(map);
    let ui = PackageName::Other(text("ui"));
    assert_eq!(lookup.package_json(&ui), Some(path("packages/ui/package.json")));
    assert_eq!(lookup.package_dir(&ui), Some(path("packages/ui")));
    assert_eq!(lookup.package_json(&PackageName::Root), Some(path("package.json")));
    assert_eq!(lookup.package_dir(&PackageName::Root), Some(vec![]));
    assert_eq!(lookup.package_dir(&PackageName::Other(text("odd"))), None);
    let web = PackageName::Other(text("web"));
    assert_eq!(lookup.package_json(&web), None);
    assert_eq!(lookup.package_dir(&web), None);
}

type Graph = GraphAction<u8, char, bool, u64>;
type GraphCame = GraphReport<u8, char, bool, u64>;

fn json(value: char) -> Numbered<char> {
    Numbered { number: 4, value }
}

fn is<V: PartialEq>(numbered: &Numbered<V>, number: u64, value: V) -> bool {
    numbered.number == number && numbered.value == value
}

#[test]
fn the_package_graph_is_built_after_either_change() {
    let next: Graph = update_package_graph(Graph::AwaitChange, GraphCame::Packages(1));
    assert!(matches!(next, Graph::FetchRootPackageJson(1)));
    let next = update_package_graph(next, GraphCame::RootPackageJson(json('r')));
    assert!(matches!(next, Graph::FetchManager(1, json) if is(&json, 4, 'r')));
    let report = GraphCame::RootPackageJson(json('r'));
    let next: Graph = update_package_graph(Graph::AwaitChange, report);
    assert!(matches!(&next, Graph::FetchPackages(json) if is(json, 4, 'r')));
    let next = update_package_graph(next, GraphCame::Packages(1));
    assert!(matches!(&next, Graph::FetchManager(1, json) if is(json, 4, 'r')));
    let next = update_package_graph(next, GraphCame::Manager(Some(true)));
    assert!(matches!(&next, Graph::Build(1, json, true) if is(json, 4, 'r')));
    let next = update_package_graph(next, GraphCame::Built(Some(8)));
    // the graph bears the number of the description that it is built from
    assert!(matches!(&next, Graph::Publish(Some(graph)) if is(graph, 4, 8)));
    let next = update_package_graph(next, GraphCame::Delivered(true));
    assert!(matches!(next, Graph::AwaitChange));
}

#[test]
fn a_graph_that_cannot_be_built_is_withdrawn() {
    let next = update_package_graph(Graph::Build(1, json('r'), true), GraphCame::Built(None));
    assert!(matches!(next, Graph::Publish(None)));
    let next = update_package_graph(next, GraphCame::Delivered(true));
    assert!(matches!(next, Graph::AwaitChange));
}

#[test]
fn the_graph_is_given_up_when_it_cannot_be_kept() {
    for (action, report) in [
        (Graph::AwaitChange, GraphCame::Closed),
        (Graph::FetchManager(1, json('r')), GraphCame::Manager(None)),
        (Graph::Publish(None), GraphCame::Delivered(false)),
    ] {
        assert!(matches!(update_package_graph(action, report), Graph::Stop));
    }
}

type Hasher = HasherAction<u8, char, &'static str, u32, bool, i8>;
type HasherCame = HasherReport<u8, char, &'static str, u32, bool, i8>;

fn turbo() -> Numbered<u8> {
    Numbered { number: 6, value: 1 }
}

fn graph() -> Numbered<char> {
    Numbered { number: 5, value: 'g' }
}

const FILES: RootFiles = RootFiles { package_json: 5, turbo_json: 6 };

fn parts() -> HasherParts<&'static str, u32, bool, i8> {
    HasherParts { scm: "git", workspaces: 7, task_definitions: true, repo_root: -1 }
}

fn fresh() -> FreshHasher<&'static str, u32, bool, i8> {
    let hasher = LocalPackageHashes::new("git", 7, vec![], true, -1);
    FreshHasher { files: FILES, hasher }
}

fn is_fresh(fresh: &FreshHasher<&'static str, u32, bool, i8>) -> bool {
    let hasher = &fresh.hasher;
    fresh.files == FILES
        && hasher.tasks.is_empty()
        && (hasher.scm, hasher.workspaces, hasher.task_definitions, hasher.repo_root)
            == ("git", 7, true, -1)
}

#[test]
fn a_new_hasher_comes_with_new_hashes() {
    let next: Hasher = update_package_hasher(Hasher::AwaitChange, HasherCame::TurboJson(turbo()));
    assert!(matches!(&next, Hasher::FetchGraph(json) if is(json, 6, 1)));
    let next = update_package_hasher(next, HasherCame::Graph(graph()));
    assert!(matches!(
        &next,
        Hasher::CreateHasher(json, graph) if is(json, 6, 1) && is(graph, 5, 'g')
    ));
    let next = update_package_hasher(next, HasherCame::Created(Some(parts())));
    // the hasher bears the numbers of what it is made from
    assert!(matches!(&next, Hasher::FetchTaskHashes(hasher) if is_fresh(hasher)));
    let held = hashes(&[("ui", "build", "1"), ("web", "build", "2")]);
    let next = update_package_hasher(next, HasherCame::TaskHashes(Some(held)));
    let Hasher::ClearTaskHashes(hasher, tasks) = &next else {
        panic!("not withdrawn");
    };
    assert!(is_fresh(hasher));
    assert_eq!(named(tasks), vec!["ui#build", "web#build"]);
    let next = update_package_hasher(next, HasherCame::Delivered(true));
    let Hasher::CalculateHashes(hasher, tasks) = &next else {
        panic!("not to be hashed");
    };
    assert!(is_fresh(hasher));
    assert_eq!(named(tasks), vec!["ui#build", "web#build"]);
    let report = HasherCame::Hashed(Some(inputs(&[("ui", "build", "3")])));
    let next = update_package_hasher(next, report);
    let Hasher::PublishTaskHashes(hasher, Some(new)) = &next else {
        panic!("not published");
    };
    assert!(is_fresh(hasher));
    assert_eq!(listed(new), vec![entry("ui", "build", "3")]);
    let next = update_package_hasher(next, HasherCame::Delivered(true));
    assert!(matches!(&next, Hasher::PublishHasher(hasher) if is_fresh(hasher)));
    let next = update_package_hasher(next, HasherCame::Delivered(true));
    assert!(matches!(next, Hasher::AwaitChange));
}

#[test]
fn a_new_hasher_comes_without_hashes_too() {
    let next: Hasher = update_package_hasher(Hasher::AwaitChange, HasherCame::Graph(graph()));
    assert!(matches!(&next, Hasher::FetchTurboJson(graph) if is(graph, 5, 'g')));
    let next = update_package_hasher(next, HasherCame::TurboJson(turbo()));
    assert!(matches!(&next, Hasher::CreateHasher(..)));
    let next = update_package_hasher(next, HasherCame::Created(Some(parts())));
    let next = update_package_hasher(next, HasherCame::TaskHashes(None));
    assert!(matches!(&next, Hasher::PublishTaskHashes(hasher, None) if is_fresh(hasher)));
    let next = update_package_hasher(next, HasherCame::Delivered(true));
    assert!(matches!(&next, Hasher::PublishHasher(hasher) if is_fresh(hasher)));
}

#[test]
fn the_hasher_is_given_up_when_it_cannot_be_kept() {
    for (action, report) in [
        (Hasher::AwaitChange, HasherCame::Closed),
        (Hasher::FetchGraph(turbo()), HasherCame::Missing),
        (Hasher::FetchTurboJson(graph()), HasherCame::Missing),
        (Hasher::CreateHasher(turbo(), graph()), HasherCame::Created(None)),
        (Hasher::ClearTaskHashes(fresh(), vec![]), HasherCame::Delivered(false)),
        (Hasher::CalculateHashes(fresh(), vec![]), HasherCame::Hashed(None)),
        (Hasher::PublishTaskHashes(fresh(), None), HasherCame::Delivered(false)),
        (Hasher::PublishHasher(fresh()), HasherCame::Delivered(false)),
    ] {
        assert!(matches!(update_package_hasher(action, report), Hasher::Stop));
    }
}

#[test]
fn updates_can_be_copied() {
    let update = HashUpdate { package: text("ui"), task: text("build"), hash: text("1") };
    let copy = update.clone();
    assert_eq!(
        (copy.package, copy.task, copy.hash),
        (update.package, update.task, update.hash)
    );
    let hashes = FileHashes(hashes(&[("ui", "build", "1"), ("web", "build", "2")]));
    assert_eq!(listed(&hashes.clone().0), listed(&hashes.0));
    let mut files = AssocMap::new();
    files.insert(text("a.js"), text("1"));
    let files = filewatch::FileHashes(files);
    assert_eq!(files.clone().0.get(&text("a.js")), Some(&text("1")));
}

fn watch(action: EventAction, report: EventReport, held: &mut Hashes) -> EventAction {
    filewatch::PackageHashWatcher::new("/repo", 'w').watch(action, report, held)
}

fn plainly_told(updates: &[filewatch::HashUpdate]) -> Vec<(String, String, String)> {
    let mut entries: Vec<_> = updates
        .iter()
        .map(|update| (update.package.clone(), update.task.clone(), update.hash.clone()))
        .collect();
    entries.sort();
    entries
}

#[test]
fn those_who_subscribe_are_told_of_new_hashes() {
    let watcher = filewatch::PackageHashWatcher::new("/repo", 'w');
    assert_eq!((watcher.repo_root, watcher.package_watcher), ("/repo", 'w'));
    let before = hashes(&[("ui", "build", "1"), ("web", "build", "2")]);
    let after = hashes(&[("ui", "build", "3"), ("web", "build", "2"), ("web", "lint", "4")]);
    assert_eq!(
        plainly_told(&watcher.subscribe(&before, &after)),
        vec![entry("ui", "build", "3"), entry("web", "lint", "4")]
    );
    assert!(watcher.subscribe(&before, &before).is_empty());
}

#[test]
fn the_plain_watcher_keeps_and_sends_hashes() {
    let mut held = hashes(&[]);
    let found = hashes(&[("ui", "build", "1"), ("web", "build", "2")]);
    let report = EventReport::Discovered(found);
    let next = watch(EventAction::AwaitEvent, report, &mut held);
    let EventAction::SendUpdates(updates) = &next else {
        panic!("not sent");
    };
    assert_eq!(
        plainly_told(updates),
        vec![entry("ui", "build", "1"), entry("web", "build", "2")]
    );
    let next = watch(next, EventReport::Sent, &mut held);
    assert!(matches!(next, EventAction::AwaitEvent));
    let next = watch(next, EventReport::Event(EventKind::Modify), &mut held);
    assert!(matches!(next, EventAction::MapChanges));
    let changes = PackageChanges::Only(vec![PackageName::Other(text("ui"))]);
    let next = watch(next, EventReport::Mapped(changes), &mut held);
    assert!(matches!(&next, EventAction::CalculateHashes(tasks) if named(tasks) == ["ui#build"]));
    let report = EventReport::Hashed(hashes(&[("ui", "build", "5")]));
    let next = watch(next, report, &mut held);
    assert!(matches!(
        &next,
        EventAction::SendUpdates(updates) if plainly_told(updates) == [entry("ui", "build", "5")]
    ));
    assert_eq!(listed(&held), vec![entry("ui", "build", "5"), entry("web", "build", "2")]);
    let next = watch(next, EventReport::Sent, &mut held);
    assert!(matches!(next, EventAction::AwaitEvent));
}

#[test]
fn the_plain_watcher_heeds_changes_only() {
    let mut held = hashes(&[]);
    for kind in [EventKind::Any, EventKind::Access, EventKind::Other] {
        let report = EventReport::Event(kind);
        let next = watch(EventAction::AwaitEvent, report, &mut held);
        assert!(matches!(next, EventAction::AwaitEvent));
    }
    for kind in [EventKind::Create, EventKind::Modify, EventKind::Remove] {
        let report = EventReport::Event(kind);
        let next = watch(EventAction::AwaitEvent, report, &mut held);
        assert!(matches!(next, EventAction::MapChanges));
    }
    let next = watch(EventAction::AwaitEvent, EventReport::EventsLost, &mut held);
    assert!(matches!(next, EventAction::Stop));
    assert_eq!(after_publishing(true), PackagesAction::Rebuild);
    assert_eq!(after_publishing(false), PackagesAction::Stop);
}
