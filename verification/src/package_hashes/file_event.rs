//! What a change to a file means for the hashes of tasks.
use crate::assoc::{AssocMap, MapKey};
use crate::package_hashes::package_hash_watcher::{
    are_updates, has_new_hash, new_hashes_are_sent, update_views, updates_between, HashUpdate,
    HashUpdateView, PackageName, PackageNameView,
};
use crate::package_hashes::package_json::PackageJsonFile;
use crate::package_hashes::root_files::{Published, RootFiles};
use crate::package_hashes::{
    PackageInputsHashes, PackageInputsHashesView, TaskNode, TaskNodeView,
};
use crate::task_id::TaskId;
use crate::text::same_text;
use vstd::prelude::*;

verus! {

/// What happened to a file.
#[derive(Clone, Copy, Debug, PartialEq, Eq, Structural)]
pub enum EventKind {
    Any,
    Access,
    Create,
    Modify,
    Remove,
    Other,
}

impl EventKind {
    /// Whether a file is not what it was.
    pub open spec fn spec_alters(self) -> bool {
        self is Create || self is Modify || self is Remove
    }

    /// Whether a file is not what it was.
    pub fn alters(self) -> (alters: bool)
        ensures
            alters == self.spec_alters(),
    {
        match self {
            EventKind::Any | EventKind::Access | EventKind::Other => false,
            EventKind::Create | EventKind::Modify | EventKind::Remove => true,
        }
    }
}

/// Something that happened to the files at some paths. A path is the list of its
/// components.
#[derive(Debug)]
pub struct FileEvent {
    pub kind: EventKind,
    pub paths: Vec<Vec<String>>,
}

/// What an event says.
pub struct FileEventView {
    pub kind: EventKind,
    pub paths: Seq<Seq<Seq<char>>>,
}

impl View for FileEvent {
    type V = FileEventView;

    open spec fn view(&self) -> FileEventView {
        FileEventView { kind: self.kind, paths: self.paths.deep_view() }
    }
}

/// Which packages a change affects.
#[derive(Debug)]
pub enum PackageChanges {
    All,
    Only(Vec<PackageName>),
}

/// The names in a list.
pub open spec fn package_names(names: Seq<PackageName>) -> Seq<PackageNameView> {
    names.map_values(|name: PackageName| name@)
}

/// The packages that a change affects.
pub enum PackageChangesView {
    All,
    Only(Seq<PackageNameView>),
}

impl View for PackageChanges {
    type V = PackageChangesView;

    open spec fn view(&self) -> PackageChangesView {
        match self {
            PackageChanges::All => PackageChangesView::All,
            PackageChanges::Only(names) => PackageChangesView::Only(package_names(names@)),
        }
    }
}

/// What is to be done next about an event. A root package description, once
/// decoded, is a `P`.
#[derive(Debug)]
pub enum Action<P> {
    /// Look at the event.
    Start,
    /// Withdraw the root turbo.json from those who listen for it.
    ClearTurboJson,
    /// Look up the root package description.
    FetchRootPackageJson,
    /// Load the root turbo.json for that description, and publish it.
    ReloadTurboJson,
    /// Read the root package description at the path with this number. From here
    /// on it is kept in mind which root files were published.
    ReadRootPackageJson(usize, Published),
    /// Decode the root package description.
    DecodeRootPackageJson(serde_json::Value, Published),
    /// Publish the root package description.
    PublishRootPackageJson(P, Published),
    /// Wait for the package graph, and find the packages that the paths belong
    /// to.
    MapChanges(Published),
    /// Look up the hasher, to hash these tasks.
    FetchHasher(Vec<TaskNode>),
    /// Wait for the hasher that is made from what was published, to hash these
    /// tasks.
    AwaitHasher(Published, Vec<TaskNode>),
    /// Hash these tasks.
    CalculateHashes(Vec<TaskNode>),
    /// Send out these updates.
    SendUpdates(Vec<HashUpdate>),
    /// Report the paths as dealt with.
    RegisterCookie,
    /// The event has been dealt with.
    Finish,
}

/// The tasks in a list.
pub open spec fn task_nodes(tasks: Seq<TaskNode>) -> Seq<TaskNodeView> {
    tasks.map_values(|task: TaskNode| task@)
}

/// What is to be done next.
#[verifier::ext_equal]
pub enum ActionView<P> {
    Start,
    ClearTurboJson,
    FetchRootPackageJson,
    ReloadTurboJson,
    ReadRootPackageJson(int, Published),
    DecodeRootPackageJson(serde_json::Value, Published),
    PublishRootPackageJson(P, Published),
    MapChanges(Published),
    FetchHasher(Seq<TaskNodeView>),
    AwaitHasher(Published, Seq<TaskNodeView>),
    CalculateHashes(Seq<TaskNodeView>),
    SendUpdates(Seq<HashUpdateView>),
    RegisterCookie,
    Finish,
}

impl<P> View for Action<P> {
    type V = ActionView<P>;

    open spec fn view(&self) -> ActionView<P> {
        match *self {
            Action::Start => ActionView::Start,
            Action::ClearTurboJson => ActionView::ClearTurboJson,
            Action::FetchRootPackageJson => ActionView::FetchRootPackageJson,
            Action::ReloadTurboJson => ActionView::ReloadTurboJson,
            Action::ReadRootPackageJson(i, published) => ActionView::ReadRootPackageJson(
                i as int,
                published,
            ),
            Action::DecodeRootPackageJson(value, published) => ActionView::DecodeRootPackageJson(
                value,
                published,
            ),
            Action::PublishRootPackageJson(json, published) => ActionView::PublishRootPackageJson(
                json,
                published,
            ),
            Action::MapChanges(published) => ActionView::MapChanges(published),
            Action::FetchHasher(tasks) => ActionView::FetchHasher(task_nodes(tasks@)),
            Action::AwaitHasher(published, tasks) => ActionView::AwaitHasher(
                published,
                task_nodes(tasks@),
            ),
            Action::CalculateHashes(tasks) => ActionView::CalculateHashes(task_nodes(tasks@)),
            Action::SendUpdates(updates) => ActionView::SendUpdates(update_views(updates@)),
            Action::RegisterCookie => ActionView::RegisterCookie,
            Action::Finish => ActionView::Finish,
        }
    }
}

/// What came of an action.
#[derive(Debug)]
pub enum Report<P> {
    /// It was performed.
    Performed,
    /// Whether somebody listens.
    Delivered(bool),
    /// Whether what was looked up is there.
    Available(bool),
    /// The file was published under this number.
    Published(u64),
    /// The root files that the new hasher is made from, if one will come.
    NewHasher(Option<RootFiles>),
    /// What was read.
    Read(PackageJsonFile),
    /// The description, if the document is one.
    Decoded(Option<P>),
    /// The packages that the paths belong to, if there is a package graph.
    Mapped(Option<PackageChanges>),
    /// The hashes of the tasks.
    Hashed(PackageInputsHashes),
}

/// What came of an action.
pub enum ReportView<P> {
    Performed,
    Delivered(bool),
    Available(bool),
    Published(u64),
    NewHasher(Option<RootFiles>),
    Read(PackageJsonFile),
    Decoded(Option<P>),
    Mapped(Option<PackageChangesView>),
    Hashed(PackageInputsHashesView),
}

impl<P> View for Report<P> {
    type V = ReportView<P>;

    open spec fn view(&self) -> ReportView<P> {
        match *self {
            Report::Performed => ReportView::Performed,
            Report::Delivered(yes) => ReportView::Delivered(yes),
            Report::Available(yes) => ReportView::Available(yes),
            Report::Published(number) => ReportView::Published(number),
            Report::NewHasher(files) => ReportView::NewHasher(files),
            Report::Read(file) => ReportView::Read(file),
            Report::Decoded(json) => ReportView::Decoded(json),
            Report::Mapped(Some(changes)) => ReportView::Mapped(Some(changes@)),
            Report::Mapped(None) => ReportView::Mapped(None),
            Report::Hashed(hashes) => ReportView::Hashed(hashes@),
        }
    }
}

/// Whether an action can have come to this. A hasher that was waited for is made
/// from nothing older than what was published.
pub open spec fn answers<P>(action: ActionView<P>, report: ReportView<P>) -> bool {
    match action {
        ActionView::Start => report is Performed,
        ActionView::ClearTurboJson => report is Delivered,
        ActionView::FetchRootPackageJson => report is Available,
        ActionView::ReloadTurboJson => report is Published,
        ActionView::ReadRootPackageJson(_, _) => report is Read,
        ActionView::DecodeRootPackageJson(_, _) => report is Decoded,
        ActionView::PublishRootPackageJson(_, _) => report is Published,
        ActionView::MapChanges(_) => report is Mapped,
        ActionView::FetchHasher(_) => report is Available,
        ActionView::AwaitHasher(published, _) => match report {
            ReportView::NewHasher(Some(files)) => files.spec_covers(published),
            ReportView::NewHasher(None) => true,
            _ => false,
        },
        ActionView::CalculateHashes(_) => report is Hashed,
        ActionView::SendUpdates(_) => report is Performed,
        ActionView::RegisterCookie => report is Performed,
        ActionView::Finish => false,
    }
}

/// Whether a path is that of a turbo.json.
pub open spec fn is_turbo_json(path: Seq<Seq<char>>) -> bool {
    path.len() > 0 && path.last() == "turbo.json"@
}

/// Whether one of the paths is that of a turbo.json.
pub open spec fn turbo_json_changed(event: FileEventView) -> bool {
    exists|i: int| 0 <= i < event.paths.len() && is_turbo_json(#[trigger] event.paths[i])
}

/// The path of the root package description.
pub open spec fn root_package_json_path(repo_root: Seq<Seq<char>>) -> Seq<Seq<char>> {
    repo_root.push("package.json"@)
}

/// Whether one of the paths is that of a turbo.json or of the root package
/// description.
pub open spec fn root_file_changed(event: FileEventView, repo_root: Seq<Seq<char>>) -> bool {
    turbo_json_changed(event) || event.paths.contains(root_package_json_path(repo_root))
}

/// What is to be done once turbo.json has been dealt with: the root package
/// description is read at the first path that is its own, if there is one.
pub open spec fn after_turbo_json<P>(
    event: FileEventView,
    repo_root: Seq<Seq<char>>,
    published: Published,
) -> ActionView<P> {
    match event.paths.index_of_first(root_package_json_path(repo_root)) {
        Some(i) => ActionView::ReadRootPackageJson(i, published),
        None => ActionView::MapChanges(published),
    }
}

/// The package that the tasks of the root package belong to.
pub open spec fn root_package() -> Seq<char> {
    "//"@
}

/// Whether a change affects a task: its package is among those that changed.
pub open spec fn affects(changes: PackageChangesView, task: (Seq<char>, Seq<char>)) -> bool {
    match changes {
        PackageChangesView::All => true,
        PackageChangesView::Only(names) => names.contains(PackageNameView::Other(task.0)) || (task.0
            == root_package() && names.contains(PackageNameView::Root)),
    }
}

/// Those of the tasks that a change affects.
pub open spec fn affected(
    tasks: Set<(Seq<char>, Seq<char>)>,
    changes: PackageChangesView,
) -> Set<(Seq<char>, Seq<char>)> {
    tasks.filter(|task: (Seq<char>, Seq<char>)| affects(changes, task))
}

/// Those of the tasks that are to be hashed again: all of them if a root file
/// changed, else those that the change affects.
pub open spec fn to_hash(
    event: FileEventView,
    repo_root: Seq<Seq<char>>,
    tasks: Set<(Seq<char>, Seq<char>)>,
    changes: PackageChangesView,
) -> Set<(Seq<char>, Seq<char>)> {
    if root_file_changed(event, repo_root) {
        tasks
    } else {
        affected(tasks, changes)
    }
}

/// Whether the list holds each of the tasks once, and nothing else.
pub open spec fn lists(list: Seq<TaskNodeView>, tasks: Set<(Seq<char>, Seq<char>)>) -> bool {
    &&& list.no_duplicates()
    &&& forall|node: TaskNodeView| #[trigger]
        list.contains(node) <==> (node matches TaskNodeView::Task(id) && tasks.contains(id))
}

/// Whether `next` is what is to be done after `action` came to `report`.
pub open spec fn follows<P>(
    event: FileEventView,
    repo_root: Seq<Seq<char>>,
    task_hashes: Map<(Seq<char>, Seq<char>), Seq<char>>,
    action: ActionView<P>,
    report: ReportView<P>,
    next: ActionView<P>,
) -> bool {
    match (action, report) {
        (ActionView::Start, _) => next == if !event.kind.spec_alters() {
            ActionView::Finish
        } else if turbo_json_changed(event) {
            ActionView::ClearTurboJson
        } else {
            after_turbo_json::<P>(event, repo_root, Published::nothing())
        },
        (ActionView::ClearTurboJson, ReportView::Delivered(delivered)) => next == if delivered {
            ActionView::FetchRootPackageJson
        } else {
            after_turbo_json::<P>(event, repo_root, Published::nothing())
        },
        (ActionView::FetchRootPackageJson, ReportView::Available(available)) => next
            == if available {
            ActionView::<P>::ReloadTurboJson
        } else {
            ActionView::Finish
        },
        (ActionView::ReloadTurboJson, ReportView::Published(number)) => next == after_turbo_json::<
            P,
        >(event, repo_root, Published { turbo_json: Some(number), package_json: None }),
        (ActionView::ReadRootPackageJson(_, published), ReportView::Read(file)) => next
            == match file {
            PackageJsonFile::Document(value) => ActionView::<P>::DecodeRootPackageJson(
                value,
                published,
            ),
            _ => ActionView::Finish,
        },
        (ActionView::DecodeRootPackageJson(_, published), ReportView::Decoded(decoded)) => next
            == match decoded {
            Some(json) => ActionView::PublishRootPackageJson(json, published),
            None => ActionView::Finish,
        },
        (ActionView::PublishRootPackageJson(_, published), ReportView::Published(number)) => next
            == ActionView::<P>::MapChanges(
            Published { package_json: Some(number), ..published },
        ),
        (ActionView::MapChanges(_), ReportView::Mapped(None)) => next == ActionView::<P>::Finish,
        (ActionView::MapChanges(published), ReportView::Mapped(Some(changes))) => {
            let tasks = to_hash(event, repo_root, task_hashes.dom(), changes);
            if tasks == Set::<(Seq<char>, Seq<char>)>::empty() {
                next == ActionView::<P>::Finish
            } else if published == Published::nothing() {
                next matches ActionView::FetchHasher(list) && lists(list, tasks)
            } else {
                next matches ActionView::AwaitHasher(wanted, list) && wanted == published && lists(
                    list,
                    tasks,
                )
            }
        },
        (ActionView::FetchHasher(tasks), ReportView::Available(available)) => next
            == if available {
            ActionView::<P>::CalculateHashes(tasks)
        } else {
            ActionView::Finish
        },
        (ActionView::AwaitHasher(_, tasks), ReportView::NewHasher(files)) => next
            == if files is Some {
            ActionView::<P>::CalculateHashes(tasks)
        } else {
            ActionView::Finish
        },
        (ActionView::CalculateHashes(_), ReportView::Hashed(hashes)) => {
            next matches ActionView::SendUpdates(updates) && are_updates(
                task_hashes,
                task_hashes.union_prefer_right(hashes.hashes),
                updates,
            )
        },
        (ActionView::SendUpdates(_), _) => next == ActionView::<P>::RegisterCookie,
        _ => next == ActionView::<P>::Finish,
    }
}

/// The hashes that are held once `action` came to `report`: those of the tasks
/// that were hashed are replaced.
pub open spec fn hashes_after<P>(
    task_hashes: Map<(Seq<char>, Seq<char>), Seq<char>>,
    action: ActionView<P>,
    report: ReportView<P>,
) -> Map<(Seq<char>, Seq<char>), Seq<char>> {
    match (action, report) {
        (ActionView::CalculateHashes(_), ReportView::Hashed(hashes)) => {
            task_hashes.union_prefer_right(hashes.hashes)
        },
        _ => task_hashes,
    }
}

/// Whether two paths are the same.
fn same_path(a: &Vec<String>, b: &Vec<String>) -> (same: bool)
    ensures
        same == (a.deep_view() == b.deep_view()),
{
    if a.len() != b.len() {
        assert(a.deep_view().len() != b.deep_view().len());
        return false;
    }
    let mut i: usize = 0;
    while i < a.len()
        invariant
            i <= a@.len(),
            a@.len() == b@.len(),
            forall|j: int| 0 <= j < i ==> (#[trigger] a@[j])@ == b@[j]@,
        decreases a@.len() - i,
    {
        if a[i] != b[i] {
            assert(a.deep_view()[i as int] != b.deep_view()[i as int]);
            return false;
        }
        i += 1;
    }
    assert(a.deep_view() =~= b.deep_view());
    true
}

/// Whether one of the paths is that of a turbo.json.
fn names_turbo_json(event: &FileEvent) -> (changed: bool)
    ensures
        changed == turbo_json_changed(event@),
{
    let mut i: usize = 0;
    while i < event.paths.len()
        invariant
            i <= event.paths@.len(),
            forall|j: int| 0 <= j < i ==> !is_turbo_json(#[trigger] event@.paths[j]),
        decreases event.paths@.len() - i,
    {
        let path = &event.paths[i];
        assert(event@.paths[i as int] == path.deep_view());
        if path.len() > 0 {
            assert(event@.paths[i as int].last() == path@[path@.len() - 1]@);
            if same_text(path[path.len() - 1].as_str(), "turbo.json") {
                return true;
            }
        }
        i += 1;
    }
    false
}

/// Where among the paths that of the root package description is.
fn find_root_package_json(event: &FileEvent, repo_root: &Vec<String>) -> (place: Option<usize>)
    ensures
        match place {
            Some(i) => event@.paths.index_of_first(root_package_json_path(repo_root.deep_view()))
                == Some(i as int),
            None => event@.paths.index_of_first(root_package_json_path(repo_root.deep_view()))
                is None,
        },
{
    let mut root_package_json: Vec<String> = Vec::new();
    let mut k: usize = 0;
    while k < repo_root.len()
        invariant
            k <= repo_root@.len(),
            root_package_json.deep_view() == repo_root.deep_view().take(k as int),
        decreases repo_root@.len() - k,
    {
        let ghost before = root_package_json.deep_view();
        root_package_json.push(repo_root[k].clone());
        assert(root_package_json.deep_view() =~= before.push(repo_root@[k as int]@));
        assert(repo_root.deep_view().take(k + 1) =~= before.push(repo_root@[k as int]@));
        k += 1;
    }
    let ghost root = root_package_json.deep_view();
    assert(root =~= repo_root.deep_view());
    root_package_json.push("package.json".to_owned());
    let ghost wanted = root_package_json_path(repo_root.deep_view());
    assert(root_package_json.deep_view() =~= root.push("package.json"@));
    proof {
        event@.paths.index_of_first_ensures(wanted);
    }
    let mut i: usize = 0;
    while i < event.paths.len()
        invariant
            i <= event.paths@.len(),
            wanted == root_package_json_path(repo_root.deep_view()),
            root_package_json.deep_view() == wanted,
            forall|j: int| 0 <= j < i ==> #[trigger] event@.paths[j] != wanted,
        decreases event.paths@.len() - i,
    {
        assert(event@.paths[i as int] == event.paths@[i as int].deep_view());
        if same_path(&event.paths[i], &root_package_json) {
            proof {
                event@.paths.index_of_first_ensures(wanted);
                assert(event@.paths.contains(wanted));
            }
            return Some(i);
        }
        i += 1;
    }
    None
}

/// What is to be done once turbo.json has been dealt with.
fn look_for_root_package_json<P>(
    event: &FileEvent,
    repo_root: &Vec<String>,
    published: Published,
) -> (next: Action<P>)
    ensures
        next@ == after_turbo_json::<P>(event@, repo_root.deep_view(), published),
{
    match find_root_package_json(event, repo_root) {
        Some(i) => Action::ReadRootPackageJson(i, published),
        None => Action::MapChanges(published),
    }
}

/// Whether one of the paths is that of a root file.
fn names_root_file(event: &FileEvent, repo_root: &Vec<String>) -> (changed: bool)
    ensures
        changed == root_file_changed(event@, repo_root.deep_view()),
{
    proof {
        event@.paths.index_of_first_ensures(root_package_json_path(repo_root.deep_view()));
    }
    names_turbo_json(event) || find_root_package_json(event, repo_root).is_some()
}

/// Whether a change affects the tasks of a package.
fn affects_package(changes: &PackageChanges, package: &str) -> (yes: bool)
    ensures
        forall|task: Seq<char>| yes == #[trigger] affects(changes@, (package@, task)),
{
    match changes {
        PackageChanges::All => true,
        PackageChanges::Only(names) => {
            let name = PackageName::Other(package.to_owned());
            let root = same_text(package, "//");
            let mut i: usize = 0;
            while i < names.len()
                invariant
                    i <= names@.len(),
                    name@ == PackageNameView::Other(package@),
                    root == (package@ == root_package()),
                    changes@ == PackageChangesView::Only(package_names(names@)),
                    forall|j: int|
                        0 <= j < i ==> (#[trigger] names@[j])@ != name@ && !(root && names@[j]@
                            is Root),
                decreases names@.len() - i,
            {
                assert(package_names(names@)[i as int] == names@[i as int]@);
                if names[i].same_key(&name) {
                    return true;
                }
                if root && names[i].same_key(&PackageName::Root) {
                    return true;
                }
                i += 1;
            }
            assert(!package_names(names@).contains(name@));
            assert(root ==> !package_names(names@).contains(PackageNameView::Root));
            false
        },
    }
}

/// A list of tasks, and one more.
proof fn lemma_listed(
    list: Seq<TaskNodeView>,
    tasks: Set<(Seq<char>, Seq<char>)>,
    id: (Seq<char>, Seq<char>),
)
    requires
        lists(list, tasks),
        !tasks.contains(id),
    ensures
        lists(list.push(TaskNodeView::Task(id)), tasks.insert(id)),
{
    let longer = list.push(TaskNodeView::Task(id));
    assert(!list.contains(TaskNodeView::Task(id)));
    assert forall|node: TaskNodeView| #[trigger] longer.contains(node) <==> list.contains(node)
        || node == TaskNodeView::Task(id) by {
        assert(longer[list.len() as int] == TaskNodeView::Task(id));
        if list.contains(node) {
            let i = choose|i: int| 0 <= i < list.len() && list[i] == node;
            assert(longer[i] == node);
        }
    }
}

/// Those of the tasks that a change affects.
pub(crate) fn affected_tasks(task_hashes: &AssocMap<TaskId, String>, changes: &PackageChanges) -> (tasks: Vec<
    TaskNode,
>)
    ensures
        lists(task_nodes(tasks@), affected(task_hashes@.dom(), changes@)),
{
    let ids = task_hashes.keys();
    let ghost wanted = affected(task_hashes@.dom(), changes@);
    let ghost mut found = Set::<(Seq<char>, Seq<char>)>::empty();
    let mut tasks: Vec<TaskNode> = Vec::new();
    let mut i: usize = 0;
    while i < ids.len()
        invariant
            i <= ids@.len(),
            wanted == affected(task_hashes@.dom(), changes@),
            forall|k: int| 0 <= k < ids@.len() ==> task_hashes@.contains_key(#[trigger] ids@[k]@),
            forall|j: int, k: int| 0 <= j < k < ids@.len() ==> ids@[j]@ != ids@[k]@,
            forall|id: (Seq<char>, Seq<char>)| #[trigger]
                found.contains(id) <==> wanted.contains(id) && exists|k: int|
                    0 <= k < i && #[trigger] ids@[k]@ == id,
            lists(task_nodes(tasks@), found),
        decreases ids@.len() - i,
    {
        let ghost before = task_nodes(tasks@);
        let ghost id = ids@[i as int]@;
        let here = affects_package(changes, ids[i].package());
        assert(here == affects(changes@, (id.0, id.1)));
        if here {
            proof {
                lemma_listed(before, found, id);
                found = found.insert(id);
            }
            tasks.push(TaskNode::Task(ids[i].copy_key()));
            assert(task_nodes(tasks@) =~= before.push(TaskNodeView::Task(id)));
        }
        i += 1;
    }
    assert(found =~= wanted);
    tasks
}

/// A file event can mean a few things:
///
/// - a file in a package was changed. The hashes of the tasks of that package
///   are calculated again
/// - the root package description was changed. The hashes of all tasks are
///   calculated again, with the hasher that is made from the new description and
///   the package graph that is built from it
/// - a turbo.json was changed. The hashes of all tasks are calculated again, with
///   the hasher that is made from the new root turbo.json
///
/// Says what is to be done after `action` came to `report`, and takes in the
/// hashes that it brought. Those that are new are sent out.
pub fn handle_file_event<P>(
    event: &FileEvent,
    repo_root: &Vec<String>,
    action: Action<P>,
    report: Report<P>,
    task_hashes: &mut AssocMap<TaskId, String>,
) -> (next: Action<P>)
    requires
        answers(action@, report@),
    ensures
        follows(event@, repo_root.deep_view(), old(task_hashes)@, action@, report@, next@),
        final(task_hashes)@ == hashes_after(old(task_hashes)@, action@, report@),
{
    let nothing = Published { package_json: None, turbo_json: None };
    match (action, report) {
        (Action::Start, _) => {
            if !event.kind.alters() {
                Action::Finish
            } else if names_turbo_json(event) {
                Action::ClearTurboJson
            } else {
                look_for_root_package_json(event, repo_root, nothing)
            }
        },
        (Action::ClearTurboJson, Report::Delivered(delivered)) => {
            // no use in updating turbo.json if nobody listens
            if delivered {
                Action::FetchRootPackageJson
            } else {
                look_for_root_package_json(event, repo_root, nothing)
            }
        },
        (Action::FetchRootPackageJson, Report::Available(available)) => {
            if available {
                Action::ReloadTurboJson
            } else {
                Action::Finish
            }
        },
        (Action::ReloadTurboJson, Report::Published(number)) => look_for_root_package_json(
            event,
            repo_root,
            Published { package_json: None, turbo_json: Some(number) },
        ),
        (Action::ReadRootPackageJson(_, published), Report::Read(file)) => {
            match file {
                PackageJsonFile::Document(value) => Action::DecodeRootPackageJson(value, published),
                _ => Action::Finish,
            }
        },
        (Action::DecodeRootPackageJson(_, published), Report::Decoded(decoded)) => {
            match decoded {
                Some(json) => Action::PublishRootPackageJson(json, published),
                None => Action::Finish,
            }
        },
        (Action::PublishRootPackageJson(_, published), Report::Published(number)) => {
            Action::MapChanges(
                Published { package_json: Some(number), turbo_json: published.turbo_json },
            )
        },
        (Action::MapChanges(_), Report::Mapped(None)) => Action::Finish,
        (Action::MapChanges(published), Report::Mapped(Some(changes))) => {
            let tasks = if names_root_file(event, repo_root) {
                let tasks = affected_tasks(task_hashes, &PackageChanges::All);
                assert(affected(task_hashes@.dom(), PackageChangesView::All)
                    =~= task_hashes@.dom());
                tasks
            } else {
                affected_tasks(task_hashes, &changes)
            };
            let ghost wanted = to_hash(
                event@,
                repo_root.deep_view(),
                task_hashes@.dom(),
                changes@,
            );
            if tasks.len() == 0 {
                proof {
                    assert forall|id: (Seq<char>, Seq<char>)| !wanted.contains(id) by {
                        assert(!task_nodes(tasks@).contains(TaskNodeView::Task(id)));
                    }
                    assert(wanted =~= Set::empty());
                }
                Action::Finish
            } else {
                proof {
                    assert(task_nodes(tasks@).contains(task_nodes(tasks@)[0]));
                }
                if published.is_nothing() {
                    Action::FetchHasher(tasks)
                } else {
                    Action::AwaitHasher(published, tasks)
                }
            }
        },
        (Action::FetchHasher(tasks), Report::Available(available)) => {
            if available {
                Action::CalculateHashes(tasks)
            } else {
                Action::Finish
            }
        },
        (Action::AwaitHasher(_, tasks), Report::NewHasher(files)) => {
            match files {
                Some(_) => Action::CalculateHashes(tasks),
                None => Action::Finish,
            }
        },
        (Action::CalculateHashes(_), Report::Hashed(hashes)) => {
            let before = task_hashes.copy();
            task_hashes.extend(hashes.hashes);
            let updates = updates_between(&before, task_hashes);
            Action::SendUpdates(updates)
        },
        (Action::SendUpdates(_), _) => Action::RegisterCookie,
        _ => Action::Finish,
    }
}

/// One turn of dealing with an event: the hashes that are held, what is to be
/// done, and what comes of it.
pub struct Turn<P> {
    pub task_hashes: Map<(Seq<char>, Seq<char>), Seq<char>>,
    pub action: ActionView<P>,
    pub report: ReportView<P>,
}

/// Whether one turn leads to the next.
pub open spec fn leads<P>(
    event: FileEventView,
    repo_root: Seq<Seq<char>>,
    turn: Turn<P>,
    next: Turn<P>,
) -> bool {
    &&& answers(turn.action, turn.report)
    &&& follows(event, repo_root, turn.task_hashes, turn.action, turn.report, next.action)
    &&& next.task_hashes == hashes_after(turn.task_hashes, turn.action, turn.report)
}

/// Whether these are the turns of dealing with an event, from the first on.
pub open spec fn is_run<P>(
    event: FileEventView,
    repo_root: Seq<Seq<char>>,
    turns: Seq<Turn<P>>,
) -> bool {
    &&& turns.len() > 0
    &&& turns[0].action is Start
    &&& forall|i: int, j: int|
        0 <= i < turns.len() && j == i + 1 && j < turns.len() ==> leads(
            event,
            repo_root,
            #[trigger] turns[i],
            #[trigger] turns[j],
        )
}

/// An event after which every file is what it was changes no hash, and is dealt
/// with at once.
pub proof fn ignored_events_change_nothing<P>(
    event: FileEventView,
    repo_root: Seq<Seq<char>>,
    turns: Seq<Turn<P>>,
)
    requires
        is_run(event, repo_root, turns),
        !event.kind.spec_alters(),
    ensures
        turns.len() <= 2,
        turns.len() == 2 ==> turns[1].action is Finish,
        turns.last().task_hashes == turns[0].task_hashes,
{
    if turns.len() >= 2 {
        assert(leads(event, repo_root, turns[0], turns[1]));
        if turns.len() > 2 {
            assert(leads(event, repo_root, turns[1], turns[2]));
        }
    }
}

/// How far an event has been dealt with.
pub open spec fn progress<P>(action: ActionView<P>) -> nat {
    match action {
        ActionView::Start => 0,
        ActionView::ClearTurboJson => 1,
        ActionView::FetchRootPackageJson => 2,
        ActionView::ReloadTurboJson => 3,
        ActionView::ReadRootPackageJson(_, _) => 4,
        ActionView::DecodeRootPackageJson(_, _) => 5,
        ActionView::PublishRootPackageJson(_, _) => 6,
        ActionView::MapChanges(_) => 7,
        ActionView::FetchHasher(_) => 8,
        ActionView::AwaitHasher(_, _) => 8,
        ActionView::CalculateHashes(_) => 9,
        ActionView::SendUpdates(_) => 10,
        ActionView::RegisterCookie => 11,
        ActionView::Finish => 12,
    }
}

/// Every event is dealt with in the end: each turn gets further than the one
/// before.
pub proof fn every_turn_gets_further<P>(
    event: FileEventView,
    repo_root: Seq<Seq<char>>,
    turns: Seq<Turn<P>>,
)
    requires
        is_run(event, repo_root, turns),
    ensures
        forall|i: int, j: int|
            0 <= i < j < turns.len() ==> progress((#[trigger] turns[i]).action) < progress(
                (#[trigger] turns[j]).action,
            ),
        turns.len() <= 13,
{
    assert forall|i: int, j: int| 0 <= i < j < turns.len() implies progress(
        (#[trigger] turns[i]).action,
    ) < progress((#[trigger] turns[j]).action) by {
        lemma_further(event, repo_root, turns, i, j);
    }
    lemma_at_least(event, repo_root, turns, turns.len() - 1);
}

proof fn lemma_further<P>(
    event: FileEventView,
    repo_root: Seq<Seq<char>>,
    turns: Seq<Turn<P>>,
    i: int,
    j: int,
)
    requires
        is_run(event, repo_root, turns),
        0 <= i < j < turns.len(),
    ensures
        progress(turns[i].action) < progress(turns[j].action),
    decreases j - i,
{
    assert(leads(event, repo_root, turns[j - 1], turns[j]));
    if i < j - 1 {
        lemma_further(event, repo_root, turns, i, j - 1);
    }
}

proof fn lemma_at_least<P>(
    event: FileEventView,
    repo_root: Seq<Seq<char>>,
    turns: Seq<Turn<P>>,
    i: int,
)
    requires
        is_run(event, repo_root, turns),
        0 <= i < turns.len(),
    ensures
        progress(turns[i].action) >= i,
    decreases i,
{
    if i > 0 {
        lemma_at_least(event, repo_root, turns, i - 1);
        lemma_further(event, repo_root, turns, i - 1, i);
    }
}

/// A task that has a hash keeps having one.
pub proof fn tasks_stay<P>(
    event: FileEventView,
    repo_root: Seq<Seq<char>>,
    turns: Seq<Turn<P>>,
)
    requires
        is_run(event, repo_root, turns),
    ensures
        turns[0].task_hashes.dom().subset_of(turns.last().task_hashes.dom()),
    decreases turns.len(),
{
    if turns.len() > 1 {
        let before = turns.drop_last();
        assert(is_run(event, repo_root, before)) by {
            assert forall|i: int, j: int|
                0 <= i < before.len() && j == i + 1 && j < before.len() implies leads(
                event,
                repo_root,
                #[trigger] before[i],
                #[trigger] before[j],
            ) by {
                assert(leads(event, repo_root, turns[i], turns[j]));
            }
        }
        tasks_stay(event, repo_root, before);
        assert(leads(event, repo_root, turns[turns.len() - 2], turns[turns.len() - 1]));
    }
}

/// The tasks that are hashed again are those that have a hash and that the event
/// affects, all of them if a root file changed.
pub proof fn affected_tasks_are_hashed<P>(
    event: FileEventView,
    repo_root: Seq<Seq<char>>,
    turns: Seq<Turn<P>>,
    i: int,
    j: int,
    changes: PackageChangesView,
    tasks: Seq<TaskNodeView>,
)
    requires
        is_run(event, repo_root, turns),
        0 <= i < turns.len(),
        0 <= j < turns.len(),
        turns[i].action is MapChanges,
        turns[i].report == ReportView::<P>::Mapped(Some(changes)),
        turns[j].action == ActionView::<P>::CalculateHashes(tasks),
    ensures
        lists(tasks, to_hash(event, repo_root, turns[i].task_hashes.dom(), changes)),
{
    every_turn_gets_further(event, repo_root, turns);
    assert(i < j);
    assert(leads(event, repo_root, turns[i], turns[i + 1]));
    if turns[i + 1].action is Finish {
        assert(progress(turns[i + 1].action) <= progress(turns[j].action));
    } else {
        assert(i + 1 < j);
        assert(leads(event, repo_root, turns[i + 1], turns[i + 2]));
        assert(progress(turns[i + 2].action) <= progress(turns[j].action));
    }
}

/// Whether the hasher gave hashes of the tasks that it was asked for only.
pub open spec fn hashes_what_was_asked<P>(turn: Turn<P>) -> bool {
    match (turn.action, turn.report) {
        (ActionView::CalculateHashes(tasks), ReportView::Hashed(hashes)) => forall|
            task: (Seq<char>, Seq<char>),
        | #[trigger]
            hashes.hashes.contains_key(task) ==> tasks.contains(TaskNodeView::Task(task)),
        _ => true,
    }
}

/// Whether the turn shows that the event affects the task.
pub open spec fn shows_affected<P>(turn: Turn<P>, task: (Seq<char>, Seq<char>)) -> bool {
    &&& turn.action is MapChanges
    &&& turn.report matches ReportView::Mapped(Some(changes)) && affects(changes, task)
}

/// A task that the event does not affect keeps its hash, if the event is not on a
/// root file and the hasher keeps to what it was asked for.
pub proof fn unaffected_tasks_keep_their_hash<P>(
    event: FileEventView,
    repo_root: Seq<Seq<char>>,
    turns: Seq<Turn<P>>,
    task: (Seq<char>, Seq<char>),
)
    requires
        is_run(event, repo_root, turns),
        !root_file_changed(event, repo_root),
        forall|i: int| 0 <= i < turns.len() ==> hashes_what_was_asked(#[trigger] turns[i]),
        forall|i: int| 0 <= i < turns.len() ==> !shows_affected(#[trigger] turns[i], task),
        turns[0].task_hashes.contains_key(task),
    ensures
        turns.last().task_hashes.contains_key(task),
        turns.last().task_hashes[task] == turns[0].task_hashes[task],
{
    lemma_keeps_hash(event, repo_root, turns, task, turns.len() - 1);
}

proof fn lemma_keeps_hash<P>(
    event: FileEventView,
    repo_root: Seq<Seq<char>>,
    turns: Seq<Turn<P>>,
    task: (Seq<char>, Seq<char>),
    i: int,
)
    requires
        is_run(event, repo_root, turns),
        !root_file_changed(event, repo_root),
        forall|i: int| 0 <= i < turns.len() ==> hashes_what_was_asked(#[trigger] turns[i]),
        forall|i: int| 0 <= i < turns.len() ==> !shows_affected(#[trigger] turns[i], task),
        turns[0].task_hashes.contains_key(task),
        0 <= i < turns.len(),
    ensures
        turns[i].task_hashes.contains_key(task),
        turns[i].task_hashes[task] == turns[0].task_hashes[task],
        turns[i].action matches ActionView::FetchHasher(tasks) ==> !tasks.contains(
            TaskNodeView::Task(task),
        ),
        turns[i].action matches ActionView::AwaitHasher(_, tasks) ==> !tasks.contains(
            TaskNodeView::Task(task),
        ),
        turns[i].action matches ActionView::CalculateHashes(tasks) ==> !tasks.contains(
            TaskNodeView::Task(task),
        ),
    decreases i,
{
    if i > 0 {
        lemma_keeps_hash(event, repo_root, turns, task, i - 1);
        assert(leads(event, repo_root, turns[i - 1], turns[i]));
        assert(hashes_what_was_asked(turns[i - 1]));
        assert(!shows_affected(turns[i - 1], task));
    }
}

/// The paths are reported as dealt with only once the new hashes are held and have
/// been sent out.
pub proof fn reported_once_hashed<P>(
    event: FileEventView,
    repo_root: Seq<Seq<char>>,
    turns: Seq<Turn<P>>,
    i: int,
)
    requires
        is_run(event, repo_root, turns),
        0 <= i < turns.len(),
        turns[i].action is RegisterCookie,
    ensures
        i > 1,
        turns[i - 1].action is SendUpdates,
        turns[i - 2].action is CalculateHashes,
        turns[i - 2].report matches ReportView::Hashed(hashes) && turns[i].task_hashes
            == turns[i - 2].task_hashes.union_prefer_right(hashes.hashes),
{
    assert(leads(event, repo_root, turns[i - 1], turns[i]));
    assert(i > 1);
    assert(leads(event, repo_root, turns[i - 2], turns[i - 1]));
}

/// What is sent out is what is new: one update for each task whose hash came out
/// otherwise than it was.
pub proof fn changed_hashes_are_sent<P>(
    event: FileEventView,
    repo_root: Seq<Seq<char>>,
    turns: Seq<Turn<P>>,
    i: int,
    hashes: PackageInputsHashesView,
)
    requires
        is_run(event, repo_root, turns),
        0 <= i,
        i + 1 < turns.len(),
        turns[i].action is CalculateHashes,
        turns[i].report == ReportView::<P>::Hashed(hashes),
    ensures
        turns[i + 1].action matches ActionView::SendUpdates(updates) && are_updates(
            turns[i].task_hashes,
            turns[i + 1].task_hashes,
            updates,
        ),
        forall|task: (Seq<char>, Seq<char>)| #[trigger]
            has_new_hash(turns[i].task_hashes, hashes.hashes, task)
                ==> turns[i + 1].action->SendUpdates_0.contains(
                HashUpdateView { task, hash: hashes.hashes[task] },
            ),
{
    assert(leads(event, repo_root, turns[i], turns[i + 1]));
    new_hashes_are_sent(
        turns[i].task_hashes,
        hashes.hashes,
        turns[i + 1].action->SendUpdates_0,
    );
}

/// What the action keeps in mind of the root files that were published.
pub open spec fn kept_in_mind<P>(action: ActionView<P>) -> Published {
    match action {
        ActionView::ReadRootPackageJson(_, published) => published,
        ActionView::DecodeRootPackageJson(_, published) => published,
        ActionView::PublishRootPackageJson(_, published) => published,
        ActionView::MapChanges(published) => published,
        ActionView::AwaitHasher(published, _) => published,
        _ => Published::nothing(),
    }
}

/// Whether a root file was published in the turn, and under which number.
pub open spec fn publishes<P>(turn: Turn<P>) -> Published {
    match (turn.action, turn.report) {
        (ActionView::ReloadTurboJson, ReportView::Published(number)) => Published {
            turbo_json: Some(number),
            package_json: None,
        },
        (ActionView::PublishRootPackageJson(_, _), ReportView::Published(number)) => Published {
            package_json: Some(number),
            turbo_json: None,
        },
        _ => Published::nothing(),
    }
}

/// Whether a hasher came in the turn that is made from what was published, or from
/// something later.
pub open spec fn brings_hasher_from<P>(turn: Turn<P>, published: Published) -> bool {
    turn.report matches ReportView::NewHasher(Some(files)) && files.spec_covers(published)
}

/// If a root file changed, all tasks that have a hash are hashed again. If root files
/// were published, that is done with a hasher that is made from them or from later
/// ones.
pub proof fn root_files_have_all_hashed_again<P>(
    event: FileEventView,
    repo_root: Seq<Seq<char>>,
    turns: Seq<Turn<P>>,
    j: int,
    tasks: Seq<TaskNodeView>,
)
    requires
        is_run(event, repo_root, turns),
        root_file_changed(event, repo_root),
        0 <= j < turns.len(),
        turns[j].action == ActionView::<P>::CalculateHashes(tasks),
    ensures
        lists(tasks, turns[0].task_hashes.dom()),
        forall|i: int|
            0 <= i < j && publishes(#[trigger] turns[i]) != Published::nothing()
                ==> brings_hasher_from(turns[j - 1], publishes(turns[i])),
{
    every_turn_gets_further(event, repo_root, turns);
    assert(j > 0);
    assert(leads(event, repo_root, turns[j - 1], turns[j]));
    assert(j > 1);
    assert(leads(event, repo_root, turns[j - 2], turns[j - 1]));
    lemma_hashes_kept(event, repo_root, turns, j - 2);
    assert forall|i: int|
        0 <= i < j && publishes(#[trigger] turns[i]) != Published::nothing() implies
        brings_hasher_from(turns[j - 1], publishes(turns[i])) by {
        assert(progress(turns[i].action) < progress(turns[j - 2].action)) by {
            assert(i != j - 1);
            assert(i != j - 2);
        }
        lemma_kept_in_mind(event, repo_root, turns, i, j - 2);
    }
}

/// Until tasks are hashed, the hashes are what they were.
proof fn lemma_hashes_kept<P>(
    event: FileEventView,
    repo_root: Seq<Seq<char>>,
    turns: Seq<Turn<P>>,
    i: int,
)
    requires
        is_run(event, repo_root, turns),
        0 <= i < turns.len(),
        progress(turns[i].action) <= 9,
    ensures
        turns[i].task_hashes == turns[0].task_hashes,
    decreases i,
{
    if i > 0 {
        assert(leads(event, repo_root, turns[i - 1], turns[i]));
        lemma_further(event, repo_root, turns, i - 1, i);
        lemma_hashes_kept(event, repo_root, turns, i - 1);
    }
}

/// What was published is kept in mind until the changes are mapped.
proof fn lemma_kept_in_mind<P>(
    event: FileEventView,
    repo_root: Seq<Seq<char>>,
    turns: Seq<Turn<P>>,
    i: int,
    j: int,
)
    requires
        is_run(event, repo_root, turns),
        0 <= i < j < turns.len(),
        publishes(turns[i]) != Published::nothing(),
        progress(turns[j].action) <= 7,
    ensures
        publishes(turns[i]).turbo_json is Some ==> kept_in_mind(turns[j].action).turbo_json
            == publishes(turns[i]).turbo_json,
        publishes(turns[i]).package_json is Some ==> kept_in_mind(turns[j].action).package_json
            == publishes(turns[i]).package_json,
    decreases j - i,
{
    assert(leads(event, repo_root, turns[j - 1], turns[j]));
    if i < j - 1 {
        lemma_further(event, repo_root, turns, j - 1, j);
        lemma_kept_in_mind(event, repo_root, turns, i, j - 1);
        lemma_further(event, repo_root, turns, i, j - 1);
    }
}

/// The tasks that an action names to be hashed.
pub open spec fn listed<P>(action: ActionView<P>) -> Seq<TaskNodeView> {
    match action {
        ActionView::FetchHasher(tasks) => tasks,
        ActionView::AwaitHasher(_, tasks) => tasks,
        ActionView::CalculateHashes(tasks) => tasks,
        _ => seq![],
    }
}

/// A change to a package has its tasks hashed again, wherever in the list of changed
/// packages its name stands. The tasks of the root package belong to a package of the
/// name of two slashes.
pub proof fn the_tasks_of_a_changed_package_are_hashed_again<P>(
    event: &FileEvent,
    repo_root: &Vec<String>,
    published: Published,
    names: Vec<PackageName>,
    held: &mut AssocMap<TaskId, String>,
    next: Action<P>,
    i: int,
    package: Seq<char>,
    task: Seq<char>,
)
    requires
        call_ensures(
            handle_file_event::<P>,
            (
                event,
                repo_root,
                Action::<P>::MapChanges(published),
                Report::<P>::Mapped(Some(PackageChanges::Only(names))),
                held,
            ),
            next,
        ),
        0 <= i < names@.len(),
        match names@[i] {
            PackageName::Other(name) => name@ == package,
            PackageName::Root => package == "//"@,
        },
        old(held)@.contains_key((package, task)),
    ensures
        listed(next@).contains(TaskNodeView::Task((package, task))),
{
    assert(package_names(names@)[i] == names@[i]@);
    let changes = PackageChanges::Only(names)@;
    assert(changes == PackageChangesView::Only(package_names(names@)));
    assert(package_names(names@).contains(names@[i]@));
    assert(affects(changes, (package, task)));
    let wanted = to_hash(event@, repo_root.deep_view(), old(held)@.dom(), changes);
    assert(wanted.contains((package, task)));
    assert(lists(listed(next@), wanted));
}

/// A change to everything has all tasks hashed again that have a hash.
pub proof fn a_change_of_everything_has_all_tasks_hashed_again<P>(
    event: &FileEvent,
    repo_root: &Vec<String>,
    published: Published,
    held: &mut AssocMap<TaskId, String>,
    next: Action<P>,
    task: (Seq<char>, Seq<char>),
)
    requires
        call_ensures(
            handle_file_event::<P>,
            (
                event,
                repo_root,
                Action::<P>::MapChanges(published),
                Report::<P>::Mapped(Some(PackageChanges::All)),
                held,
            ),
            next,
        ),
        old(held)@.contains_key(task),
    ensures
        listed(next@).contains(TaskNodeView::Task(task)),
{
    let changes = PackageChanges::All@;
    assert(changes is All);
    let wanted = to_hash(event@, repo_root.deep_view(), old(held)@.dom(), changes);
    assert(wanted.contains(task));
    assert(lists(listed(next@), wanted));
}

/// A change to a turbo.json, or to the package description at the root, has all tasks
/// hashed again that have a hash, wherever among the paths of the event that file
/// stands and whichever packages changed.
pub proof fn a_root_file_has_all_tasks_hashed_again<P>(
    event: &FileEvent,
    repo_root: &Vec<String>,
    published: Published,
    changes: PackageChanges,
    held: &mut AssocMap<TaskId, String>,
    next: Action<P>,
    i: int,
    task: (Seq<char>, Seq<char>),
)
    requires
        call_ensures(
            handle_file_event::<P>,
            (
                event,
                repo_root,
                Action::<P>::MapChanges(published),
                Report::<P>::Mapped(Some(changes)),
                held,
            ),
            next,
        ),
        0 <= i < event.paths@.len(),
        event.paths@[i].deep_view() == repo_root.deep_view().push("package.json"@) || (
        event.paths@[i]@.len() > 0 && event.paths@[i]@.last()@ == "turbo.json"@),
        old(held)@.contains_key(task),
    ensures
        listed(next@).contains(TaskNodeView::Task(task)),
{
    assert(event@.paths[i] == event.paths@[i].deep_view());
    if event.paths@[i]@.len() > 0 {
        assert(event@.paths[i].last() == event.paths@[i]@.last()@);
    }
    assert(event@.paths.contains(event@.paths[i]));
    assert(root_file_changed(event@, repo_root.deep_view()));
    let wanted = to_hash(event@, repo_root.deep_view(), old(held)@.dom(), changes@);
    assert(wanted.contains(task));
    assert(lists(listed(next@), wanted));
}

/// What is listed to be hashed again is a task that has a hash, and it is listed once.
/// Where nothing is to be hashed, the event is done with.
pub proof fn tasks_are_hashed_again_once<P>(
    event: &FileEvent,
    repo_root: &Vec<String>,
    published: Published,
    changes: PackageChanges,
    held: &mut AssocMap<TaskId, String>,
    next: Action<P>,
)
    requires
        call_ensures(
            handle_file_event::<P>,
            (
                event,
                repo_root,
                Action::<P>::MapChanges(published),
                Report::<P>::Mapped(Some(changes)),
                held,
            ),
            next,
        ),
    ensures
        listed(next@).len() == 0 ==> next@ is Finish,
        forall|m: int, n: int|
            0 <= m < n < listed(next@).len() ==> listed(next@)[m] != listed(next@)[n],
        forall|n: int|
            0 <= n < listed(next@).len() ==> (
            #[trigger] listed(next@)[n] matches TaskNodeView::Task(task) && old(held)@.contains_key(
                task,
            )),
{
    let wanted = to_hash(event@, repo_root.deep_view(), old(held)@.dom(), changes@);
    let list = listed(next@);
    if next@ !is Finish {
        assert(lists(list, wanted));
        assert forall|n: int| 0 <= n < list.len() implies (
        #[trigger] list[n] matches TaskNodeView::Task(task) && old(held)@.contains_key(task)) by {
            assert(list.contains(list[n]));
        }
        if list.len() == 0 {
            assert forall|task: (Seq<char>, Seq<char>)| !wanted.contains(task) by {
                assert(!list.contains(TaskNodeView::Task(task)));
            }
            assert(wanted =~= Set::empty());
        }
    }
}

/// A task whose package is not among those that changed is not hashed again, unless the
/// event is on a root file.
pub proof fn only_changed_packages_are_hashed_again<P>(
    event: &FileEvent,
    repo_root: &Vec<String>,
    published: Published,
    names: Vec<PackageName>,
    held: &mut AssocMap<TaskId, String>,
    next: Action<P>,
    package: Seq<char>,
    task: Seq<char>,
)
    requires
        call_ensures(
            handle_file_event::<P>,
            (
                event,
                repo_root,
                Action::<P>::MapChanges(published),
                Report::<P>::Mapped(Some(PackageChanges::Only(names))),
                held,
            ),
            next,
        ),
        forall|i: int|
            0 <= i < event.paths@.len() ==> (#[trigger] event.paths@[i]).deep_view()
                != repo_root.deep_view().push("package.json"@) && !(event.paths@[i]@.len() > 0
                && event.paths@[i]@.last()@ == "turbo.json"@),
        forall|i: int|
            0 <= i < names@.len() ==> match #[trigger] names@[i] {
                PackageName::Other(name) => name@ != package,
                PackageName::Root => package != "//"@,
            },
    ensures
        !listed(next@).contains(TaskNodeView::Task((package, task))),
{
    let changes = PackageChanges::Only(names);
    let wanted = to_hash(event@, repo_root.deep_view(), old(held)@.dom(), changes@);
    assert forall|i: int| 0 <= i < event@.paths.len() implies !is_turbo_json(
        #[trigger] event@.paths[i],
    ) && event@.paths[i] != root_package_json_path(repo_root.deep_view()) by {
        assert(event@.paths[i] == event.paths@[i].deep_view());
        if event.paths@[i]@.len() > 0 {
            assert(event@.paths[i].last() == event.paths@[i]@.last()@);
        }
    }
    assert(!root_file_changed(event@, repo_root.deep_view()));
    let views = package_names(names@);
    assert(changes@ == PackageChangesView::Only(views));
    assert forall|i: int| 0 <= i < views.len() implies #[trigger] views[i]
        != PackageNameView::Other(package) && (package == "//"@ ==> views[i]
        != PackageNameView::Root) by {
        assert(views[i] == names@[i]@);
    }
    assert(!affects(changes@, (package, task)));
    lemma_listed_if_wanted(next@, wanted, (package, task));
}

/// Changes add up: the tasks that two lists of changed packages together have hashed
/// again are those that the one has, and those that the other has.
pub proof fn changes_add_up<P>(
    event: &FileEvent,
    repo_root: &Vec<String>,
    published: Published,
    some: Vec<PackageName>,
    others: Vec<PackageName>,
    all: Vec<PackageName>,
    held: &mut AssocMap<TaskId, String>,
    next_some: Action<P>,
    next_others: Action<P>,
    next_all: Action<P>,
    task: (Seq<char>, Seq<char>),
)
    requires
        all@ == some@ + others@,
        call_ensures(
            handle_file_event::<P>,
            (
                event,
                repo_root,
                Action::<P>::MapChanges(published),
                Report::<P>::Mapped(Some(PackageChanges::Only(some))),
                held,
            ),
            next_some,
        ),
        call_ensures(
            handle_file_event::<P>,
            (
                event,
                repo_root,
                Action::<P>::MapChanges(published),
                Report::<P>::Mapped(Some(PackageChanges::Only(others))),
                held,
            ),
            next_others,
        ),
        call_ensures(
            handle_file_event::<P>,
            (
                event,
                repo_root,
                Action::<P>::MapChanges(published),
                Report::<P>::Mapped(Some(PackageChanges::Only(all))),
                held,
            ),
            next_all,
        ),
    ensures
        listed(next_all@).contains(TaskNodeView::Task(task)) <==> listed(next_some@).contains(
            TaskNodeView::Task(task),
        ) || listed(next_others@).contains(TaskNodeView::Task(task)),
{
    let views = package_names(all@);
    let first = package_names(some@);
    let second = package_names(others@);
    assert(views =~= first + second);
    assert forall|name: PackageNameView| #[trigger] views.contains(name) <==> first.contains(name)
        || second.contains(name) by {
        if first.contains(name) {
            let i = choose|i: int| 0 <= i < first.len() && first[i] == name;
            assert(views[i] == name);
        }
        if second.contains(name) {
            let i = choose|i: int| 0 <= i < second.len() && second[i] == name;
            assert(views[first.len() + i] == name);
        }
    }
    let root = repo_root.deep_view();
    let tasks = old(held)@.dom();
    lemma_listed_if_wanted(
        next_all@,
        to_hash(event@, root, tasks, PackageChangesView::Only(views)),
        task,
    );
    lemma_listed_if_wanted(
        next_some@,
        to_hash(event@, root, tasks, PackageChangesView::Only(first)),
        task,
    );
    lemma_listed_if_wanted(
        next_others@,
        to_hash(event@, root, tasks, PackageChangesView::Only(second)),
        task,
    );
}

/// What is listed is what is wanted.
proof fn lemma_listed_if_wanted<P>(
    action: ActionView<P>,
    wanted: Set<(Seq<char>, Seq<char>)>,
    task: (Seq<char>, Seq<char>),
)
    requires
        wanted == Set::<(Seq<char>, Seq<char>)>::empty() ==> action is Finish,
        wanted != Set::<(Seq<char>, Seq<char>)>::empty() ==> lists(listed(action), wanted),
    ensures
        listed(action).contains(TaskNodeView::Task(task)) <==> wanted.contains(task),
{
}

/// If root files were published, the hasher is waited for that is made from them, and
/// else the one at hand is used. Without a package graph the event is done with.
pub proof fn the_new_hasher_is_waited_for<P>(
    event: &FileEvent,
    repo_root: &Vec<String>,
    published: Published,
    changes: Option<PackageChanges>,
    held: &mut AssocMap<TaskId, String>,
    next: Action<P>,
)
    requires
        call_ensures(
            handle_file_event::<P>,
            (
                event,
                repo_root,
                Action::<P>::MapChanges(published),
                Report::<P>::Mapped(changes),
                held,
            ),
            next,
        ),
    ensures
        changes is None ==> next@ is Finish,
        next@ is Finish || next@ is FetchHasher || next@ is AwaitHasher,
        next@ is FetchHasher ==> published.package_json is None && published.turbo_json is None,
        next@ matches ActionView::AwaitHasher(wanted, _) ==> wanted == published && (
        published.package_json is Some || published.turbo_json is Some),
{
}

/// Once the hasher is there, the tasks that were listed are hashed, all of them and no
/// others. Without it the event is done with.
pub proof fn all_that_is_listed_is_hashed<P>(
    event: &FileEvent,
    repo_root: &Vec<String>,
    action: Action<P>,
    report: Report<P>,
    held: &mut AssocMap<TaskId, String>,
    next: Action<P>,
)
    requires
        answers(action@, report@),
        call_ensures(handle_file_event::<P>, (event, repo_root, action, report, held), next),
        action is FetchHasher || action is AwaitHasher,
    ensures
        match report {
            Report::Available(true) | Report::NewHasher(Some(_)) => next@ is CalculateHashes
                && listed(next@) == listed(action@),
            _ => next@ is Finish,
        },
{
}

/// An event after which a file is not what it was is dealt with, and any other is done
/// with at once.
pub proof fn only_changes_are_looked_into<P>(
    event: &FileEvent,
    repo_root: &Vec<String>,
    report: Report<P>,
    held: &mut AssocMap<TaskId, String>,
    next: Action<P>,
)
    requires
        call_ensures(
            handle_file_event::<P>,
            (event, repo_root, Action::<P>::Start, report, held),
            next,
        ),
    ensures
        match event.kind {
            EventKind::Create | EventKind::Modify | EventKind::Remove => next@ is ClearTurboJson
                || next@ is ReadRootPackageJson || next@ is MapChanges,
            EventKind::Any | EventKind::Access | EventKind::Other => next@ is Finish,
        },
        next@ is ClearTurboJson ==> exists|i: int|
            0 <= i < event.paths@.len() && (#[trigger] event.paths@[i])@.len() > 0
                && event.paths@[i]@.last()@ == "turbo.json"@,
{
    if next@ is ClearTurboJson {
        let i = choose|i: int|
            0 <= i < event@.paths.len() && is_turbo_json(#[trigger] event@.paths[i]);
        assert(event@.paths[i] == event.paths@[i].deep_view());
        assert(event@.paths[i].last() == event.paths@[i]@.last()@);
    }
}

/// A turbo.json that changed is withdrawn first, wherever among the paths it stands.
pub proof fn a_changed_turbo_json_is_withdrawn<P>(
    event: &FileEvent,
    repo_root: &Vec<String>,
    report: Report<P>,
    held: &mut AssocMap<TaskId, String>,
    next: Action<P>,
    i: int,
)
    requires
        call_ensures(
            handle_file_event::<P>,
            (event, repo_root, Action::<P>::Start, report, held),
            next,
        ),
        event.kind is Create || event.kind is Modify || event.kind is Remove,
        0 <= i < event.paths@.len(),
        event.paths@[i]@.len() > 0,
        event.paths@[i]@.last()@ == "turbo.json"@,
    ensures
        next@ is ClearTurboJson,
{
    assert(event@.paths[i] == event.paths@[i].deep_view());
    assert(event@.paths[i].last() == event.paths@[i]@.last()@);
    assert(is_turbo_json(event@.paths[i]));
}

/// The root turbo.json is loaded again if somebody listens for it and the root package
/// description is there. Without that description the event is done with.
pub proof fn turbo_json_is_loaded_for_listeners<P>(
    event: &FileEvent,
    repo_root: &Vec<String>,
    action: Action<P>,
    report: Report<P>,
    held: &mut AssocMap<TaskId, String>,
    next: Action<P>,
)
    requires
        answers(action@, report@),
        call_ensures(handle_file_event::<P>, (event, repo_root, action, report, held), next),
    ensures
        action is ClearTurboJson ==> match report {
            Report::Delivered(listens) => if listens {
                next@ is FetchRootPackageJson
            } else {
                next@ is ReadRootPackageJson || next@ is MapChanges
            },
            _ => false,
        },
        action is FetchRootPackageJson ==> match report {
            Report::Available(there) => if there {
                next@ is ReloadTurboJson
            } else {
                next@ is Finish
            },
            _ => false,
        },
        action is ReloadTurboJson ==> next@ is ReadRootPackageJson || next@ is MapChanges,
{
}

/// Once turbo.json has been dealt with, the root package description is read, if it is
/// among the paths: at the first of them that is its own. What was published by then
/// is kept in mind.
pub proof fn a_changed_root_package_json_is_read<P>(
    event: &FileEvent,
    repo_root: &Vec<String>,
    action: Action<P>,
    report: Report<P>,
    held: &mut AssocMap<TaskId, String>,
    next: Action<P>,
    i: int,
)
    requires
        answers(action@, report@),
        call_ensures(handle_file_event::<P>, (event, repo_root, action, report, held), next),
        action is Start || action is ClearTurboJson || action is ReloadTurboJson,
        next@ is ReadRootPackageJson || next@ is MapChanges,
    ensures
        0 <= i < event.paths@.len() && event.paths@[i].deep_view()
            == repo_root.deep_view().push("package.json"@) ==> next@ is ReadRootPackageJson,
        next@ matches ActionView::ReadRootPackageJson(place, _) ==> {
            &&& 0 <= place < event.paths@.len()
            &&& event.paths@[place].deep_view() == repo_root.deep_view().push("package.json"@)
            &&& 0 <= i < place ==> event.paths@[i].deep_view() != repo_root.deep_view().push(
                "package.json"@,
            )
        },
        kept_in_mind(next@).package_json is None,
        kept_in_mind(next@).turbo_json == match report {
            Report::Published(number) => Some(number),
            _ => None,
        },
{
    let wanted = repo_root.deep_view().push("package.json"@);
    event@.paths.index_of_first_ensures(wanted);
    if 0 <= i < event.paths@.len() {
        assert(event@.paths[i] == event.paths@[i].deep_view());
        if event@.paths[i] == wanted {
            assert(event@.paths.contains(wanted));
        }
    }
    if let ActionView::ReadRootPackageJson(place, _) = next@ {
        assert(event@.paths[place] == event.paths@[place].deep_view());
    }
}

/// What is decoded is what was read, what is published is what was decoded, and the
/// numbers of what was published are kept in mind. If the file cannot be opened, holds
/// no document, or does not describe a package, the event is done with.
pub proof fn what_was_read_is_published<P>(
    event: &FileEvent,
    repo_root: &Vec<String>,
    action: Action<P>,
    report: Report<P>,
    held: &mut AssocMap<TaskId, String>,
    next: Action<P>,
)
    requires
        answers(action@, report@),
        call_ensures(handle_file_event::<P>, (event, repo_root, action, report, held), next),
    ensures
        action matches Action::ReadRootPackageJson(_, published) ==> match report {
            Report::Read(PackageJsonFile::Document(value)) => {
                next@ matches ActionView::DecodeRootPackageJson(same, kept) && same == value && kept
                    == published
            },
            _ => next@ is Finish,
        },
        action matches Action::DecodeRootPackageJson(_, published) ==> match report {
            Report::Decoded(Some(json)) => {
                next@ matches ActionView::PublishRootPackageJson(same, kept) && same == json && kept
                    == published
            },
            _ => next@ is Finish,
        },
        action matches Action::PublishRootPackageJson(_, published) ==> {
            next@ matches ActionView::MapChanges(kept) && kept.turbo_json == published.turbo_json
                && match report {
                Report::Published(number) => kept.package_json == Some(number),
                _ => false,
            }
        },
{
}

/// The hash of a task that was hashed is the new one, and that of every other task is
/// what it was. Nothing but hashing changes a hash.
pub proof fn a_hash_is_replaced_by_the_new_one<P>(
    event: &FileEvent,
    repo_root: &Vec<String>,
    action: Action<P>,
    report: Report<P>,
    held: &mut AssocMap<TaskId, String>,
    next: Action<P>,
    task: (Seq<char>, Seq<char>),
)
    requires
        answers(action@, report@),
        call_ensures(handle_file_event::<P>, (event, repo_root, action, report, held), next),
    ensures
        !(action is CalculateHashes) ==> final(held)@ == old(held)@,
        action is CalculateHashes ==> match report {
            Report::Hashed(hashes) => if hashes.hashes@.contains_key(task) {
                final(held)@.contains_key(task) && final(held)@[task] == hashes.hashes@[task]
            } else {
                (final(held)@.contains_key(task) <==> old(held)@.contains_key(task)) && (
                old(held)@.contains_key(task) ==> final(held)@[task] == old(held)@[task])
            },
            _ => false,
        },
{
}

/// An update is sent for a task exactly if it came out with another hash than it had,
/// or had none. It names the task and the new hash, and there is one for each task.
/// Once the updates are sent, the paths are reported as dealt with, and that is all.
pub proof fn updates_are_sent_on_new_hashes<P>(
    event: &FileEvent,
    repo_root: &Vec<String>,
    action: Action<P>,
    report: Report<P>,
    held: &mut AssocMap<TaskId, String>,
    next: Action<P>,
    task: (Seq<char>, Seq<char>),
)
    requires
        answers(action@, report@),
        call_ensures(handle_file_event::<P>, (event, repo_root, action, report, held), next),
    ensures
        action is SendUpdates ==> next@ is RegisterCookie,
        action is RegisterCookie ==> next@ is Finish,
        action is CalculateHashes ==> (next@ matches ActionView::SendUpdates(updates) && {
            &&& forall|m: int, n: int|
                0 <= m < n < updates.len() ==> updates[m].task != updates[n].task
            &&& forall|n: int|
                0 <= n < updates.len() && (#[trigger] updates[n]).task == task ==> {
                    &&& final(held)@.contains_key(task)
                    &&& updates[n].hash == final(held)@[task]
                    &&& !(old(held)@.contains_key(task) && old(held)@[task] == final(held)@[task])
                }
            &&& match report {
                Report::Hashed(hashes) => hashes.hashes@.contains_key(task) && !(
                old(held)@.contains_key(task) && old(held)@[task] == hashes.hashes@[task])
                    ==> exists|n: int|
                    0 <= n < updates.len() && (#[trigger] updates[n]).task == task,
                _ => false,
            }
        }),
{
    if action is CalculateHashes {
        assert(has_new_hash(old(held)@, final(held)@, task) == (final(held)@.contains_key(task)
            && !(old(held)@.contains_key(task) && old(held)@[task] == final(held)@[task])));
    }
}

/// A list is seen element by element, an event with its kind and all its paths, and an
/// action with all that it names.
pub proof fn events_and_actions_are_seen_whole<P>(
    event: FileEvent,
    names: Vec<PackageName>,
    tasks: Vec<TaskNode>,
    updates: Vec<HashUpdate>,
    published: Published,
    place: usize,
    i: int,
)
    ensures
        event@.kind == event.kind,
        event@.paths == event.paths.deep_view(),
        PackageChanges::All@ is All,
        PackageChanges::Only(names)@ matches PackageChangesView::Only(views) && views.len()
            == names@.len() && (0 <= i < names@.len() ==> views[i] == names@[i]@),
        task_nodes(tasks@).len() == tasks@.len(),
        0 <= i < tasks@.len() ==> task_nodes(tasks@)[i] == tasks@[i]@,
        Action::<P>::FetchHasher(tasks)@ == ActionView::<P>::FetchHasher(task_nodes(tasks@)),
        Action::<P>::AwaitHasher(published, tasks)@ == ActionView::<P>::AwaitHasher(
            published,
            task_nodes(tasks@),
        ),
        Action::<P>::CalculateHashes(tasks)@ == ActionView::<P>::CalculateHashes(
            task_nodes(tasks@),
        ),
        Action::<P>::SendUpdates(updates)@ == ActionView::<P>::SendUpdates(
            update_views(updates@),
        ),
        Action::<P>::MapChanges(published)@ == ActionView::<P>::MapChanges(published),
        Action::<P>::ReadRootPackageJson(place, published)@
            == ActionView::<P>::ReadRootPackageJson(place as int, published),
{
}

/// Over the whole of dealing with an event, a task of a package that changed, wherever in
/// the list of changed packages its name stands, is among those that are hashed, and has
/// the hash in the end that came of it.
pub proof fn a_change_reaches_the_hash<P>(
    event: FileEventView,
    repo_root: Seq<Seq<char>>,
    turns: Seq<Turn<P>>,
    i: int,
    j: int,
    names: Seq<PackageNameView>,
    place: int,
    package: Seq<char>,
    task: Seq<char>,
    tasks: Seq<TaskNodeView>,
    hashes: PackageInputsHashesView,
)
    requires
        is_run(event, repo_root, turns),
        0 <= i < turns.len(),
        0 <= j < turns.len() - 1,
        turns[i].action is MapChanges,
        turns[i].report == ReportView::<P>::Mapped(Some(PackageChangesView::Only(names))),
        0 <= place < names.len(),
        names[place] == PackageNameView::Other(package) || (names[place] == PackageNameView::Root
            && package == "//"@),
        turns[0].task_hashes.contains_key((package, task)),
        turns[j].action == ActionView::<P>::CalculateHashes(tasks),
        turns[j].report == ReportView::<P>::Hashed(hashes),
    ensures
        tasks.contains(TaskNodeView::Task((package, task))),
        hashes.hashes.contains_key((package, task)) ==> turns.last().task_hashes.contains_key(
            (package, task),
        ) && turns.last().task_hashes[(package, task)] == hashes.hashes[(package, task)],
{
    let changes = PackageChangesView::Only(names);
    affected_tasks_are_hashed(event, repo_root, turns, i, j, changes, tasks);
    lemma_hashes_kept(event, repo_root, turns, i);
    assert(names.contains(names[place]));
    assert(affects(changes, (package, task)));
    let wanted = to_hash(event, repo_root, turns[i].task_hashes.dom(), changes);
    assert(wanted.contains((package, task)));
    assert(leads(event, repo_root, turns[j], turns[j + 1]));
    lemma_hashes_kept_after(event, repo_root, turns, j + 1, turns.len() - 1);
}

/// Once tasks were hashed, the hashes stay what they are.
proof fn lemma_hashes_kept_after<P>(
    event: FileEventView,
    repo_root: Seq<Seq<char>>,
    turns: Seq<Turn<P>>,
    i: int,
    j: int,
)
    requires
        is_run(event, repo_root, turns),
        0 <= i <= j < turns.len(),
        progress(turns[i].action) > 9,
    ensures
        turns[j].task_hashes == turns[i].task_hashes,
    decreases j - i,
{
    if i < j {
        lemma_hashes_kept_after(event, repo_root, turns, i, j - 1);
        assert(leads(event, repo_root, turns[j - 1], turns[j]));
        if i < j - 1 {
            lemma_further(event, repo_root, turns, i, j - 1);
        }
    }
}

} // verus!
