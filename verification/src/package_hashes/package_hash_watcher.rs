//! Keeps the hashes of tasks up to date while files change.
use crate::assoc::{AssocMap, MapKey};
use crate::package_hashes::file_event::{task_nodes, FileEvent};
use crate::package_hashes::{
    PackageInputsHashes, PackageInputsHashesView, TaskNode, TaskNodeView,
};
use crate::task_id::TaskId;
use vstd::prelude::*;

verus! {

/// A new hash of a task.
#[derive(Debug)]
pub struct HashUpdate {
    pub package: String,
    pub task: String,
    pub hash: String,
}

/// What an update says: the task, and its new hash.
pub struct HashUpdateView {
    pub task: (Seq<char>, Seq<char>),
    pub hash: Seq<char>,
}

impl View for HashUpdate {
    type V = HashUpdateView;

    open spec fn view(&self) -> HashUpdateView {
        HashUpdateView { task: (self.package@, self.task@), hash: self.hash@ }
    }
}

impl Clone for HashUpdate {
    fn clone(&self) -> (copy: Self)
        ensures
            copy.package@ == self.package@,
            copy.task@ == self.task@,
            copy.hash@ == self.hash@,
    {
        HashUpdate {
            package: self.package.clone(),
            task: self.task.clone(),
            hash: self.hash.clone(),
        }
    }
}

/// The hashes of the tasks that are tracked.
#[derive(Debug)]
pub struct FileHashes(pub AssocMap<TaskId, String>);

impl Clone for FileHashes {
    fn clone(&self) -> (copy: Self)
        ensures
            copy.0@ == self.0@,
    {
        FileHashes(self.0.copy())
    }
}

/// Why tasks could not be tracked.
#[derive(Debug)]
pub enum TrackError {
    /// The request could not be sent.
    Send,
    /// No hashes came back.
    Recv,
}

/// What came of a request to track tasks.
#[derive(Debug)]
pub enum Tracking {
    /// Nobody took the request.
    NotSent,
    /// The request was taken, but the hashes will not change any more.
    NoChange,
    /// These are the latest hashes.
    Changed(FileHashes),
}

/// Watches the files of the repository at `repo_root`, whose packages the
/// `package_watcher` knows.
#[derive(Debug)]
pub struct PackageHashWatcher<R, W> {
    pub repo_root: R,
    pub package_watcher: W,
}

/// The tasks in a list of nodes.
pub open spec fn tasks_among(nodes: Seq<TaskNodeView>) -> Set<(Seq<char>, Seq<char>)> {
    Set::new(|task: (Seq<char>, Seq<char>)| nodes.contains(TaskNodeView::Task(task)))
}

/// The hashes of those of the tasks that have one.
fn select_hashes(tasks: &Vec<TaskNode>, hashes: &AssocMap<TaskId, String>) -> (selected: AssocMap<
    TaskId,
    String,
>)
    ensures
        selected@ == hashes@.restrict(tasks_among(task_nodes(tasks@))),
{
    let ghost nodes = task_nodes(tasks@);
    let mut selected: AssocMap<TaskId, String> = AssocMap::new();
    let mut i: usize = 0;
    assert(selected@ =~= hashes@.restrict(tasks_among(nodes.take(0))));
    while i < tasks.len()
        invariant
            i <= tasks@.len(),
            nodes == task_nodes(tasks@),
            selected@ == hashes@.restrict(tasks_among(nodes.take(i as int))),
        decreases tasks@.len() - i,
    {
        let ghost seen = nodes.take(i as int);
        let ghost node = nodes[i as int];
        assert(nodes.take(i + 1) =~= seen.push(node));
        assert forall|n: TaskNodeView| #[trigger] seen.push(node).contains(n) <==> seen.contains(n)
            || n == node by {
            assert(seen.push(node)[seen.len() as int] == node);
            if seen.contains(n) {
                let k = choose|k: int| 0 <= k < seen.len() && seen[k] == n;
                assert(seen.push(node)[k] == n);
            }
        }
        match &tasks[i] {
            TaskNode::Root => {},
            TaskNode::Task(task) => {
                match hashes.get(task) {
                    Some(hash) => {
                        selected.insert(task.copy_key(), hash.clone());
                    },
                    None => {},
                }
            },
        }
        assert(selected@ =~= hashes@.restrict(tasks_among(seen.push(node))));
        i += 1;
    }
    assert(nodes.take(tasks@.len() as int) =~= nodes);
    selected
}

impl<R, W> PackageHashWatcher<R, W> {
    pub fn new(repo_root: R, package_watcher: W) -> (watcher: Self)
        ensures
            watcher.repo_root == repo_root,
            watcher.package_watcher == package_watcher,
    {
        PackageHashWatcher { repo_root, package_watcher }
    }

    /// The answer to a request to track tasks: the latest known hashes of the
    /// tasks. The hashes of single files are not known here.
    pub fn track(&self, tasks: &Vec<TaskNode>, tracking: Tracking) -> (hashes: Result<
        PackageInputsHashes,
        TrackError,
    >)
        ensures
            match tracking {
                Tracking::NotSent => hashes == Err::<PackageInputsHashes, TrackError>(
                    TrackError::Send,
                ),
                Tracking::NoChange => hashes == Err::<PackageInputsHashes, TrackError>(
                    TrackError::Recv,
                ),
                Tracking::Changed(latest) => hashes matches Ok(hashes) && hashes@ == (
                PackageInputsHashesView {
                    hashes: latest.0@.restrict(tasks_among(task_nodes(tasks@))),
                    expanded_hashes: Map::empty(),
                }),
            },
    {
        match tracking {
            Tracking::NotSent => Err(TrackError::Send),
            Tracking::NoChange => Err(TrackError::Recv),
            Tracking::Changed(latest) => {
                let mut hashes = PackageInputsHashes::default();
                hashes.hashes = select_hashes(tasks, &latest.0);
                Ok(hashes)
            },
        }
    }
}

/// The name of a package.
#[derive(Debug)]
pub enum PackageName {
    /// The package at the root of the repository.
    Root,
    Other(String),
}

/// What the name of a package is.
pub enum PackageNameView {
    Root,
    Other(Seq<char>),
}

impl View for PackageName {
    type V = PackageNameView;

    open spec fn view(&self) -> PackageNameView {
        match self {
            PackageName::Root => PackageNameView::Root,
            PackageName::Other(name) => PackageNameView::Other(name@),
        }
    }
}

impl MapKey for PackageName {
    fn same_key(&self, other: &Self) -> (same: bool) {
        match (self, other) {
            (PackageName::Root, PackageName::Root) => true,
            (PackageName::Other(a), PackageName::Other(b)) => *a == *b,
            _ => false,
        }
    }

    fn copy_key(&self) -> (copy: Self) {
        match self {
            PackageName::Root => PackageName::Root,
            PackageName::Other(name) => PackageName::Other(name.clone()),
        }
    }
}

/// Where a package is described. The path is the list of its components, below the
/// root of the repository.
#[derive(Debug)]
pub struct WorkspaceData {
    pub package_json: Vec<String>,
}

/// What is known of a package.
pub struct WorkspaceDataView {
    pub package_json: Seq<Seq<char>>,
}

impl View for WorkspaceData {
    type V = WorkspaceDataView;

    open spec fn view(&self) -> WorkspaceDataView {
        WorkspaceDataView { package_json: self.package_json.deep_view() }
    }
}

/// The path of what holds that which the path is of, if the path has a component.
pub open spec fn parent(path: Seq<Seq<char>>) -> Option<Seq<Seq<char>>> {
    if path.len() == 0 {
        None
    } else {
        Some(path.drop_last())
    }
}

/// The first `n` components of a path.
fn first_components(path: &Vec<String>, n: usize) -> (first: Vec<String>)
    requires
        n <= path@.len(),
    ensures
        first.deep_view() == path.deep_view().take(n as int),
{
    let mut first: Vec<String> = Vec::new();
    let mut i: usize = 0;
    while i < n
        invariant
            i <= n <= path@.len(),
            first.deep_view() == path.deep_view().take(i as int),
        decreases n - i,
    {
        let ghost before = first.deep_view();
        first.push(path[i].clone());
        assert(first.deep_view() =~= before.push(path@[i as int]@));
        assert(path.deep_view().take(i + 1) =~= before.push(path@[i as int]@));
        i += 1;
    }
    first
}

/// Finds packages by name.
#[derive(Debug)]
pub struct WorkspaceLookup(pub AssocMap<PackageName, WorkspaceData>);

impl WorkspaceLookup {
    /// The path of the description of a package.
    pub fn package_json(&self, workspace: &PackageName) -> (path: Option<Vec<String>>)
        ensures
            match path {
                Some(path) => self.0@.contains_key(workspace@) && self.0@[workspace@].package_json
                    == path.deep_view(),
                None => !self.0@.contains_key(workspace@),
            },
    {
        match self.0.get(workspace) {
            Some(data) => {
                let path = first_components(&data.package_json, data.package_json.len());
                assert(path.deep_view() =~= data.package_json.deep_view());
                Some(path)
            },
            None => None,
        }
    }

    /// The directory of a package, which holds its description.
    pub fn package_dir(&self, workspace: &PackageName) -> (directory: Option<Vec<String>>)
        ensures
            match directory {
                Some(directory) => self.0@.contains_key(workspace@) && parent(
                    self.0@[workspace@].package_json,
                ) == Some(directory.deep_view()),
                None => self.0@.contains_key(workspace@) ==> parent(
                    self.0@[workspace@].package_json,
                ) is None,
            },
    {
        match self.0.get(workspace) {
            Some(data) => {
                let path = &data.package_json;
                if path.len() == 0 {
                    None
                } else {
                    let directory = first_components(path, path.len() - 1);
                    assert(directory.deep_view() =~= path.deep_view().drop_last());
                    Some(directory)
                }
            },
            None => None,
        }
    }
}

/// A task whose hash is not what it was.
#[derive(Debug)]
pub struct HashChange {
    pub task: TaskId,
    pub from: String,
    pub to: String,
}

/// Whether `change` is one from `before` to `after`.
pub open spec fn is_change(
    before: Map<(Seq<char>, Seq<char>), Seq<char>>,
    after: Map<(Seq<char>, Seq<char>), Seq<char>>,
    change: HashChange,
) -> bool {
    &&& before.contains_key(change.task@)
    &&& after.contains_key(change.task@)
    &&& before[change.task@] == change.from@
    &&& after[change.task@] == change.to@
    &&& change.from@ != change.to@
}

/// Whether these are all the changes from `before` to `after`, each task once.
pub open spec fn are_changes(
    before: Map<(Seq<char>, Seq<char>), Seq<char>>,
    after: Map<(Seq<char>, Seq<char>), Seq<char>>,
    changes: Seq<HashChange>,
) -> bool {
    &&& forall|i: int|
        0 <= i < changes.len() ==> is_change(before, after, #[trigger] changes[i])
    &&& forall|task: (Seq<char>, Seq<char>)|
        before.contains_key(task) && after.contains_key(task) && before[task] != after[task]
            ==> exists|i: int| 0 <= i < changes.len() && (#[trigger] changes[i]).task@ == task
    &&& forall|i: int, j: int|
        0 <= i < j < changes.len() ==> (#[trigger] changes[i]).task@ != (
        #[trigger] changes[j]).task@
}

/// The first `n` tasks of a list.
spec fn first_tasks(tasks: Seq<TaskId>, n: int) -> Set<(Seq<char>, Seq<char>)> {
    Set::new(
        |task: (Seq<char>, Seq<char>)|
            exists|k: int| 0 <= k < n && #[trigger] tasks[k]@ == task,
    )
}

/// Takes in the hashes of tasks, and tells which tasks had another hash. There
/// should be none where no file of a task changed.
pub fn record_hashes(
    task_hashes: &mut AssocMap<TaskId, String>,
    hashes: &AssocMap<TaskId, String>,
) -> (changes: Vec<HashChange>)
    ensures
        final(task_hashes)@ == old(task_hashes)@.union_prefer_right(hashes@),
        are_changes(old(task_hashes)@, hashes@, changes@),
{
    let tasks = hashes.keys();
    let ghost before = task_hashes@;
    let mut changes: Vec<HashChange> = Vec::new();
    let mut i: usize = 0;
    assert(task_hashes@ =~= before.union_prefer_right(hashes@.restrict(first_tasks(tasks@, 0))));
    while i < tasks.len()
        invariant
            i <= tasks@.len(),
            forall|k: int| 0 <= k < tasks@.len() ==> hashes@.contains_key(#[trigger] tasks@[k]@),
            forall|j: int, k: int| 0 <= j < k < tasks@.len() ==> tasks@[j]@ != tasks@[k]@,
            task_hashes@ == before.union_prefer_right(
                hashes@.restrict(first_tasks(tasks@, i as int)),
            ),
            forall|j: int|
                0 <= j < changes@.len() ==> is_change(before, hashes@, #[trigger] changes@[j])
                    && first_tasks(tasks@, i as int).contains(changes@[j].task@),
            forall|k: int|
                0 <= k < i && before.contains_key(#[trigger] tasks@[k]@) && before[tasks@[k]@]
                    != hashes@[tasks@[k]@] ==> exists|j: int|
                    0 <= j < changes@.len() && (#[trigger] changes@[j]).task@ == tasks@[k]@,
            forall|j: int, k: int|
                0 <= j < k < changes@.len() ==> (#[trigger] changes@[j]).task@ != (
                #[trigger] changes@[k]).task@,
        decreases tasks@.len() - i,
    {
        let ghost task = tasks@[i as int]@;
        let ghost changes_before = changes@;
        assert(!first_tasks(tasks@, i as int).contains(task));
        match hashes.get(&tasks[i]) {
            Some(hash) => {
                match task_hashes.insert(tasks[i].copy_key(), hash.clone()) {
                    Some(existing) => {
                        if existing != *hash {
                            changes.push(
                                HashChange {
                                    task: tasks[i].copy_key(),
                                    from: existing,
                                    to: hash.clone(),
                                },
                            );
                        }
                    },
                    None => {},
                }
            },
            None => {},
        }
        proof {
            assert(first_tasks(tasks@, i + 1) =~= first_tasks(tasks@, i as int).insert(task)) by {
                assert(tasks@[i as int]@ == task);
            }
            assert(task_hashes@ =~= before.union_prefer_right(
                hashes@.restrict(first_tasks(tasks@, i + 1)),
            ));
            assert forall|j: int| 0 <= j < changes@.len() implies is_change(
                before,
                hashes@,
                #[trigger] changes@[j],
            ) && first_tasks(tasks@, i + 1).contains(changes@[j].task@) by {
                if j < changes_before.len() {
                    assert(changes@[j] == changes_before[j]);
                }
            }
            assert forall|k: int|
                0 <= k < i + 1 && before.contains_key(#[trigger] tasks@[k]@) && before[tasks@[k]@]
                    != hashes@[tasks@[k]@] implies exists|j: int|
                0 <= j < changes@.len() && (#[trigger] changes@[j]).task@ == tasks@[k]@ by {
                if k < i {
                    let j = choose|j: int|
                        0 <= j < changes_before.len() && (#[trigger] changes_before[j]).task@
                            == tasks@[k]@;
                    assert(changes@[j] == changes_before[j]);
                } else {
                    assert(changes@[changes_before.len() as int].task@ == task);
                }
            }
        }
        i += 1;
    }
    proof {
        assert(hashes@.restrict(first_tasks(tasks@, tasks@.len() as int)) =~= hashes@);
        assert forall|task: (Seq<char>, Seq<char>)|
            before.contains_key(task) && hashes@.contains_key(task) && before[task]
                != hashes@[task] implies exists|i: int|
            0 <= i < changes@.len() && (#[trigger] changes@[i]).task@ == task by {
            let k = choose|k: int| 0 <= k < tasks@.len() && #[trigger] tasks@[k]@ == task;
            assert(before.contains_key(tasks@[k]@));
        }
    }
    changes
}

/// What the updates in a list say.
pub open spec fn update_views(updates: Seq<HashUpdate>) -> Seq<HashUpdateView> {
    updates.map_values(|update: HashUpdate| update@)
}

/// Whether a task has a hash in `after` that it does not have in `before`.
pub open spec fn has_new_hash(
    before: Map<(Seq<char>, Seq<char>), Seq<char>>,
    after: Map<(Seq<char>, Seq<char>), Seq<char>>,
    task: (Seq<char>, Seq<char>),
) -> bool {
    after.contains_key(task) && !(before.contains_key(task) && before[task] == after[task])
}

/// Whether there is one update for each task that has a new hash, with that hash,
/// and no other.
pub open spec fn are_updates(
    before: Map<(Seq<char>, Seq<char>), Seq<char>>,
    after: Map<(Seq<char>, Seq<char>), Seq<char>>,
    updates: Seq<HashUpdateView>,
) -> bool {
    &&& forall|i: int|
        0 <= i < updates.len() ==> has_new_hash(before, after, (#[trigger] updates[i]).task)
            && after[updates[i].task] == updates[i].hash
    &&& forall|task: (Seq<char>, Seq<char>)| #[trigger]
        has_new_hash(before, after, task) ==> exists|i: int|
            0 <= i < updates.len() && (#[trigger] updates[i]).task == task
    &&& forall|i: int, j: int|
        0 <= i < j < updates.len() ==> (#[trigger] updates[i]).task != (
        #[trigger] updates[j]).task
}

/// The updates that tell those who know the hashes `before` of the hashes `after`.
pub fn updates_between(
    before: &AssocMap<TaskId, String>,
    after: &AssocMap<TaskId, String>,
) -> (updates: Vec<HashUpdate>)
    ensures
        are_updates(before@, after@, update_views(updates@)),
{
    let tasks = after.keys();
    let mut updates: Vec<HashUpdate> = Vec::new();
    let mut i: usize = 0;
    while i < tasks.len()
        invariant
            i <= tasks@.len(),
            forall|k: int| 0 <= k < tasks@.len() ==> after@.contains_key(#[trigger] tasks@[k]@),
            forall|j: int, k: int| 0 <= j < k < tasks@.len() ==> tasks@[j]@ != tasks@[k]@,
            forall|j: int|
                0 <= j < updates@.len() ==> has_new_hash(
                    before@,
                    after@,
                    (#[trigger] updates@[j])@.task,
                ) && after@[updates@[j]@.task] == updates@[j]@.hash && first_tasks(
                    tasks@,
                    i as int,
                ).contains(updates@[j]@.task),
            forall|k: int|
                0 <= k < i && has_new_hash(before@, after@, #[trigger] tasks@[k]@) ==> exists|
                    j: int,
                | 0 <= j < updates@.len() && (#[trigger] updates@[j])@.task == tasks@[k]@,
            forall|j: int, k: int|
                0 <= j < k < updates@.len() ==> (#[trigger] updates@[j])@.task != (
                #[trigger] updates@[k])@.task,
        decreases tasks@.len() - i,
    {
        let ghost task = tasks@[i as int]@;
        let ghost sofar = updates@;
        assert(!first_tasks(tasks@, i as int).contains(task));
        match after.get(&tasks[i]) {
            Some(hash) => {
                let known = match before.get(&tasks[i]) {
                    Some(existing) => *existing == *hash,
                    None => false,
                };
                assert(known == !has_new_hash(before@, after@, task));
                if !known {
                    let id = tasks[i].copy_key();
                    updates.push(
                        HashUpdate { package: id.package, task: id.task, hash: hash.clone() },
                    );
                    assert(updates@[sofar.len() as int]@ == HashUpdateView {
                        task,
                        hash: after@[task],
                    });
                }
            },
            None => {},
        }
        proof {
            assert(first_tasks(tasks@, i + 1) =~= first_tasks(tasks@, i as int).insert(task)) by {
                assert(tasks@[i as int]@ == task);
            }
            assert forall|j: int| 0 <= j < updates@.len() implies has_new_hash(
                before@,
                after@,
                (#[trigger] updates@[j])@.task,
            ) && after@[updates@[j]@.task] == updates@[j]@.hash && first_tasks(
                tasks@,
                i + 1,
            ).contains(updates@[j]@.task) by {
                if j < sofar.len() {
                    assert(updates@[j] == sofar[j]);
                }
            }
            assert forall|k: int|
                0 <= k < i + 1 && has_new_hash(before@, after@, #[trigger] tasks@[k]@) implies
                exists|j: int|
                    0 <= j < updates@.len() && (#[trigger] updates@[j])@.task == tasks@[k]@ by {
                if k < i {
                    let j = choose|j: int|
                        0 <= j < sofar.len() && (#[trigger] sofar[j])@.task == tasks@[k]@;
                    assert(updates@[j] == sofar[j]);
                }
            }
            assert forall|j: int, k: int| 0 <= j < k < updates@.len() implies (
            #[trigger] updates@[j])@.task != (#[trigger] updates@[k])@.task by {
                assert(updates@[j] == sofar[j]);
                if k < sofar.len() {
                    assert(updates@[k] == sofar[k]);
                }
            }
        }
        i += 1;
    }
    proof {
        let views = update_views(updates@);
        assert forall|i: int| 0 <= i < views.len() implies has_new_hash(
            before@,
            after@,
            (#[trigger] views[i]).task,
        ) && after@[views[i].task] == views[i].hash by {
            assert(views[i] == updates@[i]@);
        }
        assert forall|task: (Seq<char>, Seq<char>)| #[trigger]
            has_new_hash(before@, after@, task) implies exists|i: int|
            0 <= i < views.len() && (#[trigger] views[i]).task == task by {
            let k = choose|k: int| 0 <= k < tasks@.len() && #[trigger] tasks@[k]@ == task;
            let j = choose|j: int|
                0 <= j < updates@.len() && (#[trigger] updates@[j])@.task == tasks@[k]@;
            assert(views[j] == updates@[j]@);
        }
        assert forall|i: int, j: int| 0 <= i < j < views.len() implies (
        #[trigger] views[i]).task != (#[trigger] views[j]).task by {
            assert(views[i] == updates@[i]@);
            assert(views[j] == updates@[j]@);
        }
    }
    updates
}

/// Whoever follows the updates knows the hashes: a new hash of a task is sent, with
/// the names of the package and the task, and where none is sent the hashes are what
/// they were.
pub proof fn new_hashes_are_sent(
    before: Map<(Seq<char>, Seq<char>), Seq<char>>,
    hashes: Map<(Seq<char>, Seq<char>), Seq<char>>,
    updates: Seq<HashUpdateView>,
)
    requires
        are_updates(before, before.union_prefer_right(hashes), updates),
    ensures
        forall|task: (Seq<char>, Seq<char>)| #[trigger]
            has_new_hash(before, hashes, task) ==> updates.contains(
                HashUpdateView { task, hash: hashes[task] },
            ),
        updates.len() == 0 ==> before.union_prefer_right(hashes) == before,
{
    let after = before.union_prefer_right(hashes);
    assert forall|task: (Seq<char>, Seq<char>)| #[trigger]
        has_new_hash(before, hashes, task) implies updates.contains(
        HashUpdateView { task, hash: hashes[task] },
    ) by {
        assert(has_new_hash(before, after, task));
        let i = choose|i: int| 0 <= i < updates.len() && (#[trigger] updates[i]).task == task;
        assert(updates[i] == HashUpdateView { task, hash: hashes[task] });
    }
    if updates.len() == 0 {
        assert forall|task: (Seq<char>, Seq<char>)| #[trigger]
            after.dom().contains(task) implies before.dom().contains(task) && before[task]
            == after[task] by {
            assert(!has_new_hash(before, after, task));
        }
        assert(after.dom() =~= before.dom());
        assert(after =~= before);
    }
}

/// Hashes that were taken in already are no change.
pub proof fn recorded_hashes_are_no_change(
    task_hashes: Map<(Seq<char>, Seq<char>), Seq<char>>,
    hashes: Map<(Seq<char>, Seq<char>), Seq<char>>,
    changes: Seq<HashChange>,
)
    requires
        are_changes(task_hashes.union_prefer_right(hashes), hashes, changes),
    ensures
        changes.len() == 0,
        task_hashes.union_prefer_right(hashes).union_prefer_right(hashes)
            == task_hashes.union_prefer_right(hashes),
{
    if changes.len() > 0 {
        assert(is_change(task_hashes.union_prefer_right(hashes), hashes, changes[0]));
    }
    assert(task_hashes.union_prefer_right(hashes).union_prefer_right(hashes)
        =~= task_hashes.union_prefer_right(hashes));
}

/// What those who want hashes ask of the watcher.
#[derive(Debug)]
pub enum SubscriberCommand {
    /// Track the given tasks.
    Update(Vec<TaskNode>),
}

/// What the watcher is to do next.
#[derive(Debug)]
pub enum WatchAction {
    /// Wait for a file event, a command, or hashes that were recalculated.
    AwaitIncoming,
    /// Deal with a file event.
    HandleEvent(FileEvent),
    /// Look up the hasher, to hash these tasks.
    FetchHasher(Vec<TaskNode>),
    /// Hash these tasks.
    CalculateHashes(Vec<TaskNode>),
    /// Send out these updates.
    SendUpdates(Vec<HashUpdate>),
    /// There is nothing left to watch.
    Stop,
}

/// What came of an action of the watcher.
#[derive(Debug)]
pub enum WatchReport {
    /// A file event came in.
    Event(FileEvent),
    /// There are no more file events, or some were lost.
    EventsLost,
    /// A command came in.
    Command(SubscriberCommand),
    /// There are no more commands.
    CommandsClosed,
    /// The list of packages or a root file changed, and tasks have these hashes now.
    Recalculated(AssocMap<TaskId, String>),
    /// The file event has been dealt with.
    Handled,
    /// Whether there is a hasher.
    Available(bool),
    /// The hashes of the tasks.
    Hashed(PackageInputsHashes),
    /// The updates have been sent.
    Sent,
}

/// Whether an action can have come to this.
pub open spec fn watch_answers(action: WatchAction, report: WatchReport) -> bool {
    match action {
        WatchAction::AwaitIncoming => report is Event || report is EventsLost || report is Command
            || report is CommandsClosed || report is Recalculated,
        WatchAction::HandleEvent(_) => report is Handled,
        WatchAction::FetchHasher(_) => report is Available,
        WatchAction::CalculateHashes(_) => report is Hashed,
        WatchAction::SendUpdates(_) => report is Sent,
        WatchAction::Stop => false,
    }
}

/// The hashes that an action brought, if it came to any.
pub open spec fn hashes_brought(report: WatchReport) -> Map<(Seq<char>, Seq<char>), Seq<char>> {
    match report {
        WatchReport::Hashed(hashes) => hashes@.hashes,
        WatchReport::Recalculated(hashes) => hashes@,
        _ => Map::empty(),
    }
}

/// Whether `next` is what is to be done after `action` came to `report`, where the
/// hashes were `task_hashes` before.
pub open spec fn watch_follows(
    task_hashes: Map<(Seq<char>, Seq<char>), Seq<char>>,
    action: WatchAction,
    report: WatchReport,
    next: WatchAction,
) -> bool {
    match (action, report) {
        (WatchAction::AwaitIncoming, WatchReport::Event(event)) => next
            == WatchAction::HandleEvent(event),
        (WatchAction::AwaitIncoming, WatchReport::Command(SubscriberCommand::Update(tasks))) => next
            == WatchAction::FetchHasher(tasks),
        (WatchAction::AwaitIncoming, WatchReport::Recalculated(_)) => sends_new_hashes(
            task_hashes,
            report,
            next,
        ),
        (WatchAction::HandleEvent(_), _) => next is AwaitIncoming,
        (WatchAction::FetchHasher(tasks), WatchReport::Available(true)) => next
            == WatchAction::CalculateHashes(tasks),
        (WatchAction::CalculateHashes(_), _) => next is AwaitIncoming,
        (WatchAction::SendUpdates(_), _) => next is AwaitIncoming,
        _ => next is Stop,
    }
}

/// Whether `next` is to send the updates on the hashes that were brought.
pub open spec fn sends_new_hashes(
    task_hashes: Map<(Seq<char>, Seq<char>), Seq<char>>,
    report: WatchReport,
    next: WatchAction,
) -> bool {
    next matches WatchAction::SendUpdates(updates) && are_updates(
        task_hashes,
        task_hashes.union_prefer_right(hashes_brought(report)),
        update_views(updates@),
    )
}

/// Takes in hashes of tasks, and gives the updates on them, and those tasks that had
/// another hash.
fn take_in(
    task_hashes: &mut AssocMap<TaskId, String>,
    hashes: &AssocMap<TaskId, String>,
) -> (told: (Vec<HashUpdate>, Vec<HashChange>))
    ensures
        final(task_hashes)@ == old(task_hashes)@.union_prefer_right(hashes@),
        are_updates(
            old(task_hashes)@,
            old(task_hashes)@.union_prefer_right(hashes@),
            update_views(told.0@),
        ),
        are_changes(old(task_hashes)@, hashes@, told.1@),
{
    let before = task_hashes.copy();
    let changes = record_hashes(task_hashes, hashes);
    let updates = updates_between(&before, task_hashes);
    (updates, changes)
}

/// Says what the watcher is to do after `action` came to `report`, takes in the
/// hashes that it brought, and tells which tasks had another hash.
///
/// If the list of packages changes, or the contents of a package, the hashes are
/// recalculated, and what is new is sent out. The hashes of the tasks of a command are
/// taken in, and not sent: nothing changed.
pub fn watch_files(
    action: WatchAction,
    report: WatchReport,
    task_hashes: &mut AssocMap<TaskId, String>,
) -> (next: (WatchAction, Vec<HashChange>))
    requires
        watch_answers(action, report),
    ensures
        watch_follows(old(task_hashes)@, action, report, next.0),
        final(task_hashes)@ == old(task_hashes)@.union_prefer_right(hashes_brought(report)),
        are_changes(old(task_hashes)@, hashes_brought(report), next.1@),
{
    assert(old(task_hashes)@.union_prefer_right(Map::empty()) =~= old(task_hashes)@);
    match (action, report) {
        (WatchAction::AwaitIncoming, WatchReport::Recalculated(hashes)) => {
            let (updates, changes) = take_in(task_hashes, &hashes);
            (WatchAction::SendUpdates(updates), changes)
        },
        (WatchAction::CalculateHashes(_), WatchReport::Hashed(hashes)) => {
            let changes = record_hashes(task_hashes, &hashes.hashes);
            (WatchAction::AwaitIncoming, changes)
        },
        (WatchAction::AwaitIncoming, WatchReport::Event(event)) => (
            WatchAction::HandleEvent(event),
            Vec::new(),
        ),
        (WatchAction::AwaitIncoming, WatchReport::Command(SubscriberCommand::Update(tasks))) => (
            WatchAction::FetchHasher(tasks),
            Vec::new(),
        ),
        (WatchAction::HandleEvent(_), _) => (WatchAction::AwaitIncoming, Vec::new()),
        (WatchAction::FetchHasher(tasks), WatchReport::Available(true)) => (
            WatchAction::CalculateHashes(tasks),
            Vec::new(),
        ),
        (WatchAction::SendUpdates(_), _) => (WatchAction::AwaitIncoming, Vec::new()),
        _ => (WatchAction::Stop, Vec::new()),
    }
}

/// Whom the hashes of the tasks are published to.
#[derive(Clone, Copy, Debug, PartialEq, Eq, Structural)]
pub struct Audience {
    /// What keeps the hasher up to date, and with it the hashes.
    pub hasher: bool,
    /// Those who asked for hashes.
    pub askers: bool,
}

/// Whom the hashes are published to once an action came to `report`. Those who asked
/// are told whenever the hashes can be others than before. What keeps the hasher up to
/// date need not be told of what it recalculated itself.
pub open spec fn audience_after(report: WatchReport) -> Audience {
    Audience {
        hasher: report is Handled || report is Hashed,
        askers: report is Handled || report is Hashed || report is Recalculated,
    }
}

/// Whom the hashes are published to once an action came to `report`.
pub fn audience(report: &WatchReport) -> (audience: Audience)
    ensures
        audience == audience_after(*report),
{
    match report {
        WatchReport::Handled | WatchReport::Hashed(_) => Audience { hasher: true, askers: true },
        WatchReport::Recalculated(_) => Audience { hasher: false, askers: true },
        _ => Audience { hasher: false, askers: false },
    }
}

/// Those who asked for hashes are told of all that the watcher takes in, and of what a
/// file event can have changed.
pub proof fn askers_miss_nothing(
    task_hashes: Map<(Seq<char>, Seq<char>), Seq<char>>,
    report: WatchReport,
)
    requires
        report is Handled || task_hashes.union_prefer_right(hashes_brought(report)) != task_hashes,
    ensures
        audience_after(report).askers,
{
    assert(task_hashes.union_prefer_right(Map::empty()) =~= task_hashes);
}

/// The watcher goes on until there are no more file events or commands, or there
/// is no hasher for a command.
pub proof fn when_watching_ends(
    task_hashes: Map<(Seq<char>, Seq<char>), Seq<char>>,
    action: WatchAction,
    report: WatchReport,
    next: WatchAction,
)
    requires
        watch_answers(action, report),
        watch_follows(task_hashes, action, report, next),
    ensures
        next is Stop <==> (report is EventsLost || report is CommandsClosed || report
            == WatchReport::Available(false)),
{
}

/// Where hashes were recalculated, and a task has a new one, what is done next is to
/// send it out.
pub proof fn recalculated_hashes_are_sent(
    task_hashes: Map<(Seq<char>, Seq<char>), Seq<char>>,
    action: WatchAction,
    report: WatchReport,
    next: WatchAction,
    task: (Seq<char>, Seq<char>),
)
    requires
        watch_answers(action, report),
        watch_follows(task_hashes, action, report, next),
        report is Recalculated,
        has_new_hash(task_hashes, hashes_brought(report), task),
    ensures
        next matches WatchAction::SendUpdates(updates) && update_views(updates@).contains(
            HashUpdateView { task, hash: hashes_brought(report)[task] },
        ),
{
    if let WatchAction::SendUpdates(updates) = next {
        new_hashes_are_sent(task_hashes, hashes_brought(report), update_views(updates@));
    }
}

/// When a command comes in and the hasher is there, the tasks that are hashed are those
/// of the command: each of them, in their order, and no others.
pub proof fn all_tasks_of_a_command_are_hashed(
    tasks: Vec<TaskNode>,
    held: &mut AssocMap<TaskId, String>,
    first: (WatchAction, Vec<HashChange>),
    second: (WatchAction, Vec<HashChange>),
)
    requires
        call_ensures(
            watch_files,
            (
                WatchAction::AwaitIncoming,
                WatchReport::Command(SubscriberCommand::Update(tasks)),
                held,
            ),
            first,
        ),
        call_ensures(watch_files, (first.0, WatchReport::Available(true), held), second),
    ensures
        second.0 matches WatchAction::CalculateHashes(hashed) && hashed@.len() == tasks@.len() && (
        forall|i: int| 0 <= i < tasks@.len() ==> #[trigger] hashed@[i] == tasks@[i]),
{
}

/// A file event that comes in is dealt with as it is, and whatever has been dealt with,
/// hashed or sent, what comes in next is waited for.
pub proof fn the_watcher_goes_on(
    action: WatchAction,
    report: WatchReport,
    held: &mut AssocMap<TaskId, String>,
    next: (WatchAction, Vec<HashChange>),
)
    requires
        watch_answers(action, report),
        call_ensures(watch_files, (action, report, held), next),
    ensures
        report matches WatchReport::Event(event) ==> next.0 == WatchAction::HandleEvent(event),
        report is Handled || report is Hashed || report is Sent ==> next.0 is AwaitIncoming,
        report is Recalculated ==> next.0 is SendUpdates,
        report is Command ==> next.0 is FetchHasher,
        report == WatchReport::Available(true) ==> next.0 is CalculateHashes,
        report is EventsLost || report is CommandsClosed || report == WatchReport::Available(false)
            ==> next.0 is Stop,
{
}

/// The hash of a task is the one that was brought last, and that of a task that none was
/// brought for is what it was. Where none are brought, nothing changes.
pub proof fn the_latest_hash_is_held(
    action: WatchAction,
    report: WatchReport,
    held: &mut AssocMap<TaskId, String>,
    next: (WatchAction, Vec<HashChange>),
    task: (Seq<char>, Seq<char>),
)
    requires
        watch_answers(action, report),
        call_ensures(watch_files, (action, report, held), next),
    ensures
        ({
            let brought = match report {
                WatchReport::Hashed(hashes) => hashes.hashes@,
                WatchReport::Recalculated(hashes) => hashes@,
                _ => Map::empty(),
            };
            if brought.contains_key(task) {
                final(held)@.contains_key(task) && final(held)@[task] == brought[task]
            } else {
                (final(held)@.contains_key(task) <==> old(held)@.contains_key(task)) && (
                old(held)@.contains_key(task) ==> final(held)@[task] == old(held)@[task])
            }
        }),
{
}

/// Those tasks are told of that had a hash and have another now: each once, with the
/// hash that it had and the one that it has.
pub proof fn tasks_with_another_hash_are_told_of(
    action: WatchAction,
    report: WatchReport,
    held: &mut AssocMap<TaskId, String>,
    next: (WatchAction, Vec<HashChange>),
    task: (Seq<char>, Seq<char>),
)
    requires
        watch_answers(action, report),
        call_ensures(watch_files, (action, report, held), next),
    ensures
        old(held)@.contains_key(task) && final(held)@.contains_key(task) && old(held)@[task]
            != final(held)@[task] ==> exists|n: int|
            0 <= n < next.1@.len() && (#[trigger] next.1@[n]).task@ == task,
        forall|n: int|
            0 <= n < next.1@.len() && (#[trigger] next.1@[n]).task@ == task ==> {
                &&& old(held)@.contains_key(task)
                &&& next.1@[n].from@ == old(held)@[task]
                &&& final(held)@.contains_key(task)
                &&& next.1@[n].to@ == final(held)@[task]
                &&& next.1@[n].from@ != next.1@[n].to@
            },
        forall|m: int, n: int|
            0 <= m < n < next.1@.len() ==> next.1@[m].task@ != next.1@[n].task@,
{
    assert forall|n: int| 0 <= n < next.1@.len() && (#[trigger] next.1@[n]).task@ == task implies {
        &&& old(held)@.contains_key(task)
        &&& next.1@[n].from@ == old(held)@[task]
        &&& final(held)@.contains_key(task)
        &&& next.1@[n].to@ == final(held)@[task]
        &&& next.1@[n].from@ != next.1@[n].to@
    } by {
        assert(is_change(old(held)@, hashes_brought(report), next.1@[n]));
    }
}

/// What is sent out once hashes were recalculated: one update for each task that has
/// another hash now, or has one for the first time, with that hash.
pub proof fn what_is_new_is_sent(
    hashes: AssocMap<TaskId, String>,
    held: &mut AssocMap<TaskId, String>,
    next: (WatchAction, Vec<HashChange>),
    task: (Seq<char>, Seq<char>),
)
    requires
        call_ensures(
            watch_files,
            (WatchAction::AwaitIncoming, WatchReport::Recalculated(hashes), held),
            next,
        ),
    ensures
        next.0 matches WatchAction::SendUpdates(updates) && {
            &&& forall|m: int, n: int|
                0 <= m < n < updates@.len() ==> !(#[trigger] updates@[m].package@
                    == #[trigger] updates@[n].package@ && updates@[m].task@ == updates@[n].task@)
            &&& forall|n: int|
                0 <= n < updates@.len() && (#[trigger] updates@[n]).package@ == task.0
                    && updates@[n].task@ == task.1 ==> final(held)@.contains_key(task)
                    && updates@[n].hash@ == final(held)@[task] && !(old(held)@.contains_key(task)
                    && old(held)@[task] == final(held)@[task])
            &&& hashes@.contains_key(task) && !(old(held)@.contains_key(task) && old(held)@[task]
                == hashes@[task]) ==> exists|n: int|
                0 <= n < updates@.len() && (#[trigger] updates@[n]).package@ == task.0
                    && updates@[n].task@ == task.1
        },
{
    if let WatchAction::SendUpdates(updates) = next.0 {
        let views = update_views(updates@);
        assert forall|n: int| 0 <= n < updates@.len() implies #[trigger] views[n]
            == updates@[n]@ by {}
        assert forall|m: int, n: int| 0 <= m < n < updates@.len() implies !(
        #[trigger] updates@[m].package@ == #[trigger] updates@[n].package@ && updates@[m].task@
            == updates@[n].task@) by {
            assert(views[m].task != views[n].task);
        }
        assert forall|n: int|
            0 <= n < updates@.len() && (#[trigger] updates@[n]).package@ == task.0
                && updates@[n].task@ == task.1 implies final(held)@.contains_key(task)
            && updates@[n].hash@ == final(held)@[task] && !(old(held)@.contains_key(task)
            && old(held)@[task] == final(held)@[task]) by {
            assert(has_new_hash(old(held)@, final(held)@, views[n].task));
        }
        if hashes@.contains_key(task) && !(old(held)@.contains_key(task) && old(held)@[task]
            == hashes@[task]) {
            assert(has_new_hash(old(held)@, final(held)@, task));
            let n = choose|n: int| 0 <= n < views.len() && (#[trigger] views[n]).task == task;
            assert(views[n] == updates@[n]@);
            assert(updates@[n].package@ == task.0);
        }
    }
}

/// Taking in the same hashes twice is taking them in once, and taking them in tells of
/// exactly those tasks that had another hash.
pub proof fn hashes_are_recorded(
    held: &mut AssocMap<TaskId, String>,
    hashes: &AssocMap<TaskId, String>,
    changes: Vec<HashChange>,
    task: (Seq<char>, Seq<char>),
)
    requires
        call_ensures(record_hashes, (held, hashes), changes),
    ensures
        hashes@.contains_key(task) ==> final(held)@.contains_key(task) && final(held)@[task]
            == hashes@[task],
        !hashes@.contains_key(task) ==> (final(held)@.contains_key(task) <==> old(
            held)@.contains_key(task)) && (old(held)@.contains_key(task) ==> final(held)@[task]
            == old(held)@[task]),
        (exists|n: int| 0 <= n < changes@.len() && (#[trigger] changes@[n]).task@ == task) <==> (
        hashes@.contains_key(task) && old(held)@.contains_key(task) && old(held)@[task]
            != hashes@[task]),
        forall|n: int|
            0 <= n < changes@.len() && (#[trigger] changes@[n]).task@ == task ==> changes@[n].from@
                == old(held)@[task] && changes@[n].to@ == hashes@[task],
        forall|m: int, n: int|
            0 <= m < n < changes@.len() ==> changes@[m].task@ != changes@[n].task@,
{
    assert forall|n: int|
        0 <= n < changes@.len() && (
        #[trigger] changes@[n]).task@ == task implies hashes@.contains_key(task) && old(held)@.contains_key(task) && old(held)@[task] != hashes@[task]
        && changes@[n].from@ == old(held)@[task] && changes@[n].to@ == hashes@[task] by {
        assert(is_change(old(held)@, hashes@, changes@[n]));
    }
}

/// Whoever knows the hashes as they were and takes in the updates knows them as they
/// are, but for tasks that have none any more.
pub proof fn updates_lead_from_one_to_the_other(
    before: &AssocMap<TaskId, String>,
    after: &AssocMap<TaskId, String>,
    updates: Vec<HashUpdate>,
    task: (Seq<char>, Seq<char>),
)
    requires
        call_ensures(updates_between, (before, after), updates),
    ensures
        (exists|n: int|
            0 <= n < updates@.len() && (#[trigger] updates@[n]).package@ == task.0
                && updates@[n].task@ == task.1) <==> (after@.contains_key(task) && !(
        before@.contains_key(task) && before@[task] == after@[task])),
        forall|n: int|
            0 <= n < updates@.len() && (#[trigger] updates@[n]).package@ == task.0
                && updates@[n].task@ == task.1 ==> updates@[n].hash@ == after@[task],
        forall|m: int, n: int|
            0 <= m < n < updates@.len() ==> !(#[trigger] updates@[m].package@
                == #[trigger] updates@[n].package@ && updates@[m].task@ == updates@[n].task@),
{
    let views = update_views(updates@);
    assert forall|n: int| 0 <= n < updates@.len() implies #[trigger] views[n] == updates@[n]@ by {}
    assert forall|m: int, n: int| 0 <= m < n < updates@.len() implies !(
    #[trigger] updates@[m].package@ == #[trigger] updates@[n].package@ && updates@[m].task@
        == updates@[n].task@) by {
        assert(views[m].task != views[n].task);
    }
    assert forall|n: int|
        0 <= n < updates@.len() && (#[trigger] updates@[n]).package@ == task.0
            && updates@[n].task@ == task.1 implies updates@[n].hash@ == after@[task]
        && after@.contains_key(task) && !(before@.contains_key(task) && before@[task]
        == after@[task]) by {
        assert(has_new_hash(before@, after@, views[n].task));
    }
    if after@.contains_key(task) && !(before@.contains_key(task) && before@[task] == after@[task]) {
        assert(has_new_hash(before@, after@, task));
        let n = choose|n: int| 0 <= n < views.len() && (#[trigger] views[n]).task == task;
        assert(views[n] == updates@[n]@);
        assert(updates@[n].package@ == task.0);
    }
}

/// Whoever asks for tasks gets the latest hash of each of them that has one, wherever in
/// the list it stands, and no others. A request that was not taken, or that no hashes
/// come back on, is an error.
pub proof fn asked_tasks_get_their_latest_hash<R, W>(
    watcher: &PackageHashWatcher<R, W>,
    tasks: &Vec<TaskNode>,
    tracking: Tracking,
    hashes: Result<PackageInputsHashes, TrackError>,
    task: (Seq<char>, Seq<char>),
)
    requires
        call_ensures(PackageHashWatcher::<R, W>::track, (watcher, tasks, tracking), hashes),
    ensures
        match tracking {
            Tracking::NotSent => hashes matches Err(error) && error is Send,
            Tracking::NoChange => hashes matches Err(error) && error is Recv,
            Tracking::Changed(latest) => hashes matches Ok(given) && {
                &&& given.hashes@.contains_key(task) <==> latest.0@.contains_key(task) && exists|
                    i: int,
                |
                    0 <= i < tasks@.len() && (#[trigger] tasks@[i])@ == TaskNodeView::Task(task)
                &&& given.hashes@.contains_key(task) ==> given.hashes@[task] == latest.0@[task]
                &&& !given.expanded_hashes@.contains_key(task)
            },
        },
{
    let nodes = task_nodes(tasks@);
    assert forall|i: int| 0 <= i < tasks@.len() implies #[trigger] nodes[i] == tasks@[i]@ by {}
    if nodes.contains(TaskNodeView::Task(task)) {
        let i = choose|i: int| 0 <= i < nodes.len() && nodes[i] == TaskNodeView::Task(task);
        assert(tasks@[i]@ == TaskNodeView::Task(task));
    }
    if exists|i: int|
        0 <= i < tasks@.len() && (#[trigger] tasks@[i])@ == TaskNodeView::Task(task) {
        let i = choose|i: int|
            0 <= i < tasks@.len() && (#[trigger] tasks@[i])@ == TaskNodeView::Task(task);
        assert(nodes[i] == TaskNodeView::Task(task));
    }
}

/// A package that is known is found, and its directory holds its description: what the
/// path of the description has beyond the directory is one component. A package that is
/// not known is not found.
pub proof fn a_package_is_where_its_description_is(
    lookup: &WorkspaceLookup,
    workspace: &PackageName,
    path: Option<Vec<String>>,
    directory: Option<Vec<String>>,
)
    requires
        call_ensures(WorkspaceLookup::package_json, (lookup, workspace), path),
        call_ensures(WorkspaceLookup::package_dir, (lookup, workspace), directory),
    ensures
        lookup.0@.contains_key(workspace@) <==> path is Some,
        path is None ==> directory is None,
        path matches Some(path) ==> {
            &&& path.deep_view() == lookup.0@[workspace@].package_json
            &&& path@.len() == 0 <==> directory is None
            &&& directory matches Some(directory) ==> {
                &&& directory@.len() + 1 == path@.len()
                &&& forall|i: int|
                    0 <= i < directory@.len() ==> (#[trigger] directory@[i])@ == path@[i]@
            }
        },
{
    if let Some(path) = path {
        let whole = path.deep_view();
        assert(whole.len() == path@.len());
        if let Some(directory) = directory {
            let part = directory.deep_view();
            assert(part == whole.drop_last());
            assert(part.len() == directory@.len());
            assert forall|i: int| 0 <= i < directory@.len() implies (#[trigger] directory@[i])@
                == path@[i]@ by {
                assert(part[i] == whole[i]);
            }
        }
    }
}

/// The hashes are published to those who asked for them whenever the watcher dealt with
/// a file event or took in hashes, and to what keeps the hasher up to date unless the
/// hashes came from there. At no other time are they published.
pub proof fn hashes_are_published_when_they_change(report: &WatchReport, told: Audience)
    requires
        call_ensures(audience, (report,), told),
    ensures
        match report {
            WatchReport::Handled | WatchReport::Hashed(_) => told.askers && told.hasher,
            WatchReport::Recalculated(_) => told.askers && !told.hasher,
            _ => !told.askers && !told.hasher,
        },
{
}

/// An update is copied with all that it says, a watcher keeps what it is made of, and
/// names, updates and paths are seen whole.
pub proof fn names_and_updates_are_seen_whole<R, W>(
    update: &HashUpdate,
    copy: HashUpdate,
    updates: Vec<HashUpdate>,
    name: String,
    data: WorkspaceData,
    repo_root: R,
    package_watcher: W,
    watcher: PackageHashWatcher<R, W>,
    hashes: &FileHashes,
    copied_hashes: FileHashes,
    i: int,
)
    requires
        call_ensures(HashUpdate::clone, (update,), copy),
        call_ensures(FileHashes::clone, (hashes,), copied_hashes),
        call_ensures(PackageHashWatcher::<R, W>::new, (repo_root, package_watcher), watcher),
    ensures
        copy.package@ == update.package@,
        copy.task@ == update.task@,
        copy.hash@ == update.hash@,
        update@.task == (update.package@, update.task@),
        update@.hash == update.hash@,
        update_views(updates@).len() == updates@.len(),
        0 <= i < updates@.len() ==> update_views(updates@)[i] == updates@[i]@,
        PackageName::Other(name)@ == PackageNameView::Other(name@),
        PackageName::Root@ == PackageNameView::Root,
        data@.package_json == data.package_json.deep_view(),
        watcher.repo_root == repo_root,
        watcher.package_watcher == package_watcher,
        copied_hashes.0@ == hashes.0@,
{
}

} // verus!
