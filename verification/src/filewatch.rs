//! Watches the files of the packages of a repository.
use crate::assoc::AssocMap;
use crate::package_hashes::file_event::{
    affected, affected_tasks, affects, lists, package_names, task_nodes, EventKind, PackageChanges,
    PackageChangesView,
};
use crate::package_hashes::package_hash_watcher::{
    are_updates, has_new_hash, new_hashes_are_sent, updates_between, HashUpdateView, PackageName,
    PackageNameView,
};
use crate::package_hashes::{TaskNode, TaskNodeView};
use crate::task_id::TaskId;
use vstd::prelude::*;

verus! {

/// Watches the files of the repository at `repo_root`, whose packages the
/// `package_watcher` knows.
#[derive(Debug)]
pub struct PackageHashWatcher<R, W> {
    pub repo_root: R,
    pub package_watcher: W,
}

/// A new hash of a task.
#[derive(Debug)]
pub struct HashUpdate {
    pub package: String,
    pub task: String,
    pub hash: String,
}

impl View for HashUpdate {
    type V = HashUpdateView;

    open spec fn view(&self) -> HashUpdateView {
        HashUpdateView { task: (self.package@, self.task@), hash: self.hash@ }
    }
}

/// What the updates in a list say.
pub open spec fn update_views(updates: Seq<HashUpdate>) -> Seq<HashUpdateView> {
    updates.map_values(|update: HashUpdate| update@)
}

/// The hashes of files, by path.
#[derive(Debug)]
pub struct FileHashes(pub AssocMap<String, String>);

impl Clone for FileHashes {
    fn clone(&self) -> (copy: Self)
        ensures
            copy.0@ == self.0@,
    {
        FileHashes(self.0.copy())
    }
}

impl<R, W> PackageHashWatcher<R, W> {
    pub fn new(repo_root: R, package_watcher: W) -> (watcher: Self)
        ensures
            watcher.repo_root == repo_root,
            watcher.package_watcher == package_watcher,
    {
        PackageHashWatcher { repo_root, package_watcher }
    }

    /// What those who subscribe are told when the hashes of the tasks are `after`
    /// and were `before`.
    pub fn subscribe(
        &self,
        before: &AssocMap<TaskId, String>,
        after: &AssocMap<TaskId, String>,
    ) -> (updates: Vec<HashUpdate>)
        ensures
            are_updates(before@, after@, update_views(updates@)),
    {
        let found = updates_between(before, after);
        let ghost views = crate::package_hashes::package_hash_watcher::update_views(found@);
        let mut updates: Vec<HashUpdate> = Vec::new();
        let mut i: usize = 0;
        while i < found.len()
            invariant
                i <= found@.len(),
                views == crate::package_hashes::package_hash_watcher::update_views(found@),
                update_views(updates@) == views.take(i as int),
            decreases found@.len() - i,
        {
            let ghost sofar = update_views(updates@);
            updates.push(
                HashUpdate {
                    package: found[i].package.clone(),
                    task: found[i].task.clone(),
                    hash: found[i].hash.clone(),
                },
            );
            assert(update_views(updates@) =~= sofar.push(views[i as int]));
            assert(views.take(i + 1) =~= sofar.push(views[i as int]));
            i += 1;
        }
        assert(views.take(found@.len() as int) =~= views);
        updates
    }
}

/// What the watcher is to do next about file events.
#[derive(Debug)]
pub enum EventAction {
    /// Wait for a file event, or for the tasks of a new list of packages.
    AwaitEvent,
    /// Wait for the package graph, and find the packages that the paths of the
    /// event belong to.
    MapChanges,
    /// Hash these tasks.
    CalculateHashes(Vec<TaskNode>),
    /// Send out these updates.
    SendUpdates(Vec<HashUpdate>),
    /// There is nothing left to watch.
    Stop,
}

/// What came of an action of the watcher.
#[derive(Debug)]
pub enum EventReport {
    /// A file event of this kind came in.
    Event(EventKind),
    /// There are no more file events, or some were lost.
    EventsLost,
    /// The list of packages changed, and these are the hashes of their tasks.
    Discovered(AssocMap<TaskId, String>),
    /// The packages that the paths belong to.
    Mapped(PackageChanges),
    /// The hashes of the tasks.
    Hashed(AssocMap<TaskId, String>),
    /// The updates have been sent.
    Sent,
}

/// Whether an action can have come to this.
pub open spec fn event_answers(action: EventAction, report: EventReport) -> bool {
    match action {
        EventAction::AwaitEvent => report is Event || report is EventsLost || report is Discovered,
        EventAction::MapChanges => report is Mapped,
        EventAction::CalculateHashes(_) => report is Hashed,
        EventAction::SendUpdates(_) => report is Sent,
        EventAction::Stop => false,
    }
}

/// The hashes that an action brought, if it came to any.
pub open spec fn event_hashes(report: EventReport) -> Map<(Seq<char>, Seq<char>), Seq<char>> {
    match report {
        EventReport::Discovered(hashes) => hashes@,
        EventReport::Hashed(hashes) => hashes@,
        _ => Map::empty(),
    }
}

/// Whether `next` is to send the updates on the hashes that were brought.
pub open spec fn tells_new_hashes(
    hashes: Map<(Seq<char>, Seq<char>), Seq<char>>,
    report: EventReport,
    next: EventAction,
) -> bool {
    next matches EventAction::SendUpdates(updates) && are_updates(
        hashes,
        hashes.union_prefer_right(event_hashes(report)),
        update_views(updates@),
    )
}

/// Whether `next` is what is to be done after `action` came to `report`, where the
/// hashes were `hashes` before.
pub open spec fn event_follows(
    hashes: Map<(Seq<char>, Seq<char>), Seq<char>>,
    action: EventAction,
    report: EventReport,
    next: EventAction,
) -> bool {
    match (action, report) {
        (EventAction::AwaitEvent, EventReport::Event(kind)) => if kind.spec_alters() {
            next is MapChanges
        } else {
            next is AwaitEvent
        },
        (EventAction::AwaitEvent, EventReport::Discovered(_)) => tells_new_hashes(
            hashes,
            report,
            next,
        ),
        (EventAction::MapChanges, EventReport::Mapped(changes)) => {
            next matches EventAction::CalculateHashes(tasks) && lists(
                task_nodes(tasks@),
                affected(hashes.dom(), changes@),
            )
        },
        (EventAction::CalculateHashes(_), _) => tells_new_hashes(hashes, report, next),
        (EventAction::SendUpdates(_), _) => next is AwaitEvent,
        _ => next is Stop,
    }
}

impl<R, W> PackageHashWatcher<R, W> {
    /// Takes in hashes of tasks, and gives the updates on them.
    fn keep(
        &self,
        hashes: &mut AssocMap<TaskId, String>,
        new: AssocMap<TaskId, String>,
    ) -> (updates: Vec<HashUpdate>)
        ensures
            final(hashes)@ == old(hashes)@.union_prefer_right(new@),
            are_updates(
                old(hashes)@,
                old(hashes)@.union_prefer_right(new@),
                update_views(updates@),
            ),
    {
        let before = hashes.copy();
        hashes.extend(new);
        self.subscribe(&before, hashes)
    }

    /// Listens to file events and keeps the hashes of the tasks: says what is to be
    /// done after `action` came to `report`, and takes in the hashes that it brought.
    /// After the updates on them the next event is waited for.
    pub fn watch(
        &self,
        action: EventAction,
        report: EventReport,
        hashes: &mut AssocMap<TaskId, String>,
    ) -> (next: EventAction)
        requires
            event_answers(action, report),
        ensures
            event_follows(old(hashes)@, action, report, next),
            final(hashes)@ == old(hashes)@.union_prefer_right(event_hashes(report)),
    {
        assert(old(hashes)@.union_prefer_right(Map::empty()) =~= old(hashes)@);
        match (action, report) {
            (EventAction::AwaitEvent, EventReport::Event(kind)) => if kind.alters() {
                EventAction::MapChanges
            } else {
                EventAction::AwaitEvent
            },
            (EventAction::AwaitEvent, EventReport::Discovered(new)) => EventAction::SendUpdates(
                self.keep(hashes, new),
            ),
            (EventAction::MapChanges, EventReport::Mapped(changes)) => EventAction::CalculateHashes(
                affected_tasks(hashes, &changes),
            ),
            (EventAction::CalculateHashes(_), EventReport::Hashed(new)) => EventAction::SendUpdates(
                self.keep(hashes, new),
            ),
            (EventAction::SendUpdates(_), _) => EventAction::AwaitEvent,
            _ => EventAction::Stop,
        }
    }
}

/// A file that is not what it was has the tasks of its packages hashed again, their
/// new hashes kept and sent out, and then the next event is waited for.
pub proof fn a_changed_file_is_told_of(
    hashes: Map<(Seq<char>, Seq<char>), Seq<char>>,
    kind: EventKind,
    changes: PackageChanges,
    new: AssocMap<TaskId, String>,
    mapping: EventAction,
    hashing: EventAction,
    sending: EventAction,
    waiting: EventAction,
    task: (Seq<char>, Seq<char>),
)
    requires
        kind.spec_alters(),
        event_follows(hashes, EventAction::AwaitEvent, EventReport::Event(kind), mapping),
        event_follows(hashes, mapping, EventReport::Mapped(changes), hashing),
        event_follows(hashes, hashing, EventReport::Hashed(new), sending),
        event_follows(
            hashes.union_prefer_right(new@),
            sending,
            EventReport::Sent,
            waiting,
        ),
        has_new_hash(hashes, new@, task),
    ensures
        hashing matches EventAction::CalculateHashes(tasks) && lists(
            task_nodes(tasks@),
            affected(hashes.dom(), changes@),
        ),
        sending matches EventAction::SendUpdates(updates) && update_views(updates@).contains(
            HashUpdateView { task, hash: new@[task] },
        ),
        waiting is AwaitEvent,
{
    if let EventAction::SendUpdates(updates) = sending {
        new_hashes_are_sent(hashes, new@, update_views(updates@));
    }
}

/// What the watcher is to do next about the packages.
#[derive(Clone, Copy, Debug, PartialEq, Eq, Structural)]
pub enum PackagesAction {
    /// Wait for the list of packages, build the package graph from it, and
    /// publish the graph.
    Rebuild,
    /// Nobody listens, and nobody ever will.
    Stop,
}

/// What the watcher is to do once a package graph was published.
pub fn after_publishing(delivered: bool) -> (next: PackagesAction)
    ensures
        next == if delivered {
            PackagesAction::Rebuild
        } else {
            PackagesAction::Stop
        },
{
    if delivered {
        PackagesAction::Rebuild
    } else {
        PackagesAction::Stop
    }
}

/// A change to a package has its tasks hashed again, wherever in the list of changed
/// packages its name stands. The tasks of the root package belong to a package of the
/// name of two slashes.
pub proof fn the_tasks_of_a_changed_package_are_hashed<R, W>(
    watcher: &PackageHashWatcher<R, W>,
    names: Vec<PackageName>,
    held: &mut AssocMap<TaskId, String>,
    next: EventAction,
    i: int,
    package: Seq<char>,
    task: Seq<char>,
)
    requires
        call_ensures(
            PackageHashWatcher::<R, W>::watch,
            (
                watcher,
                EventAction::MapChanges,
                EventReport::Mapped(PackageChanges::Only(names)),
                held,
            ),
            next,
        ),
        0 <= i < names@.len(),
        match names@[i] {
            PackageName::Other(name) => name@ == package,
            PackageName::Root => package == "//"@,
        },
        old(held)@.contains_key((package, task)),
    ensures
        next matches EventAction::CalculateHashes(tasks) && exists|n: int|
            0 <= n < tasks@.len() && (#[trigger] tasks@[n])@ == TaskNodeView::Task((package, task)),
{
    let changes = PackageChanges::Only(names);
    assert(package_names(names@)[i] == names@[i]@);
    assert(package_names(names@).contains(names@[i]@));
    assert(affects(changes@, (package, task)));
    if let EventAction::CalculateHashes(tasks) = next {
        let list = task_nodes(tasks@);
        assert(list.contains(TaskNodeView::Task((package, task))));
        let n = choose|n: int| 0 <= n < list.len() && list[n] == TaskNodeView::Task(
            (package, task),
        );
        assert(list[n] == tasks@[n]@);
    }
}

/// A change to everything has all tasks hashed again that have a hash. Nothing else is
/// hashed: what is listed is a task that has a hash, it is listed once, and its package
/// is among those that changed, unless all did.
pub proof fn only_the_tasks_of_changed_packages_are_hashed<R, W>(
    watcher: &PackageHashWatcher<R, W>,
    changes: PackageChanges,
    held: &mut AssocMap<TaskId, String>,
    next: EventAction,
    package: Seq<char>,
    task: Seq<char>,
)
    requires
        call_ensures(
            PackageHashWatcher::<R, W>::watch,
            (watcher, EventAction::MapChanges, EventReport::Mapped(changes), held),
            next,
        ),
    ensures
        next matches EventAction::CalculateHashes(tasks) && {
            let listed = exists|n: int|
                0 <= n < tasks@.len() && (#[trigger] tasks@[n])@ == TaskNodeView::Task(
                    (package, task),
                );
            &&& forall|m: int, n: int|
                0 <= m < n < tasks@.len() ==> (#[trigger] tasks@[m])@ != (#[trigger] tasks@[n])@
            &&& forall|n: int| 0 <= n < tasks@.len() ==> (#[trigger] tasks@[n])@ is Task
            &&& listed ==> old(held)@.contains_key((package, task))
            &&& match changes {
                PackageChanges::All => old(held)@.contains_key((package, task)) ==> listed,
                PackageChanges::Only(names) => listed ==> exists|i: int|
                    0 <= i < names@.len() && match #[trigger] names@[i] {
                        PackageName::Other(name) => name@ == package,
                        PackageName::Root => package == "//"@,
                    },
            }
        },
{
    if let EventAction::CalculateHashes(tasks) = next {
        let list = task_nodes(tasks@);
        let wanted = affected(old(held)@.dom(), changes@);
        let node = TaskNodeView::Task((package, task));
        assert forall|n: int| 0 <= n < tasks@.len() implies #[trigger] list[n] == tasks@[n]@ by {}
        assert forall|m: int, n: int| 0 <= m < n < tasks@.len() implies (#[trigger] tasks@[m])@ != (
        #[trigger] tasks@[n])@ by {
            assert(list[m] != list[n]);
        }
        assert forall|n: int| 0 <= n < tasks@.len() implies (#[trigger] tasks@[n])@ is Task by {
            assert(list.contains(list[n]));
        }
        if exists|n: int| 0 <= n < tasks@.len() && (#[trigger] tasks@[n])@ == node {
            let n = choose|n: int| 0 <= n < tasks@.len() && (#[trigger] tasks@[n])@ == node;
            assert(list[n] == node);
            assert(list.contains(node));
            assert(affects(changes@, (package, task)));
            if let PackageChanges::Only(names) = changes {
                let views = package_names(names@);
                assert(changes@ == PackageChangesView::Only(views));
                if views.contains(PackageNameView::Other(package)) {
                    let i = choose|i: int|
                        0 <= i < views.len() && views[i] == PackageNameView::Other(package);
                    assert(views[i] == names@[i]@);
                    assert(names@[i] is Other);
                } else {
                    let i = choose|i: int|
                        0 <= i < views.len() && views[i] == PackageNameView::Root;
                    assert(views[i] == names@[i]@);
                    assert(names@[i] is Root);
                }
            }
        }
        if changes is All && old(held)@.contains_key((package, task)) {
            assert(wanted.contains((package, task)));
            assert(list.contains(node));
            let n = choose|n: int| 0 <= n < list.len() && list[n] == node;
            assert(tasks@[n]@ == node);
        }
    }
}

/// An event after which a file is not what it was is mapped to packages, and any other is
/// passed over. The watcher goes on until there are no more events, or some were lost.
pub proof fn only_changes_are_mapped<R, W>(
    watcher: &PackageHashWatcher<R, W>,
    action: EventAction,
    report: EventReport,
    held: &mut AssocMap<TaskId, String>,
    next: EventAction,
)
    requires
        event_answers(action, report),
        call_ensures(PackageHashWatcher::<R, W>::watch, (watcher, action, report, held), next),
    ensures
        report matches EventReport::Event(kind) ==> match kind {
            EventKind::Create | EventKind::Modify | EventKind::Remove => next is MapChanges,
            EventKind::Any | EventKind::Access | EventKind::Other => next is AwaitEvent,
        },
        report is Mapped ==> next is CalculateHashes,
        report is Hashed || report is Discovered ==> next is SendUpdates,
        report is Sent ==> next is AwaitEvent,
        report is EventsLost ==> next is Stop,
{
}

/// The hash of a task is the one that was brought last, and that of a task that none was
/// brought for is what it was.
pub proof fn the_latest_hash_is_kept<R, W>(
    watcher: &PackageHashWatcher<R, W>,
    action: EventAction,
    report: EventReport,
    held: &mut AssocMap<TaskId, String>,
    next: EventAction,
    task: (Seq<char>, Seq<char>),
)
    requires
        event_answers(action, report),
        call_ensures(PackageHashWatcher::<R, W>::watch, (watcher, action, report, held), next),
    ensures
        ({
            let brought = match report {
                EventReport::Discovered(hashes) => hashes@,
                EventReport::Hashed(hashes) => hashes@,
                _ => Map::empty(),
            };
            if brought.contains_key(task) {
                final(held)@.contains_key(task) && final(held)@[task] == brought[task]
            } else {
                (final(held)@.contains_key(task) <==> old(held)@.contains_key(task)) && (
                old(held)@.contains_key(task) ==> final(held)@[task] == old(held)@[task])
            }
        }),
{
}

/// An update is sent for a task exactly if it has another hash than it had, or had none.
/// It names the task and the new hash, and there is one for each task.
pub proof fn updates_are_sent_on_what_is_new<R, W>(
    watcher: &PackageHashWatcher<R, W>,
    action: EventAction,
    report: EventReport,
    held: &mut AssocMap<TaskId, String>,
    updates: Vec<HashUpdate>,
    task: (Seq<char>, Seq<char>),
)
    requires
        event_answers(action, report),
        call_ensures(
            PackageHashWatcher::<R, W>::watch,
            (watcher, action, report, held),
            EventAction::SendUpdates(updates),
        ),
    ensures
        (exists|n: int|
            0 <= n < updates@.len() && (#[trigger] updates@[n]).package@ == task.0
                && updates@[n].task@ == task.1) <==> (final(held)@.contains_key(task) && !(
        old(held)@.contains_key(task) && old(held)@[task] == final(held)@[task])),
        forall|n: int|
            0 <= n < updates@.len() && (#[trigger] updates@[n]).package@ == task.0
                && updates@[n].task@ == task.1 ==> updates@[n].hash@ == final(held)@[task],
        forall|m: int, n: int|
            0 <= m < n < updates@.len() ==> !(#[trigger] updates@[m].package@
                == #[trigger] updates@[n].package@ && updates@[m].task@ == updates@[n].task@),
{
    lemma_updates_seen(old(held)@, final(held)@, updates@, task);
}

/// What updates between two sets of hashes say.
proof fn lemma_updates_seen(
    before: Map<(Seq<char>, Seq<char>), Seq<char>>,
    after: Map<(Seq<char>, Seq<char>), Seq<char>>,
    updates: Seq<HashUpdate>,
    task: (Seq<char>, Seq<char>),
)
    requires
        are_updates(before, after, update_views(updates)),
    ensures
        (exists|n: int|
            0 <= n < updates.len() && (#[trigger] updates[n]).package@ == task.0
                && updates[n].task@ == task.1) <==> (after.contains_key(task) && !(
        before.contains_key(task) && before[task] == after[task])),
        forall|n: int|
            0 <= n < updates.len() && (#[trigger] updates[n]).package@ == task.0
                && updates[n].task@ == task.1 ==> updates[n].hash@ == after[task],
        forall|m: int, n: int|
            0 <= m < n < updates.len() ==> !(#[trigger] updates[m].package@
                == #[trigger] updates[n].package@ && updates[m].task@ == updates[n].task@),
{
    let views = update_views(updates);
    assert forall|n: int| 0 <= n < updates.len() implies #[trigger] views[n] == updates[n]@ by {}
    assert forall|m: int, n: int| 0 <= m < n < updates.len() implies !(
    #[trigger] updates[m].package@ == #[trigger] updates[n].package@ && updates[m].task@
        == updates[n].task@) by {
        assert(views[m].task != views[n].task);
    }
    assert forall|n: int|
        0 <= n < updates.len() && (#[trigger] updates[n]).package@ == task.0
            && updates[n].task@ == task.1 implies updates[n].hash@ == after[task]
        && after.contains_key(task) && !(before.contains_key(task) && before[task]
        == after[task]) by {
        assert(has_new_hash(before, after, views[n].task));
    }
    if after.contains_key(task) && !(before.contains_key(task) && before[task] == after[task]) {
        assert(has_new_hash(before, after, task));
        let n = choose|n: int| 0 <= n < views.len() && (#[trigger] views[n]).task == task;
        assert(views[n] == updates[n]@);
        assert(updates[n].package@ == task.0);
    }
}

/// Those who subscribe are told of a task exactly if it has another hash than before, or
/// had none, and of that hash.
pub proof fn subscribers_are_told_of_what_is_new<R, W>(
    watcher: &PackageHashWatcher<R, W>,
    before: &AssocMap<TaskId, String>,
    after: &AssocMap<TaskId, String>,
    updates: Vec<HashUpdate>,
    task: (Seq<char>, Seq<char>),
)
    requires
        call_ensures(PackageHashWatcher::<R, W>::subscribe, (watcher, before, after), updates),
    ensures
        (exists|n: int|
            0 <= n < updates@.len() && (#[trigger] updates@[n]).package@ == task.0
                && updates@[n].task@ == task.1) <==> (after@.contains_key(task) && !(
        before@.contains_key(task) && before@[task] == after@[task])),
        forall|n: int|
            0 <= n < updates@.len() && (#[trigger] updates@[n]).package@ == task.0
                && updates@[n].task@ == task.1 ==> updates@[n].hash@ == after@[task],
        forall|m: int, n: int|
            0 <= m < n < updates@.len() ==> !(#[trigger] updates@[m].package@
                == #[trigger] updates@[n].package@ && updates@[m].task@ == updates@[n].task@),
{
    lemma_updates_seen(before@, after@, updates@, task);
}

/// The packages are looked at again exactly if somebody took the package graph, and a
/// watcher keeps what it is made of.
pub proof fn packages_are_watched_for_listeners<R, W>(
    delivered: bool,
    next: PackagesAction,
    repo_root: R,
    package_watcher: W,
    watcher: PackageHashWatcher<R, W>,
    hashes: &FileHashes,
    copy: FileHashes,
)
    requires
        call_ensures(after_publishing, (delivered,), next),
        call_ensures(PackageHashWatcher::<R, W>::new, (repo_root, package_watcher), watcher),
        call_ensures(FileHashes::clone, (hashes,), copy),
    ensures
        delivered <==> next is Rebuild,
        !delivered <==> next is Stop,
        watcher.repo_root == repo_root,
        watcher.package_watcher == package_watcher,
        copy.0@ == hashes.0@,
{
}

} // verus!
