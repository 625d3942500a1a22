//! The hashes of the inputs of tasks, and the ways to come by them.
pub mod file_event;
pub mod package_hash_watcher;
pub mod package_json;
pub mod root_files;
pub mod task_definitions;
pub mod updates;
pub mod watch;

use crate::assoc::AssocMap;
use crate::task_id::TaskId;
use std::time::Duration;
use vstd::prelude::*;

verus! {

/// Why hashes could not be had.
#[derive(Debug)]
pub enum Error {
    /// There is no way to hash packages.
    PackageHashingUnavailable,
    /// The daemon did not answer.
    Daemon(String),
    /// The files could not be hashed.
    Hashing(String),
}

/// The hashes of files, by path.
#[derive(Debug)]
pub struct FileHashes(pub AssocMap<String, String>);

impl View for FileHashes {
    type V = Map<Seq<char>, Seq<char>>;

    open spec fn view(&self) -> Map<Seq<char>, Seq<char>> {
        self.0@
    }
}

/// For each task the hash of its inputs, and the hashes of the files among
/// them.
#[derive(Debug)]
pub struct PackageInputsHashes {
    pub hashes: AssocMap<TaskId, String>,
    pub expanded_hashes: AssocMap<TaskId, FileHashes>,
}

/// What the hashes are.
#[verifier::ext_equal]
pub struct PackageInputsHashesView {
    pub hashes: Map<(Seq<char>, Seq<char>), Seq<char>>,
    pub expanded_hashes: Map<(Seq<char>, Seq<char>), Map<Seq<char>, Seq<char>>>,
}

impl View for PackageInputsHashes {
    type V = PackageInputsHashesView;

    open spec fn view(&self) -> PackageInputsHashesView {
        PackageInputsHashesView { hashes: self.hashes@, expanded_hashes: self.expanded_hashes@ }
    }
}

impl PackageInputsHashesView {
    /// No hashes.
    pub open spec fn none() -> PackageInputsHashesView {
        PackageInputsHashesView { hashes: Map::empty(), expanded_hashes: Map::empty() }
    }
}

impl Default for PackageInputsHashes {
    /// No hashes.
    fn default() -> (hashes: Self)
        ensures
            hashes@ == PackageInputsHashesView::none(),
    {
        PackageInputsHashes { hashes: AssocMap::new(), expanded_hashes: AssocMap::new() }
    }
}

/// A task that is to be hashed.
#[derive(Debug)]
pub enum TaskNode {
    Root,
    Task(TaskId),
}

/// What a task node is.
pub enum TaskNodeView {
    Root,
    Task((Seq<char>, Seq<char>)),
}

impl View for TaskNode {
    type V = TaskNodeView;

    open spec fn view(&self) -> TaskNodeView {
        match self {
            TaskNode::Root => TaskNodeView::Root,
            TaskNode::Task(id) => TaskNodeView::Task(id@),
        }
    }
}

/// What is needed to hash packages here: the version control, the packages,
/// the tasks with their definitions, and the root of the repository.
#[derive(Debug)]
pub struct LocalPackageHashes<S, W, D, R> {
    pub scm: S,
    pub workspaces: W,
    pub tasks: Vec<TaskNode>,
    pub task_definitions: D,
    pub repo_root: R,
}

impl<S, W, D, R> LocalPackageHashes<S, W, D, R> {
    pub fn new(
        scm: S,
        workspaces: W,
        tasks: Vec<TaskNode>,
        task_definitions: D,
        repo_root: R,
    ) -> (hasher: Self)
        ensures
            hasher.scm == scm,
            hasher.workspaces == workspaces,
            hasher.tasks == tasks,
            hasher.task_definitions == task_definitions,
            hasher.repo_root == repo_root,
    {
        LocalPackageHashes { scm, workspaces, tasks, task_definitions, repo_root }
    }
}

/// A file and its hash, as the daemon reports them.
#[derive(Debug)]
pub struct FileHash {
    pub relative_path: String,
    pub hash: String,
}

/// A task, the hash of its inputs, and the paths of the inputs, as the daemon
/// reports them.
#[derive(Debug)]
pub struct PackageHash {
    pub package: String,
    pub task: String,
    pub hash: String,
    pub inputs: Vec<String>,
}

/// The hashes that the daemon reports.
#[derive(Debug)]
pub struct DiscoveredHashes {
    pub file_hashes: Vec<FileHash>,
    pub package_hashes: Vec<PackageHash>,
}

/// The hash of each file that is reported. If one is reported more than once,
/// the last report counts.
pub open spec fn file_mapping(files: Seq<FileHash>) -> Map<Seq<char>, Seq<char>>
    decreases files.len(),
{
    if files.len() == 0 {
        Map::empty()
    } else {
        file_mapping(files.drop_last()).insert(files.last().relative_path@, files.last().hash@)
    }
}

/// The hashes of those inputs that have one.
pub open spec fn input_hashes(
    inputs: Seq<Seq<char>>,
    mapping: Map<Seq<char>, Seq<char>>,
) -> Map<Seq<char>, Seq<char>> {
    Map::new(
        |path: Seq<char>| inputs.contains(path) && mapping.contains_key(path),
        |path: Seq<char>| mapping[path],
    )
}

/// The hash of each task that is reported. If one is reported more than once,
/// the last report counts.
pub open spec fn task_hashes(packages: Seq<PackageHash>) -> Map<
    (Seq<char>, Seq<char>),
    Seq<char>,
>
    decreases packages.len(),
{
    if packages.len() == 0 {
        Map::empty()
    } else {
        let last = packages.last();
        task_hashes(packages.drop_last()).insert((last.package@, last.task@), last.hash@)
    }
}

/// The hashes of the inputs of each task that is reported. If one is reported
/// more than once, the last report counts.
pub open spec fn expanded_task_hashes(
    packages: Seq<PackageHash>,
    mapping: Map<Seq<char>, Seq<char>>,
) -> Map<(Seq<char>, Seq<char>), Map<Seq<char>, Seq<char>>>
    decreases packages.len(),
{
    if packages.len() == 0 {
        Map::empty()
    } else {
        let last = packages.last();
        expanded_task_hashes(packages.drop_last(), mapping).insert(
            (last.package@, last.task@),
            input_hashes(last.inputs.deep_view(), mapping),
        )
    }
}

/// What the daemon's report says.
pub open spec fn reported_hashes(report: DiscoveredHashes) -> PackageInputsHashesView {
    PackageInputsHashesView {
        hashes: task_hashes(report.package_hashes@),
        expanded_hashes: expanded_task_hashes(
            report.package_hashes@,
            file_mapping(report.file_hashes@),
        ),
    }
}

/// The tasks whose inputs are hashed are those that have a hash, and no input
/// has a hash that was not reported for its path.
pub proof fn reported_hashes_agree(report: DiscoveredHashes)
    ensures
        reported_hashes(report).hashes.dom() == reported_hashes(report).expanded_hashes.dom(),
        forall|task: (Seq<char>, Seq<char>)|
            reported_hashes(report).expanded_hashes.contains_key(task)
                ==> #[trigger] reported_hashes(report).expanded_hashes[task].submap_of(
                file_mapping(report.file_hashes@),
            ),
{
    lemma_same_tasks(report.package_hashes@, file_mapping(report.file_hashes@));
}

proof fn lemma_same_tasks(packages: Seq<PackageHash>, mapping: Map<Seq<char>, Seq<char>>)
    ensures
        task_hashes(packages).dom() == expanded_task_hashes(packages, mapping).dom(),
        forall|task: (Seq<char>, Seq<char>)|
            expanded_task_hashes(packages, mapping).contains_key(task)
                ==> #[trigger] expanded_task_hashes(packages, mapping)[task].submap_of(mapping),
    decreases packages.len(),
{
    if packages.len() > 0 {
        lemma_same_tasks(packages.drop_last(), mapping);
    }
    assert(task_hashes(packages).dom() =~= expanded_task_hashes(packages, mapping).dom());
}

/// Has the daemon hash packages.
#[derive(Debug)]
pub struct DaemonPackageHasher<C> {
    pub daemon: C,
}

impl<C> DaemonPackageHasher<C> {
    pub fn new(daemon: C) -> (hasher: Self)
        ensures
            hasher.daemon == daemon,
    {
        DaemonPackageHasher { daemon }
    }

    /// The hashes that the daemon's answer stands for.
    pub fn calculate_hashes(answer: Result<DiscoveredHashes, String>) -> (hashes: Result<
        PackageInputsHashes,
        Error,
    >)
        ensures
            match answer {
                Ok(report) => hashes matches Ok(hashes) && hashes@ == reported_hashes(report),
                Err(reason) => hashes == Err::<PackageInputsHashes, Error>(Error::Daemon(reason)),
            },
    {
        match answer {
            Ok(report) => Ok(read_report(&report)),
            Err(reason) => Err(Error::Daemon(reason)),
        }
    }
}

/// The hash of each file that is reported.
fn map_files(files: &Vec<FileHash>) -> (mapping: AssocMap<String, String>)
    ensures
        mapping@ == file_mapping(files@),
{
    let mut mapping: AssocMap<String, String> = AssocMap::new();
    let mut i: usize = 0;
    while i < files.len()
        invariant
            i <= files@.len(),
            mapping@ == file_mapping(files@.take(i as int)),
        decreases files@.len() - i,
    {
        assert(files@.take(i + 1).drop_last() == files@.take(i as int));
        mapping.insert(files[i].relative_path.clone(), files[i].hash.clone());
        i += 1;
    }
    assert(files@.take(files@.len() as int) == files@);
    mapping
}

/// The hashes of those inputs that have one.
fn hash_inputs(inputs: &Vec<String>, mapping: &AssocMap<String, String>) -> (hashes: FileHashes)
    ensures
        hashes@ == input_hashes(inputs.deep_view(), mapping@),
{
    let mut hashes: AssocMap<String, String> = AssocMap::new();
    let mut i: usize = 0;
    assert(hashes@ =~= input_hashes(inputs.deep_view().take(0), mapping@));
    while i < inputs.len()
        invariant
            i <= inputs@.len(),
            hashes@ == input_hashes(inputs.deep_view().take(i as int), mapping@),
        decreases inputs@.len() - i,
    {
        let ghost seen = inputs.deep_view().take(i as int);
        let ghost path = inputs@[i as int]@;
        assert(inputs.deep_view().take(i + 1) == seen.push(path));
        assert forall|p: Seq<char>| #[trigger] seen.push(path).contains(p) <==> seen.contains(p)
            || p == path by {
            assert(seen.push(path)[seen.len() as int] == path);
            if seen.contains(p) {
                let k = choose|k: int| 0 <= k < seen.len() && seen[k] == p;
                assert(seen.push(path)[k] == p);
            }
        }
        match mapping.get(&inputs[i]) {
            Some(hash) => {
                hashes.insert(inputs[i].clone(), hash.clone());
            },
            None => {},
        }
        assert(hashes@ =~= input_hashes(seen.push(path), mapping@));
        i += 1;
    }
    assert(inputs.deep_view().take(inputs@.len() as int) == inputs.deep_view());
    FileHashes(hashes)
}

/// What the daemon's report says.
fn read_report(report: &DiscoveredHashes) -> (read: PackageInputsHashes)
    ensures
        read@ == reported_hashes(*report),
{
    let mapping = map_files(&report.file_hashes);
    let packages = &report.package_hashes;
    let mut hashes: AssocMap<TaskId, String> = AssocMap::new();
    let mut expanded_hashes: AssocMap<TaskId, FileHashes> = AssocMap::new();
    let mut i: usize = 0;
    while i < packages.len()
        invariant
            i <= packages@.len(),
            hashes@ == task_hashes(packages@.take(i as int)),
            expanded_hashes@ == expanded_task_hashes(packages@.take(i as int), mapping@),
        decreases packages@.len() - i,
    {
        assert(packages@.take(i + 1).drop_last() == packages@.take(i as int));
        let package = &packages[i];
        expanded_hashes.insert(
            TaskId::new(package.package.as_str(), package.task.as_str()),
            hash_inputs(&package.inputs, &mapping),
        );
        hashes.insert(
            TaskId::from_owned(package.package.clone(), package.task.clone()),
            package.hash.clone(),
        );
        i += 1;
    }
    assert(packages@.take(packages@.len() as int) == packages@);
    PackageInputsHashes { hashes, expanded_hashes }
}

/// What hashing came to.
pub type Outcome = Result<PackageInputsHashes, Error>;

/// A way to hash packages that may not be there: either the way, or the error
/// that says that there is none.
pub fn optional_strategy<T>(strategy: Option<T>) -> (available: Result<T, Error>)
    ensures
        match strategy {
            Some(way) => available == Ok::<T, Error>(way),
            None => available == Err::<T, Error>(Error::PackageHashingUnavailable),
        },
{
    match strategy {
        Some(way) => Ok(way),
        None => Err(Error::PackageHashingUnavailable),
    }
}

/// Attempts the `primary` way for an amount of time specified by `timeout`
/// before falling back to `fallback`.
#[derive(Debug)]
pub struct FallbackPackageHasher<P, F> {
    pub primary: P,
    pub fallback: F,
    pub timeout: Duration,
}

/// What came of the primary way.
#[derive(Debug)]
pub enum Attempt {
    Finished(Outcome),
    TimedOut,
}

/// What is to be done after the primary way.
#[derive(Debug)]
pub enum AfterPrimary {
    /// This is the outcome.
    Settled(Outcome),
    /// The fallback is to be run. The error is that of the primary way, if it
    /// gave one.
    RunFallback(Option<Error>),
}

/// The outcome of both ways together.
pub open spec fn combined(attempt: Attempt, fallback: Outcome) -> Outcome {
    match attempt {
        Attempt::Finished(Ok(hashes)) => Ok(hashes),
        Attempt::Finished(Err(primary)) => match fallback {
            Err(Error::PackageHashingUnavailable) => Err(primary),
            _ => fallback,
        },
        Attempt::TimedOut => fallback,
    }
}

/// What is to be done after the primary way.
pub open spec fn next_after(attempt: Attempt) -> AfterPrimary {
    match attempt {
        Attempt::Finished(Ok(hashes)) => AfterPrimary::Settled(Ok(hashes)),
        Attempt::Finished(Err(error)) => AfterPrimary::RunFallback(Some(error)),
        Attempt::TimedOut => AfterPrimary::RunFallback(None),
    }
}

/// The outcome when the fallback had to be run.
pub open spec fn outcome_after(primary: Option<Error>, fallback: Outcome) -> Outcome {
    match (primary, fallback) {
        (Some(primary), Err(Error::PackageHashingUnavailable)) => Err(primary),
        (_, fallback) => fallback,
    }
}

impl<P, F> FallbackPackageHasher<P, F> {
    pub fn new(primary: P, fallback: F, timeout: Duration) -> (hasher: Self)
        ensures
            hasher.primary == primary,
            hasher.fallback == fallback,
            hasher.timeout == timeout,
    {
        FallbackPackageHasher { primary, fallback, timeout }
    }

    /// What is to be done after the primary way.
    pub fn after_primary(attempt: Attempt) -> (next: AfterPrimary)
        ensures
            next == next_after(attempt),
    {
        match attempt {
            Attempt::Finished(Ok(hashes)) => AfterPrimary::Settled(Ok(hashes)),
            Attempt::Finished(Err(error)) => AfterPrimary::RunFallback(Some(error)),
            Attempt::TimedOut => AfterPrimary::RunFallback(None),
        }
    }

    /// The outcome when the fallback had to be run.
    pub fn after_fallback(primary: Option<Error>, fallback: Outcome) -> (outcome: Outcome)
        ensures
            outcome == outcome_after(primary, fallback),
    {
        match (primary, fallback) {
            (Some(primary), Err(Error::PackageHashingUnavailable)) => Err(primary),
            (_, fallback) => fallback,
        }
    }
}

/// The fallback is run exactly when the primary way gave no hashes, its outcome
/// counts then, and where it is not there at all, the error of the primary way
/// does.
pub proof fn fallback_only_where_needed(attempt: Attempt, fallback: Outcome)
    ensures
        match next_after(attempt) {
            AfterPrimary::Settled(outcome) => outcome is Ok && outcome == combined(
                attempt,
                fallback,
            ),
            AfterPrimary::RunFallback(primary) => !(attempt matches Attempt::Finished(Ok(_)))
                && outcome_after(primary, fallback) == combined(attempt, fallback),
        },
        combined(attempt, fallback) matches Err(
            Error::PackageHashingUnavailable,
        ) ==> match attempt {
            Attempt::Finished(Err(error)) => error is PackageHashingUnavailable,
            Attempt::Finished(Ok(_)) => false,
            Attempt::TimedOut => true,
        },
{
}

/// A way to hash packages that is not there makes no difference, on either side of a
/// fallback: what the other way comes to is what both together come to.
pub proof fn an_absent_way_is_neutral(outcome: Outcome)
    ensures
        combined(Attempt::Finished(outcome), Err(Error::PackageHashingUnavailable)) == outcome,
        combined(Attempt::Finished(Err(Error::PackageHashingUnavailable)), outcome) == outcome,
{
}

/// The last report on a file counts.
proof fn lemma_last_report_on_file(files: Seq<FileHash>, f: int)
    requires
        0 <= f < files.len(),
        forall|g: int|
            f < g < files.len() ==> (#[trigger] files[g]).relative_path@
                != files[f].relative_path@,
    ensures
        file_mapping(files).contains_key(files[f].relative_path@),
        file_mapping(files)[files[f].relative_path@] == files[f].hash@,
    decreases files.len(),
{
    if f < files.len() - 1 {
        assert(files[files.len() - 1].relative_path@ != files[f].relative_path@);
        lemma_last_report_on_file(files.drop_last(), f);
    }
}

/// A file that has a hash was reported, last of all with that hash.
proof fn lemma_file_was_reported(files: Seq<FileHash>, path: Seq<char>) -> (f: int)
    requires
        file_mapping(files).contains_key(path),
    ensures
        0 <= f < files.len(),
        files[f].relative_path@ == path,
        files[f].hash@ == file_mapping(files)[path],
        forall|g: int| f < g < files.len() ==> (#[trigger] files[g]).relative_path@ != path,
    decreases files.len(),
{
    if files.last().relative_path@ == path {
        files.len() - 1
    } else {
        let f = lemma_file_was_reported(files.drop_last(), path);
        assert forall|g: int| f < g < files.len() implies (#[trigger] files[g]).relative_path@
            != path by {
            if g < files.len() - 1 {
                assert(files.drop_last()[g] == files[g]);
            }
        }
        f
    }
}

/// The last report on a task counts.
proof fn lemma_last_report_on_task(
    packages: Seq<PackageHash>,
    mapping: Map<Seq<char>, Seq<char>>,
    k: int,
)
    requires
        0 <= k < packages.len(),
        forall|l: int|
            k < l < packages.len() ==> (#[trigger] packages[l]).package@ != packages[k].package@
                || packages[l].task@ != packages[k].task@,
    ensures
        ({
            let task = (packages[k].package@, packages[k].task@);
            &&& task_hashes(packages).contains_key(task)
            &&& task_hashes(packages)[task] == packages[k].hash@
            &&& expanded_task_hashes(packages, mapping).contains_key(task)
            &&& expanded_task_hashes(packages, mapping)[task] == input_hashes(
                packages[k].inputs.deep_view(),
                mapping,
            )
        }),
    decreases packages.len(),
{
    if k < packages.len() - 1 {
        let last = packages[packages.len() - 1];
        assert(last.package@ != packages[k].package@ || last.task@ != packages[k].task@);
        lemma_last_report_on_task(packages.drop_last(), mapping, k);
    }
}

/// A task that has a hash was reported, and the last report on it is the one that
/// counts.
proof fn lemma_task_was_reported(packages: Seq<PackageHash>, task: (Seq<char>, Seq<char>)) -> (k:
    int)
    requires
        task_hashes(packages).contains_key(task),
    ensures
        0 <= k < packages.len(),
        (packages[k].package@, packages[k].task@) == task,
        forall|l: int|
            k < l < packages.len() ==> (#[trigger] packages[l]).package@ != packages[k].package@
                || packages[l].task@ != packages[k].task@,
    decreases packages.len(),
{
    if (packages.last().package@, packages.last().task@) == task {
        packages.len() - 1
    } else {
        let k = lemma_task_was_reported(packages.drop_last(), task);
        assert forall|l: int| k < l < packages.len() implies (#[trigger] packages[l]).package@
            != packages[k].package@ || packages[l].task@ != packages[k].task@ by {
            if l < packages.len() - 1 {
                assert(packages.drop_last()[l] == packages[l]);
            }
        }
        k
    }
}

/// No task that the daemon reports is left out: it has the hash that the last report on
/// it gives.
pub proof fn no_task_is_left_out<C>(
    report: DiscoveredHashes,
    hashes: Result<PackageInputsHashes, Error>,
    k: int,
)
    requires
        call_ensures(
            DaemonPackageHasher::<C>::calculate_hashes,
            (Ok::<DiscoveredHashes, String>(report),),
            hashes,
        ),
        0 <= k < report.package_hashes@.len(),
        forall|l: int|
            k < l < report.package_hashes@.len() ==> (#[trigger] report.package_hashes@[l]).package@
                != report.package_hashes@[k].package@ || report.package_hashes@[l].task@
                != report.package_hashes@[k].task@,
    ensures
        ({
            let reported = report.package_hashes@[k];
            let task = (reported.package@, reported.task@);
            &&& hashes is Ok
            &&& hashes->Ok_0.hashes@.contains_key(task)
            &&& hashes->Ok_0.hashes@[task] == reported.hash@
            &&& hashes->Ok_0.expanded_hashes@.contains_key(task)
        }),
{
    lemma_last_report_on_task(report.package_hashes@, file_mapping(report.file_hashes@), k);
}

/// No input that the daemon reports is left out: wherever in the list of inputs of a
/// task a path stands, if a hash is reported for it, the hashes of the inputs of the task
/// hold it, as the last report on the file gives it.
pub proof fn no_input_is_left_out<C>(
    report: DiscoveredHashes,
    hashes: Result<PackageInputsHashes, Error>,
    k: int,
    i: int,
    f: int,
)
    requires
        call_ensures(
            DaemonPackageHasher::<C>::calculate_hashes,
            (Ok::<DiscoveredHashes, String>(report),),
            hashes,
        ),
        0 <= k < report.package_hashes@.len(),
        forall|l: int|
            k < l < report.package_hashes@.len() ==> (#[trigger] report.package_hashes@[l]).package@
                != report.package_hashes@[k].package@ || report.package_hashes@[l].task@
                != report.package_hashes@[k].task@,
        0 <= i < report.package_hashes@[k].inputs@.len(),
        0 <= f < report.file_hashes@.len(),
        report.file_hashes@[f].relative_path@ == report.package_hashes@[k].inputs@[i]@,
        forall|g: int|
            f < g < report.file_hashes@.len() ==> (#[trigger] report.file_hashes@[g]).relative_path@
                != report.file_hashes@[f].relative_path@,
    ensures
        ({
            let reported = report.package_hashes@[k];
            let task = (reported.package@, reported.task@);
            let path = reported.inputs@[i]@;
            &&& hashes is Ok
            &&& hashes->Ok_0.expanded_hashes@.contains_key(task)
            &&& hashes->Ok_0.expanded_hashes@[task].contains_key(path)
            &&& hashes->Ok_0.expanded_hashes@[task][path] == report.file_hashes@[f].hash@
        }),
{
    let reported = report.package_hashes@[k];
    lemma_last_report_on_task(report.package_hashes@, file_mapping(report.file_hashes@), k);
    lemma_last_report_on_file(report.file_hashes@, f);
    assert(reported.inputs.deep_view()[i] == reported.inputs@[i]@);
}

/// Nothing is made up: a task that has a hash was reported, and an input that has a hash
/// stands in the last report on its task, with the hash of the last report on the file.
pub proof fn nothing_is_made_up<C>(
    report: DiscoveredHashes,
    hashes: Result<PackageInputsHashes, Error>,
    task: (Seq<char>, Seq<char>),
    path: Seq<char>,
)
    requires
        call_ensures(
            DaemonPackageHasher::<C>::calculate_hashes,
            (Ok::<DiscoveredHashes, String>(report),),
            hashes,
        ),
    ensures
        hashes is Ok,
        hashes->Ok_0.hashes@.contains_key(task) || hashes->Ok_0.expanded_hashes@.contains_key(task)
            ==> exists|k: int|
            0 <= k < report.package_hashes@.len() && (
            #[trigger] report.package_hashes@[k]).package@ == task.0
                && report.package_hashes@[k].task@ == task.1,
        hashes->Ok_0.expanded_hashes@.contains_key(task)
            && hashes->Ok_0.expanded_hashes@[task].contains_key(path) ==> exists|
            k: int,
            i: int,
            f: int,
        |
            #![trigger report.package_hashes@[k].inputs@[i], report.file_hashes@[f]]
            {
                &&& 0 <= k < report.package_hashes@.len()
                &&& report.package_hashes@[k].package@ == task.0
                &&& report.package_hashes@[k].task@ == task.1
                &&& 0 <= i < report.package_hashes@[k].inputs@.len()
                &&& report.package_hashes@[k].inputs@[i]@ == path
                &&& 0 <= f < report.file_hashes@.len()
                &&& report.file_hashes@[f].relative_path@ == path
                &&& report.file_hashes@[f].hash@ == hashes->Ok_0.expanded_hashes@[task][path]
            },
{
    let packages = report.package_hashes@;
    let mapping = file_mapping(report.file_hashes@);
    lemma_same_tasks(packages, mapping);
    if hashes->Ok_0.expanded_hashes@.contains_key(task) {
        assert(task_hashes(packages).dom().contains(task));
        let k = lemma_task_was_reported(packages, task);
        lemma_last_report_on_task(packages, mapping, k);
        if hashes->Ok_0.expanded_hashes@[task].contains_key(path) {
            let inputs = packages[k].inputs.deep_view();
            assert(inputs.contains(path));
            let i = choose|i: int| 0 <= i < inputs.len() && inputs[i] == path;
            assert(packages[k].inputs@[i]@ == path);
            let f = lemma_file_was_reported(report.file_hashes@, path);
            assert(report.file_hashes@[f].relative_path@ == path);
        }
    } else if hashes->Ok_0.hashes@.contains_key(task) {
        let k = lemma_task_was_reported(packages, task);
        assert(packages[k].package@ == task.0);
    }
}

/// A daemon that does not answer gives no hashes, and the reason is handed on.
pub proof fn a_silent_daemon_gives_no_hashes<C>(
    reason: String,
    hashes: Result<PackageInputsHashes, Error>,
)
    requires
        call_ensures(
            DaemonPackageHasher::<C>::calculate_hashes,
            (Err::<DiscoveredHashes, String>(reason),),
            hashes,
        ),
    ensures
        hashes matches Err(Error::Daemon(told)) && told == reason,
{
}

/// What the primary way comes to is the outcome if it is hashes. If it is an error, the
/// fallback is run: its outcome counts, unless there is no fallback at all, and the error
/// is kept until that is known. If time was up, the outcome of the fallback counts.
pub proof fn the_first_way_that_works_counts<P, F>(
    attempt: Attempt,
    fallback: Outcome,
    next: AfterPrimary,
    outcome: Outcome,
)
    requires
        call_ensures(FallbackPackageHasher::<P, F>::after_primary, (attempt,), next),
        next matches AfterPrimary::RunFallback(error) ==> call_ensures(
            FallbackPackageHasher::<P, F>::after_fallback,
            (error, fallback),
            outcome,
        ),
        next matches AfterPrimary::Settled(settled) ==> outcome == settled,
    ensures
        attempt matches Attempt::Finished(Ok(hashes)) ==> next is Settled && outcome
            == Ok::<PackageInputsHashes, Error>(hashes),
        !(attempt matches Attempt::Finished(Ok(_))) ==> next is RunFallback,
        attempt is TimedOut ==> outcome == fallback,
        !(attempt matches Attempt::Finished(Ok(_))) && fallback is Ok ==> outcome == fallback,
        attempt matches Attempt::Finished(Err(error)) ==> (fallback matches Err(other) ==> outcome
            == if other is PackageHashingUnavailable {
            Err::<PackageInputsHashes, Error>(error)
        } else {
            fallback
        }),
{
}

/// A way that is there is used, and one that is not there is an error that says so.
pub proof fn only_an_absent_way_is_unavailable<T>(
    strategy: Option<T>,
    available: Result<T, Error>,
)
    requires
        call_ensures(optional_strategy::<T>, (strategy,), available),
    ensures
        strategy matches Some(way) ==> (available matches Ok(same) && same == way),
        strategy is None ==> (available matches Err(error) && error is PackageHashingUnavailable),
{
}

/// A hasher keeps what it is made of.
pub proof fn hashers_are_made_of_what_they_are_given<S, W, D, R, C, P, F>(
    scm: S,
    workspaces: W,
    tasks: Vec<TaskNode>,
    task_definitions: D,
    repo_root: R,
    local: LocalPackageHashes<S, W, D, R>,
    daemon: C,
    remote: DaemonPackageHasher<C>,
    primary: P,
    fallback: F,
    timeout: Duration,
    both: FallbackPackageHasher<P, F>,
)
    requires
        call_ensures(
            LocalPackageHashes::<S, W, D, R>::new,
            (scm, workspaces, tasks, task_definitions, repo_root),
            local,
        ),
        call_ensures(DaemonPackageHasher::<C>::new, (daemon,), remote),
        call_ensures(FallbackPackageHasher::<P, F>::new, (primary, fallback, timeout), both),
    ensures
        local == (LocalPackageHashes { scm, workspaces, tasks, task_definitions, repo_root }),
        remote.daemon == daemon,
        both == (FallbackPackageHasher { primary, fallback, timeout }),
{
}

/// At first there are no hashes, and the view of hashes and of tasks holds all of them.
pub proof fn hashes_and_tasks_are_seen_whole(
    files: FileHashes,
    hashes: PackageInputsHashes,
    id: TaskId,
    none: PackageInputsHashes,
    task: (Seq<char>, Seq<char>),
)
    requires
        call_ensures(PackageInputsHashes::default, (), none),
    ensures
        !none.hashes@.contains_key(task) && !none.expanded_hashes@.contains_key(task),
        files@ == files.0@,
        hashes@.hashes == hashes.hashes@,
        hashes@.expanded_hashes == hashes.expanded_hashes@,
        TaskNode::Task(id)@ == TaskNodeView::Task(id@),
        TaskNode::Root@ != TaskNode::Task(id)@,
{
}

} // verus!
