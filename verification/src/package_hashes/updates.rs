//! Keeps the package graph and the hasher up to date with what they are made
//! from.
use crate::assoc::AssocMap;
use crate::package_hashes::file_event::{
    is_run, lists, publishes, root_file_changed, root_files_have_all_hashed_again, task_nodes,
    ActionView, FileEventView, ReportView, Turn,
};
use crate::package_hashes::root_files::{Numbered, Published, RootFiles};
use crate::package_hashes::{
    LocalPackageHashes, PackageInputsHashes, PackageInputsHashesView, TaskNode, TaskNodeView,
};
use crate::task_id::TaskId;
use vstd::prelude::*;

verus! {

/// What is to be done next to keep the package graph up to date. A list of
/// packages is a `P`, a root package description an `R`, a package manager an
/// `M`, a package graph a `G`. A package graph bears the number of the root package
/// description that it is built from.
#[derive(Debug)]
pub enum GraphAction<P, R, M, G> {
    /// Wait until the list of packages or the root package description changes.
    AwaitChange,
    /// Look up the root package description, for this list of packages.
    FetchRootPackageJson(P),
    /// Look up the list of packages, for this root package description.
    FetchPackages(Numbered<R>),
    /// Look up the package manager.
    FetchManager(P, Numbered<R>),
    /// Build the package graph.
    Build(P, Numbered<R>, M),
    /// Publish the package graph, or that there is none for now.
    Publish(Option<Numbered<G>>),
    /// There will never be another change that matters.
    Stop,
}

/// What came of an action for the package graph.
#[derive(Debug)]
pub enum GraphReport<P, R, M, G> {
    /// There will be no more changes.
    Closed,
    /// The list of packages.
    Packages(P),
    /// The root package description.
    RootPackageJson(Numbered<R>),
    /// The package manager, if it is known.
    Manager(Option<M>),
    /// The package graph, if it could be built.
    Built(Option<G>),
    /// Whether somebody listens.
    Delivered(bool),
}

/// Whether an action can have come to this.
pub open spec fn graph_answers<P, R, M, G>(
    action: GraphAction<P, R, M, G>,
    report: GraphReport<P, R, M, G>,
) -> bool {
    match action {
        GraphAction::AwaitChange => report is Closed || report is Packages
            || report is RootPackageJson,
        GraphAction::FetchRootPackageJson(_) => report is RootPackageJson,
        GraphAction::FetchPackages(_) => report is Packages,
        GraphAction::FetchManager(_, _) => report is Manager,
        GraphAction::Build(_, _, _) => report is Built,
        GraphAction::Publish(_) => report is Delivered,
        GraphAction::Stop => false,
    }
}

/// What is to be done after `action` came to `report`.
pub open spec fn graph_next<P, R, M, G>(
    action: GraphAction<P, R, M, G>,
    report: GraphReport<P, R, M, G>,
) -> GraphAction<P, R, M, G> {
    match (action, report) {
        (GraphAction::AwaitChange, GraphReport::Packages(packages)) => {
            GraphAction::FetchRootPackageJson(packages)
        },
        (GraphAction::AwaitChange, GraphReport::RootPackageJson(json)) => {
            GraphAction::FetchPackages(json)
        },
        (GraphAction::FetchRootPackageJson(packages), GraphReport::RootPackageJson(json)) => {
            GraphAction::FetchManager(packages, json)
        },
        (GraphAction::FetchPackages(json), GraphReport::Packages(packages)) => {
            GraphAction::FetchManager(packages, json)
        },
        (GraphAction::FetchManager(packages, json), GraphReport::Manager(Some(manager))) => {
            GraphAction::Build(packages, json, manager)
        },
        (GraphAction::Build(_, json, _), GraphReport::Built(graph)) => GraphAction::Publish(
            match graph {
                Some(graph) => Some(Numbered { number: json.number, value: graph }),
                None => None,
            },
        ),
        (GraphAction::Publish(_), GraphReport::Delivered(true)) => GraphAction::AwaitChange,
        _ => GraphAction::Stop,
    }
}

/// When the list of packages changes, or the root package description changes,
/// the package graph has to be built again so that the packages that a change
/// affects are found by it. Says what is to be done after `action` came to
/// `report`.
pub fn update_package_graph<P, R, M, G>(
    action: GraphAction<P, R, M, G>,
    report: GraphReport<P, R, M, G>,
) -> (next: GraphAction<P, R, M, G>)
    requires
        graph_answers(action, report),
    ensures
        next == graph_next(action, report),
{
    match (action, report) {
        (GraphAction::AwaitChange, GraphReport::Packages(packages)) => {
            GraphAction::FetchRootPackageJson(packages)
        },
        (GraphAction::AwaitChange, GraphReport::RootPackageJson(json)) => {
            GraphAction::FetchPackages(json)
        },
        (GraphAction::FetchRootPackageJson(packages), GraphReport::RootPackageJson(json)) => {
            GraphAction::FetchManager(packages, json)
        },
        (GraphAction::FetchPackages(json), GraphReport::Packages(packages)) => {
            GraphAction::FetchManager(packages, json)
        },
        (GraphAction::FetchManager(packages, json), GraphReport::Manager(Some(manager))) => {
            GraphAction::Build(packages, json, manager)
        },
        (GraphAction::Build(_, json, _), GraphReport::Built(graph)) => GraphAction::Publish(
            match graph {
                Some(graph) => Some(Numbered { number: json.number, value: graph }),
                None => None,
            },
        ),
        (GraphAction::Publish(_), GraphReport::Delivered(true)) => GraphAction::AwaitChange,
        _ => GraphAction::Stop,
    }
}

/// The package graph is kept up to date until there are no more changes, the
/// package manager is not known, or nobody listens. That a graph could not be
/// built is no reason to stop.
pub proof fn when_the_graph_is_given_up<P, R, M, G>(
    action: GraphAction<P, R, M, G>,
    report: GraphReport<P, R, M, G>,
)
    requires
        graph_answers(action, report),
    ensures
        graph_next(action, report) is Stop <==> (report is Closed || report
            == GraphReport::<P, R, M, G>::Manager(None) || report
            == GraphReport::<P, R, M, G>::Delivered(false)),
{
}

/// A change of the list of packages and a change of the root package description
/// lead to the same package graph, if the other of the two is looked up as it is.
pub proof fn either_change_builds_the_same<P, R, M, G>(packages: P, json: Numbered<R>)
    ensures
        graph_next(
            graph_next(
                GraphAction::<P, R, M, G>::AwaitChange,
                GraphReport::<P, R, M, G>::Packages(packages),
            ),
            GraphReport::<P, R, M, G>::RootPackageJson(json),
        ) == graph_next(
            graph_next(
                GraphAction::<P, R, M, G>::AwaitChange,
                GraphReport::<P, R, M, G>::RootPackageJson(json),
            ),
            GraphReport::<P, R, M, G>::Packages(packages),
        ),
{
}

/// What a hasher is made of: the version control, all packages of the package graph,
/// the definitions of the tasks, and the root of the repository.
#[derive(Debug)]
pub struct HasherParts<S, W, D, R> {
    pub scm: S,
    pub workspaces: W,
    pub task_definitions: D,
    pub repo_root: R,
}

/// A hasher, and the root files that it is made from.
#[derive(Debug)]
pub struct FreshHasher<S, W, D, R> {
    pub files: RootFiles,
    pub hasher: LocalPackageHashes<S, W, D, R>,
}

/// Whether a hasher is made of these parts. It has no tasks of its own: those that it
/// is to hash are named each time.
pub open spec fn is_made_of<S, W, D, R>(
    hasher: LocalPackageHashes<S, W, D, R>,
    parts: HasherParts<S, W, D, R>,
) -> bool {
    &&& hasher.scm == parts.scm
    &&& hasher.workspaces == parts.workspaces
    &&& hasher.task_definitions == parts.task_definitions
    &&& hasher.repo_root == parts.repo_root
    &&& hasher.tasks@.len() == 0
}

/// What is to be done next to keep the hasher up to date. A root turbo.json is a
/// `T`, a package graph a `G`.
#[derive(Debug)]
pub enum HasherAction<T, G, S, W, D, R> {
    /// Wait until the root turbo.json or the package graph changes.
    AwaitChange,
    /// Look up the package graph, for this root turbo.json.
    FetchGraph(Numbered<T>),
    /// Look up the root turbo.json, for this package graph.
    FetchTurboJson(Numbered<G>),
    /// Define the tasks, and bring what a hasher is made of.
    CreateHasher(Numbered<T>, Numbered<G>),
    /// Look up the hashes of the tasks.
    FetchTaskHashes(FreshHasher<S, W, D, R>),
    /// Withdraw the hashes of the tasks, which are then to be hashed again.
    ClearTaskHashes(FreshHasher<S, W, D, R>, Vec<TaskNode>),
    /// Hash these tasks.
    CalculateHashes(FreshHasher<S, W, D, R>, Vec<TaskNode>),
    /// Publish the hashes of the tasks, or that there are none, and then the
    /// hasher.
    PublishTaskHashes(FreshHasher<S, W, D, R>, Option<AssocMap<TaskId, String>>),
    /// Publish the hasher.
    PublishHasher(FreshHasher<S, W, D, R>),
    /// There is nothing left to keep up to date.
    Stop,
}

/// What is to be done next for the hasher.
#[verifier::ext_equal]
pub enum HasherActionView<T, G, S, W, D, R> {
    AwaitChange,
    FetchGraph(Numbered<T>),
    FetchTurboJson(Numbered<G>),
    CreateHasher(Numbered<T>, Numbered<G>),
    FetchTaskHashes(FreshHasher<S, W, D, R>),
    ClearTaskHashes(FreshHasher<S, W, D, R>, Seq<TaskNodeView>),
    CalculateHashes(FreshHasher<S, W, D, R>, Seq<TaskNodeView>),
    PublishTaskHashes(FreshHasher<S, W, D, R>, Option<Map<(Seq<char>, Seq<char>), Seq<char>>>),
    PublishHasher(FreshHasher<S, W, D, R>),
    Stop,
}

impl<T, G, S, W, D, R> View for HasherAction<T, G, S, W, D, R> {
    type V = HasherActionView<T, G, S, W, D, R>;

    open spec fn view(&self) -> HasherActionView<T, G, S, W, D, R> {
        match *self {
            HasherAction::AwaitChange => HasherActionView::AwaitChange,
            HasherAction::FetchGraph(json) => HasherActionView::FetchGraph(json),
            HasherAction::FetchTurboJson(graph) => HasherActionView::FetchTurboJson(graph),
            HasherAction::CreateHasher(json, graph) => HasherActionView::CreateHasher(json, graph),
            HasherAction::FetchTaskHashes(hasher) => HasherActionView::FetchTaskHashes(hasher),
            HasherAction::ClearTaskHashes(hasher, tasks) => HasherActionView::ClearTaskHashes(
                hasher,
                task_nodes(tasks@),
            ),
            HasherAction::CalculateHashes(hasher, tasks) => HasherActionView::CalculateHashes(
                hasher,
                task_nodes(tasks@),
            ),
            HasherAction::PublishTaskHashes(hasher, Some(hashes)) => {
                HasherActionView::PublishTaskHashes(hasher, Some(hashes@))
            },
            HasherAction::PublishTaskHashes(hasher, None) => HasherActionView::PublishTaskHashes(
                hasher,
                None,
            ),
            HasherAction::PublishHasher(hasher) => HasherActionView::PublishHasher(hasher),
            HasherAction::Stop => HasherActionView::Stop,
        }
    }
}

/// What came of an action for the hasher.
#[derive(Debug)]
pub enum HasherReport<T, G, S, W, D, R> {
    /// There will be no more changes.
    Closed,
    /// The root turbo.json.
    TurboJson(Numbered<T>),
    /// The package graph.
    Graph(Numbered<G>),
    /// What was looked up is not there.
    Missing,
    /// What the hasher is made of, if the tasks could be defined.
    Created(Option<HasherParts<S, W, D, R>>),
    /// The hashes of the tasks, if there are any.
    TaskHashes(Option<AssocMap<TaskId, String>>),
    /// The new hashes, if they could be calculated.
    Hashed(Option<PackageInputsHashes>),
    /// Whether somebody listens.
    Delivered(bool),
}

/// What came of an action for the hasher.
pub enum HasherReportView<T, G, S, W, D, R> {
    Closed,
    TurboJson(Numbered<T>),
    Graph(Numbered<G>),
    Missing,
    Created(Option<HasherParts<S, W, D, R>>),
    TaskHashes(Option<Map<(Seq<char>, Seq<char>), Seq<char>>>),
    Hashed(Option<PackageInputsHashesView>),
    Delivered(bool),
}

impl<T, G, S, W, D, R> View for HasherReport<T, G, S, W, D, R> {
    type V = HasherReportView<T, G, S, W, D, R>;

    open spec fn view(&self) -> HasherReportView<T, G, S, W, D, R> {
        match *self {
            HasherReport::Closed => HasherReportView::Closed,
            HasherReport::TurboJson(json) => HasherReportView::TurboJson(json),
            HasherReport::Graph(graph) => HasherReportView::Graph(graph),
            HasherReport::Missing => HasherReportView::Missing,
            HasherReport::Created(parts) => HasherReportView::Created(parts),
            HasherReport::TaskHashes(Some(hashes)) => HasherReportView::TaskHashes(Some(hashes@)),
            HasherReport::TaskHashes(None) => HasherReportView::TaskHashes(None),
            HasherReport::Hashed(Some(hashes)) => HasherReportView::Hashed(Some(hashes@)),
            HasherReport::Hashed(None) => HasherReportView::Hashed(None),
            HasherReport::Delivered(yes) => HasherReportView::Delivered(yes),
        }
    }
}

/// Whether an action can have come to this.
pub open spec fn hasher_answers<T, G, S, W, D, R>(
    action: HasherActionView<T, G, S, W, D, R>,
    report: HasherReportView<T, G, S, W, D, R>,
) -> bool {
    match action {
        HasherActionView::AwaitChange => report is Closed || report is TurboJson || report is Graph,
        HasherActionView::FetchGraph(_) => report is Graph || report is Missing,
        HasherActionView::FetchTurboJson(_) => report is TurboJson || report is Missing,
        HasherActionView::CreateHasher(_, _) => report is Created,
        HasherActionView::FetchTaskHashes(_) => report is TaskHashes,
        HasherActionView::ClearTaskHashes(_, _) => report is Delivered,
        HasherActionView::CalculateHashes(_, _) => report is Hashed,
        HasherActionView::PublishTaskHashes(_, _) => report is Delivered,
        HasherActionView::PublishHasher(_) => report is Delivered,
        HasherActionView::Stop => false,
    }
}

/// Whether `next` is what is to be done after `action` came to `report`.
pub open spec fn hasher_follows<T, G, S, W, D, R>(
    action: HasherActionView<T, G, S, W, D, R>,
    report: HasherReportView<T, G, S, W, D, R>,
    next: HasherActionView<T, G, S, W, D, R>,
) -> bool {
    match (action, report) {
        (HasherActionView::AwaitChange, HasherReportView::TurboJson(json)) => next
            == HasherActionView::<T, G, S, W, D, R>::FetchGraph(json),
        (HasherActionView::AwaitChange, HasherReportView::Graph(graph)) => next
            == HasherActionView::<T, G, S, W, D, R>::FetchTurboJson(graph),
        (HasherActionView::FetchGraph(json), HasherReportView::Graph(graph)) => next
            == HasherActionView::<T, G, S, W, D, R>::CreateHasher(json, graph),
        (HasherActionView::FetchTurboJson(graph), HasherReportView::TurboJson(json)) => next
            == HasherActionView::<T, G, S, W, D, R>::CreateHasher(json, graph),
        (HasherActionView::CreateHasher(json, graph), HasherReportView::Created(Some(parts))) => {
            next matches HasherActionView::FetchTaskHashes(fresh) && fresh.files == (RootFiles {
                package_json: graph.number,
                turbo_json: json.number,
            }) && is_made_of(fresh.hasher, parts)
        },
        (HasherActionView::FetchTaskHashes(hasher), HasherReportView::TaskHashes(Some(hashes))) => {
            next matches HasherActionView::ClearTaskHashes(same, tasks) && same == hasher && lists(
                tasks,
                hashes.dom(),
            )
        },
        (HasherActionView::FetchTaskHashes(hasher), HasherReportView::TaskHashes(None)) => next
            == HasherActionView::<T, G, S, W, D, R>::PublishTaskHashes(hasher, None),
        (HasherActionView::ClearTaskHashes(hasher, tasks), HasherReportView::Delivered(true)) => {
            next == HasherActionView::<T, G, S, W, D, R>::CalculateHashes(hasher, tasks)
        },
        (HasherActionView::CalculateHashes(hasher, _), HasherReportView::Hashed(Some(hashes))) => {
            next == HasherActionView::<T, G, S, W, D, R>::PublishTaskHashes(hasher, Some(hashes.hashes))
        },
        (HasherActionView::PublishTaskHashes(hasher, _), HasherReportView::Delivered(true)) => next
            == HasherActionView::<T, G, S, W, D, R>::PublishHasher(hasher),
        (HasherActionView::PublishHasher(_), HasherReportView::Delivered(true)) => next
            == HasherActionView::<T, G, S, W, D, R>::AwaitChange,
        _ => next == HasherActionView::<T, G, S, W, D, R>::Stop,
    }
}

/// All the tasks that have a hash.
fn all_tasks(task_hashes: &AssocMap<TaskId, String>) -> (tasks: Vec<TaskNode>)
    ensures
        lists(task_nodes(tasks@), task_hashes@.dom()),
{
    let ids = task_hashes.keys();
    let mut tasks: Vec<TaskNode> = Vec::new();
    let mut i: usize = 0;
    while i < ids.len()
        invariant
            i <= ids@.len(),
            tasks@.len() == i,
            forall|j: int| 0 <= j < i ==> (#[trigger] tasks@[j])@ == TaskNodeView::Task(ids@[j]@),
        decreases ids@.len() - i,
    {
        tasks.push(TaskNode::Task(TaskId::new(ids[i].package(), ids[i].task())));
        i += 1;
    }
    proof {
        let list = task_nodes(tasks@);
        assert(list.no_duplicates()) by {
            assert forall|j: int, k: int|
                0 <= j < list.len() && 0 <= k < list.len() && j != k implies list[j] != list[k] by {
                assert(tasks@[j]@ == TaskNodeView::Task(ids@[j]@));
                assert(tasks@[k]@ == TaskNodeView::Task(ids@[k]@));
            }
        }
        assert forall|node: TaskNodeView| #[trigger] list.contains(node) <==> (
        node matches TaskNodeView::Task(id) && task_hashes@.dom().contains(id)) by {
            if list.contains(node) {
                let j = choose|j: int| 0 <= j < list.len() && list[j] == node;
                assert(tasks@[j]@ == TaskNodeView::Task(ids@[j]@));
            }
            if node matches TaskNodeView::Task(id) && task_hashes@.dom().contains(id) {
                let k = choose|k: int| 0 <= k < ids@.len() && #[trigger] ids@[k]@ == node->Task_0;
                assert(tasks@[k]@ == node);
                assert(list[k] == node);
            }
        }
    }
    tasks
}

/// When the list of packages changes, or the root package description changes,
/// a hasher is made that knows the right globs and task definitions, and the
/// hashes of all tasks are replaced by those that it gives. Says what is to be
/// done after `action` came to `report`.
pub fn update_package_hasher<T, G, S, W, D, R>(
    action: HasherAction<T, G, S, W, D, R>,
    report: HasherReport<T, G, S, W, D, R>,
) -> (next: HasherAction<T, G, S, W, D, R>)
    requires
        hasher_answers(action@, report@),
    ensures
        hasher_follows(action@, report@, next@),
{
    match (action, report) {
        (HasherAction::AwaitChange, HasherReport::TurboJson(json)) => {
            HasherAction::FetchGraph(json)
        },
        (HasherAction::AwaitChange, HasherReport::Graph(graph)) => {
            HasherAction::FetchTurboJson(graph)
        },
        (HasherAction::FetchGraph(json), HasherReport::Graph(graph)) => {
            HasherAction::CreateHasher(json, graph)
        },
        (HasherAction::FetchTurboJson(graph), HasherReport::TurboJson(json)) => {
            HasherAction::CreateHasher(json, graph)
        },
        (HasherAction::CreateHasher(json, graph), HasherReport::Created(Some(parts))) => {
            let files = RootFiles { package_json: graph.number, turbo_json: json.number };
            let hasher = LocalPackageHashes::new(
                parts.scm,
                parts.workspaces,
                Vec::new(),
                parts.task_definitions,
                parts.repo_root,
            );
            HasherAction::FetchTaskHashes(FreshHasher { files, hasher })
        },
        (HasherAction::FetchTaskHashes(hasher), HasherReport::TaskHashes(Some(hashes))) => {
            HasherAction::ClearTaskHashes(hasher, all_tasks(&hashes))
        },
        // without hashes to replace, the hasher is new all the same
        (HasherAction::FetchTaskHashes(hasher), HasherReport::TaskHashes(None)) => {
            HasherAction::PublishTaskHashes(hasher, None)
        },
        (HasherAction::ClearTaskHashes(hasher, tasks), HasherReport::Delivered(true)) => {
            HasherAction::CalculateHashes(hasher, tasks)
        },
        // if the hashes cannot be calculated, there is no hasher
        (HasherAction::CalculateHashes(hasher, _), HasherReport::Hashed(Some(hashes))) => {
            HasherAction::PublishTaskHashes(hasher, Some(hashes.hashes))
        },
        (HasherAction::PublishTaskHashes(hasher, _), HasherReport::Delivered(true)) => {
            HasherAction::PublishHasher(hasher)
        },
        (HasherAction::PublishHasher(_), HasherReport::Delivered(true)) => {
            HasherAction::AwaitChange
        },
        _ => HasherAction::Stop,
    }
}

/// The hasher is kept up to date until there are no more changes, one of the two
/// things that it is made from is not there, the tasks cannot be defined or
/// hashed, or nobody listens.
pub proof fn when_the_hasher_is_given_up<T, G, S, W, D, R>(
    action: HasherActionView<T, G, S, W, D, R>,
    report: HasherReportView<T, G, S, W, D, R>,
    next: HasherActionView<T, G, S, W, D, R>,
)
    requires
        hasher_answers(action, report),
        hasher_follows(action, report, next),
    ensures
        next is Stop <==> (report is Closed || report is Missing || report
            == HasherReportView::<T, G, S, W, D, R>::Created(None) || report
            == HasherReportView::<T, G, S, W, D, R>::Hashed(None) || report
            == HasherReportView::<T, G, S, W, D, R>::Delivered(false)),
{
}

/// One turn of keeping the hasher up to date.
pub struct HasherTurn<T, G, S, W, D, R> {
    pub action: HasherActionView<T, G, S, W, D, R>,
    pub report: HasherReportView<T, G, S, W, D, R>,
}

/// Whether these are turns of keeping the hasher up to date, from the first on.
pub open spec fn is_hasher_run<T, G, S, W, D, R>(turns: Seq<HasherTurn<T, G, S, W, D, R>>) -> bool {
    &&& turns.len() > 0
    &&& turns[0].action is AwaitChange
    &&& forall|i: int, j: int|
        0 <= i < turns.len() && j == i + 1 && j < turns.len() ==> {
            &&& hasher_answers((#[trigger] turns[i]).action, turns[i].report)
            &&& hasher_follows(turns[i].action, turns[i].report, (#[trigger] turns[j]).action)
        }
}

/// A hasher is published only after the hashes were, and somebody took them: those
/// that it calculated of all the tasks that had one, or none where none had.
pub proof fn hasher_comes_with_its_hashes<T, G, S, W, D, R>(
    turns: Seq<HasherTurn<T, G, S, W, D, R>>,
    i: int,
    hasher: FreshHasher<S, W, D, R>,
)
    requires
        is_hasher_run(turns),
        0 <= i < turns.len(),
        turns[i].action == HasherActionView::<T, G, S, W, D, R>::PublishHasher(hasher),
    ensures
        i >= 2,
        turns[i - 1].report == HasherReportView::<T, G, S, W, D, R>::Delivered(true),
        match turns[i - 1].action {
            HasherActionView::PublishTaskHashes(same, None) => {
                &&& same == hasher
                &&& turns[i - 2].action == HasherActionView::<T, G, S, W, D, R>::FetchTaskHashes(hasher)
                &&& turns[i - 2].report == HasherReportView::<T, G, S, W, D, R>::TaskHashes(None)
            },
            HasherActionView::PublishTaskHashes(same, Some(hashes)) => {
                &&& same == hasher
                &&& i >= 4
                &&& turns[i - 2].report matches HasherReportView::Hashed(Some(new)) && new.hashes
                    == hashes
                &&& turns[i - 4].action == HasherActionView::<T, G, S, W, D, R>::FetchTaskHashes(hasher)
                &&& turns[i - 4].report matches HasherReportView::TaskHashes(Some(held)) && (turns[i
                    - 2].action matches HasherActionView::CalculateHashes(same, tasks) && same
                    == hasher && lists(tasks, held.dom()))
            },
            _ => false,
        },
{
    assert(hasher_follows(turns[i - 1].action, turns[i - 1].report, turns[i].action));
    assert(i >= 2);
    assert(hasher_follows(turns[i - 2].action, turns[i - 2].report, turns[i - 1].action));
    assert(i >= 3);
    assert(hasher_follows(turns[i - 3].action, turns[i - 3].report, turns[i - 2].action));
    if turns[i - 2].action is CalculateHashes {
        assert(i >= 4);
        assert(hasher_follows(turns[i - 4].action, turns[i - 4].report, turns[i - 3].action));
    }
}

/// Whether the hasher is made in this turn, of the parts that are brought, from the root
/// turbo.json and the package graph whose numbers it bears.
pub open spec fn made_from<T, G, S, W, D, R>(
    turn: HasherTurn<T, G, S, W, D, R>,
    hasher: FreshHasher<S, W, D, R>,
) -> bool {
    &&& turn.report matches HasherReportView::Created(Some(parts)) && is_made_of(
        hasher.hasher,
        parts,
    )
    &&& turn.action matches HasherActionView::CreateHasher(json, graph) && hasher.files == (
    RootFiles { package_json: graph.number, turbo_json: json.number })
}

/// A hasher that is published was made before, and bears the numbers of the root
/// turbo.json and of the package graph that it was made from.
pub proof fn hasher_bears_its_numbers<T, G, S, W, D, R>(
    turns: Seq<HasherTurn<T, G, S, W, D, R>>,
    i: int,
    hasher: FreshHasher<S, W, D, R>,
)
    requires
        is_hasher_run(turns),
        0 <= i < turns.len(),
        turns[i].action == HasherActionView::<T, G, S, W, D, R>::PublishHasher(hasher),
    ensures
        exists|m: int| 0 <= m < i && made_from(#[trigger] turns[m], hasher),
{
    hasher_comes_with_its_hashes(turns, i, hasher);
    if turns[i - 2].action is CalculateHashes {
        assert(i >= 5);
        assert(hasher_follows(turns[i - 5].action, turns[i - 5].report, turns[i - 4].action));
        assert(made_from(turns[i - 5], hasher));
    } else {
        assert(i >= 3);
        assert(hasher_follows(turns[i - 3].action, turns[i - 3].report, turns[i - 2].action));
        assert(made_from(turns[i - 3], hasher));
    }
}

/// A package graph that is published bears the number of the root package description
/// that it was built from.
pub proof fn graph_bears_its_number<P, R, M, G>(
    action: GraphAction<P, R, M, G>,
    report: GraphReport<P, R, M, G>,
    graph: Numbered<G>,
)
    requires
        graph_answers(action, report),
        graph_next(action, report) == GraphAction::<P, R, M, G>::Publish(Some(graph)),
    ensures
        report == GraphReport::<P, R, M, G>::Built(Some(graph.value)),
        action matches GraphAction::Build(_, json, _) && json.number == graph.number,
{
}

/// What a file event publishes reaches the tasks: if a root file changed, all tasks
/// are hashed again, and the hasher that was waited for was made, from a root
/// turbo.json and a package graph that are no older than the root files that were
/// published.
pub proof fn root_files_reach_the_tasks<P, T, G, S, W, D, R>(
    event: FileEventView,
    repo_root: Seq<Seq<char>>,
    turns: Seq<Turn<P>>,
    i: int,
    j: int,
    tasks: Seq<TaskNodeView>,
    hasher_turns: Seq<HasherTurn<T, G, S, W, D, R>>,
    k: int,
    hasher: FreshHasher<S, W, D, R>,
)
    requires
        is_run(event, repo_root, turns),
        root_file_changed(event, repo_root),
        0 <= i < j < turns.len(),
        publishes(turns[i]) != Published::nothing(),
        turns[j].action == ActionView::<P>::CalculateHashes(tasks),
        is_hasher_run(hasher_turns),
        0 <= k < hasher_turns.len(),
        hasher_turns[k].action == HasherActionView::<T, G, S, W, D, R>::PublishHasher(hasher),
        turns[j - 1].report == ReportView::<P>::NewHasher(Some(hasher.files)),
    ensures
        lists(tasks, turns[0].task_hashes.dom()),
        exists|m: int|
            0 <= m < k && made_from(#[trigger] hasher_turns[m], hasher) && {
                &&& publishes(turns[i]).turbo_json matches Some(n) ==> n
                    <= hasher_turns[m].action->CreateHasher_0.number
                &&& publishes(turns[i]).package_json matches Some(n) ==> n
                    <= hasher_turns[m].action->CreateHasher_1.number
            },
{
    root_files_have_all_hashed_again(event, repo_root, turns, j, tasks);
    hasher_bears_its_numbers(hasher_turns, k, hasher);
    let m = choose|m: int| 0 <= m < k && made_from(#[trigger] hasher_turns[m], hasher);
    assert(made_from(hasher_turns[m], hasher));
}

/// A new root turbo.json or a new package graph has all tasks hashed again that
/// have a hash, unless keeping the hasher is given up before.
pub proof fn all_tasks_are_hashed_again<T, G, S, W, D, R>(
    turns: Seq<HasherTurn<T, G, S, W, D, R>>,
    i: int,
    held: Map<(Seq<char>, Seq<char>), Seq<char>>,
)
    requires
        is_hasher_run(turns),
        0 <= i,
        i + 5 < turns.len(),
        turns[i].action is AwaitChange,
        turns[i + 3].report == HasherReportView::<T, G, S, W, D, R>::TaskHashes(Some(held)),
        turns[i + 5].action !is Stop,
    ensures
        turns[i + 3].action is FetchTaskHashes,
        turns[i + 5].action matches HasherActionView::CalculateHashes(_, tasks) && lists(
            tasks,
            held.dom(),
        ),
{
    assert(hasher_answers(turns[i].action, turns[i].report));
    assert(hasher_follows(turns[i].action, turns[i].report, turns[i + 1].action));
    assert(hasher_answers(turns[i + 1].action, turns[i + 1].report));
    assert(hasher_follows(turns[i + 1].action, turns[i + 1].report, turns[i + 2].action));
    assert(hasher_answers(turns[i + 2].action, turns[i + 2].report));
    assert(hasher_follows(turns[i + 2].action, turns[i + 2].report, turns[i + 3].action));
    assert(hasher_answers(turns[i + 3].action, turns[i + 3].report));
    assert(hasher_follows(turns[i + 3].action, turns[i + 3].report, turns[i + 4].action));
    assert(hasher_answers(turns[i + 4].action, turns[i + 4].report));
    assert(hasher_follows(turns[i + 4].action, turns[i + 4].report, turns[i + 5].action));
}

/// Whichever of the two changes, the package graph is built from the list of packages,
/// the root package description and the package manager, as they are, and is published
/// under the number of that description. If it cannot be built, that there is none is
/// published. Once it was taken, the next change is waited for.
pub proof fn the_graph_is_built_from_all_three<P, R, M, G>(
    packages: P,
    json: Numbered<R>,
    manager: M,
    graph: Option<G>,
    list_first: bool,
    fetching: GraphAction<P, R, M, G>,
    asking: GraphAction<P, R, M, G>,
    building: GraphAction<P, R, M, G>,
    publishing: GraphAction<P, R, M, G>,
    waiting: GraphAction<P, R, M, G>,
)
    requires
        list_first ==> call_ensures(
            update_package_graph::<P, R, M, G>,
            (GraphAction::<P, R, M, G>::AwaitChange, GraphReport::<P, R, M, G>::Packages(packages)),
            fetching,
        ) && call_ensures(
            update_package_graph::<P, R, M, G>,
            (fetching, GraphReport::<P, R, M, G>::RootPackageJson(json)),
            asking,
        ),
        !list_first ==> call_ensures(
            update_package_graph::<P, R, M, G>,
            (
                GraphAction::<P, R, M, G>::AwaitChange,
                GraphReport::<P, R, M, G>::RootPackageJson(json),
            ),
            fetching,
        ) && call_ensures(
            update_package_graph::<P, R, M, G>,
            (fetching, GraphReport::<P, R, M, G>::Packages(packages)),
            asking,
        ),
        call_ensures(
            update_package_graph::<P, R, M, G>,
            (asking, GraphReport::<P, R, M, G>::Manager(Some(manager))),
            building,
        ),
        call_ensures(
            update_package_graph::<P, R, M, G>,
            (building, GraphReport::<P, R, M, G>::Built(graph)),
            publishing,
        ),
        call_ensures(
            update_package_graph::<P, R, M, G>,
            (publishing, GraphReport::<P, R, M, G>::Delivered(true)),
            waiting,
        ),
    ensures
        fetching is FetchRootPackageJson <==> list_first,
        fetching is FetchPackages <==> !list_first,
        asking is FetchManager,
        building matches GraphAction::Build(p, j, m) && p == packages && j == json && m == manager,
        publishing matches GraphAction::Publish(published) && match graph {
            Some(graph) => published matches Some(published) && published.number == json.number
                && published.value == graph,
            None => published is None,
        },
        waiting is AwaitChange,
{
}

/// Keeping the package graph is given up when there are no more changes, when the
/// package manager is not known, and when nobody listens, and at no other time.
pub proof fn the_graph_is_given_up_for_a_reason<P, R, M, G>(
    action: GraphAction<P, R, M, G>,
    report: GraphReport<P, R, M, G>,
    next: GraphAction<P, R, M, G>,
)
    requires
        graph_answers(action, report),
        call_ensures(update_package_graph::<P, R, M, G>, (action, report), next),
    ensures
        next is Stop <==> match report {
            GraphReport::Closed => true,
            GraphReport::Manager(manager) => manager is None,
            GraphReport::Delivered(taken) => !taken,
            _ => false,
        },
{
}

/// Whichever of the two changes, the hasher is made of the parts that the root
/// turbo.json and the package graph come to, with no tasks of its own, and bears the
/// numbers of both.
pub proof fn the_hasher_is_made_of_its_parts<T, G, S, W, D, R>(
    json: Numbered<T>,
    graph: Numbered<G>,
    parts: HasherParts<S, W, D, R>,
    json_first: bool,
    fetching: HasherAction<T, G, S, W, D, R>,
    creating: HasherAction<T, G, S, W, D, R>,
    created: HasherAction<T, G, S, W, D, R>,
)
    requires
        json_first ==> call_ensures(
            update_package_hasher::<T, G, S, W, D, R>,
            (
                HasherAction::<T, G, S, W, D, R>::AwaitChange,
                HasherReport::<T, G, S, W, D, R>::TurboJson(json),
            ),
            fetching,
        ) && call_ensures(
            update_package_hasher::<T, G, S, W, D, R>,
            (fetching, HasherReport::<T, G, S, W, D, R>::Graph(graph)),
            creating,
        ),
        !json_first ==> call_ensures(
            update_package_hasher::<T, G, S, W, D, R>,
            (
                HasherAction::<T, G, S, W, D, R>::AwaitChange,
                HasherReport::<T, G, S, W, D, R>::Graph(graph),
            ),
            fetching,
        ) && call_ensures(
            update_package_hasher::<T, G, S, W, D, R>,
            (fetching, HasherReport::<T, G, S, W, D, R>::TurboJson(json)),
            creating,
        ),
        call_ensures(
            update_package_hasher::<T, G, S, W, D, R>,
            (creating, HasherReport::<T, G, S, W, D, R>::Created(Some(parts))),
            created,
        ),
    ensures
        creating@ matches HasherActionView::CreateHasher(j, g) && j == json && g == graph,
        created@ matches HasherActionView::FetchTaskHashes(fresh) && {
            &&& fresh.files.turbo_json == json.number
            &&& fresh.files.package_json == graph.number
            &&& fresh.hasher.scm == parts.scm
            &&& fresh.hasher.workspaces == parts.workspaces
            &&& fresh.hasher.task_definitions == parts.task_definitions
            &&& fresh.hasher.repo_root == parts.repo_root
            &&& fresh.hasher.tasks@.len() == 0
        },
{
}

/// A new hasher hashes every task again that has a hash, each once, and no others. Their
/// hashes are withdrawn before.
pub proof fn every_task_with_a_hash_is_hashed_again<T, G, S, W, D, R>(
    fresh: FreshHasher<S, W, D, R>,
    held: AssocMap<TaskId, String>,
    clearing: HasherAction<T, G, S, W, D, R>,
    hashing: HasherAction<T, G, S, W, D, R>,
    task: (Seq<char>, Seq<char>),
)
    requires
        call_ensures(
            update_package_hasher::<T, G, S, W, D, R>,
            (
                HasherAction::<T, G, S, W, D, R>::FetchTaskHashes(fresh),
                HasherReport::<T, G, S, W, D, R>::TaskHashes(Some(held)),
            ),
            clearing,
        ),
        call_ensures(
            update_package_hasher::<T, G, S, W, D, R>,
            (clearing, HasherReport::<T, G, S, W, D, R>::Delivered(true)),
            hashing,
        ),
    ensures
        clearing@ is ClearTaskHashes,
        hashing@ matches HasherActionView::CalculateHashes(same, tasks) && {
            &&& same == fresh
            &&& tasks.contains(TaskNodeView::Task(task)) <==> held@.contains_key(task)
            &&& !tasks.contains(TaskNodeView::Root)
            &&& forall|m: int, n: int| 0 <= m < n < tasks.len() ==> tasks[m] != tasks[n]
        },
{
}

/// The hashes that the new hasher calculated are published, all of them, and that there
/// are none if there were none to replace. After them that hasher is published, and
/// after it the next change is waited for.
pub proof fn the_new_hashes_come_before_the_hasher<T, G, S, W, D, R>(
    fresh: FreshHasher<S, W, D, R>,
    tasks: Vec<TaskNode>,
    new: Option<PackageInputsHashes>,
    publishing: HasherAction<T, G, S, W, D, R>,
    handing: HasherAction<T, G, S, W, D, R>,
    waiting: HasherAction<T, G, S, W, D, R>,
)
    requires
        new matches Some(_) ==> call_ensures(
            update_package_hasher::<T, G, S, W, D, R>,
            (
                HasherAction::<T, G, S, W, D, R>::CalculateHashes(fresh, tasks),
                HasherReport::<T, G, S, W, D, R>::Hashed(new),
            ),
            publishing,
        ),
        new is None ==> call_ensures(
            update_package_hasher::<T, G, S, W, D, R>,
            (
                HasherAction::<T, G, S, W, D, R>::FetchTaskHashes(fresh),
                HasherReport::<T, G, S, W, D, R>::TaskHashes(None),
            ),
            publishing,
        ),
        call_ensures(
            update_package_hasher::<T, G, S, W, D, R>,
            (publishing, HasherReport::<T, G, S, W, D, R>::Delivered(true)),
            handing,
        ),
        call_ensures(
            update_package_hasher::<T, G, S, W, D, R>,
            (handing, HasherReport::<T, G, S, W, D, R>::Delivered(true)),
            waiting,
        ),
    ensures
        publishing@ matches HasherActionView::PublishTaskHashes(same, hashes) && same == fresh
            && match new {
            Some(new) => hashes matches Some(hashes) && hashes == new.hashes@,
            None => hashes is None,
        },
        handing@ matches HasherActionView::PublishHasher(same) && same == fresh,
        waiting@ is AwaitChange,
{
}

/// Keeping the hasher is given up when there are no more changes, when one of the two
/// things that it is made from is not there, when the tasks cannot be defined or hashed,
/// and when nobody listens, and at no other time.
pub proof fn the_hasher_is_given_up_for_a_reason<T, G, S, W, D, R>(
    action: HasherAction<T, G, S, W, D, R>,
    report: HasherReport<T, G, S, W, D, R>,
    next: HasherAction<T, G, S, W, D, R>,
)
    requires
        hasher_answers(action@, report@),
        call_ensures(update_package_hasher::<T, G, S, W, D, R>, (action, report), next),
    ensures
        next@ is Stop <==> match report {
            HasherReport::Closed | HasherReport::Missing => true,
            HasherReport::Created(parts) => parts is None,
            HasherReport::Hashed(hashes) => hashes is None,
            HasherReport::Delivered(taken) => !taken,
            _ => false,
        },
{
}

/// An action is seen with all that it names.
pub proof fn hasher_actions_are_seen_whole<T, G, S, W, D, R>(
    fresh: FreshHasher<S, W, D, R>,
    tasks: Vec<TaskNode>,
    hashes: AssocMap<TaskId, String>,
    json: Numbered<T>,
    graph: Numbered<G>,
)
    ensures
        HasherAction::<T, G, S, W, D, R>::CalculateHashes(fresh, tasks)@ == HasherActionView::<
            T,
            G,
            S,
            W,
            D,
            R,
        >::CalculateHashes(fresh, task_nodes(tasks@)),
        HasherAction::<T, G, S, W, D, R>::ClearTaskHashes(fresh, tasks)@ == HasherActionView::<
            T,
            G,
            S,
            W,
            D,
            R,
        >::ClearTaskHashes(fresh, task_nodes(tasks@)),
        HasherAction::<T, G, S, W, D, R>::PublishTaskHashes(fresh, Some(hashes))@
            == HasherActionView::<T, G, S, W, D, R>::PublishTaskHashes(fresh, Some(hashes@)),
        HasherAction::<T, G, S, W, D, R>::PublishHasher(fresh)@ == HasherActionView::<
            T,
            G,
            S,
            W,
            D,
            R,
        >::PublishHasher(fresh),
        HasherAction::<T, G, S, W, D, R>::CreateHasher(json, graph)@ == HasherActionView::<
            T,
            G,
            S,
            W,
            D,
            R,
        >::CreateHasher(json, graph),
{
}

} // verus!
