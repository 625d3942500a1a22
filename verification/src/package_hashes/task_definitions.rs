//! The tasks that a pipeline defines for the packages of a repository.
use crate::task_id::{TaskId, TaskName, TaskNameView};
use itertools::Itertools;
use vstd::prelude::*;

verus! {

/// The elements of `s`, each where it first occurs.
pub open spec fn first_occurrences<T>(s: Seq<T>) -> Seq<T>
    decreases s.len(),
{
    if s.len() == 0 {
        seq![]
    } else if s.drop_last().contains(s.last()) {
        first_occurrences(s.drop_last())
    } else {
        first_occurrences(s.drop_last()).push(s.last())
    }
}

/// What the names of a pipeline stand for in a package.
pub open spec fn tasks_of_package(package: Seq<char>, pipeline: Seq<TaskNameView>) -> Seq<
    (Seq<char>, Seq<char>),
> {
    pipeline.map_values(|name: TaskNameView| name.within(package))
}

/// What the names of a pipeline stand for in each of the packages.
pub open spec fn tasks_of_packages(
    packages: Seq<Seq<char>>,
    pipeline: Seq<TaskNameView>,
) -> Seq<(Seq<char>, Seq<char>)>
    decreases packages.len(),
{
    if packages.len() == 0 {
        seq![]
    } else {
        tasks_of_packages(packages.drop_last(), pipeline) + tasks_of_package(
            packages.last(),
            pipeline,
        )
    }
}

/// The names of a pipeline.
pub open spec fn names(pipeline: Seq<TaskName>) -> Seq<TaskNameView> {
    pipeline.map_values(|name: TaskName| name@)
}

/// The tasks of a list.
pub open spec fn ids(tasks: Seq<TaskId>) -> Seq<(Seq<char>, Seq<char>)> {
    tasks.map_values(|task: TaskId| task@)
}

/// Calls `Itertools::unique`, which hands on each element that was not handed
/// on before, in order.
#[verifier::external_body]
fn unique(elements: Vec<(String, String)>) -> (kept: Vec<(String, String)>)
    ensures
        kept.deep_view() == first_occurrences(elements.deep_view()),
{
    elements.into_iter().unique().collect()
}

/// The tasks that a pipeline defines: what each of its names stands for in each
/// of the packages, every task once.
pub fn task_ids(packages: &Vec<String>, pipeline: &Vec<TaskName>) -> (tasks: Vec<TaskId>)
    ensures
        ids(tasks@) == first_occurrences(
            tasks_of_packages(packages.deep_view(), names(pipeline@)),
        ),
{
    let ghost all_names = names(pipeline@);
    let ghost all_packages = packages.deep_view();
    let mut all: Vec<(String, String)> = Vec::new();
    let mut i: usize = 0;
    assert(all.deep_view() == tasks_of_packages(all_packages.take(0), all_names));
    while i < packages.len()
        invariant
            i <= packages@.len(),
            all_names == names(pipeline@),
            all_packages == packages.deep_view(),
            all.deep_view() == tasks_of_packages(all_packages.take(i as int), all_names),
        decreases packages@.len() - i,
    {
        let ghost before = all.deep_view();
        let ghost here = tasks_of_package(all_packages[i as int], all_names);
        let mut j: usize = 0;
        assert(before + here.take(0) == before);
        while j < pipeline.len()
            invariant
                i < packages@.len(),
                j <= pipeline@.len(),
                all_names == names(pipeline@),
                here == tasks_of_package(packages@[i as int]@, all_names),
                all.deep_view() == before + here.take(j as int),
            decreases pipeline@.len() - j,
        {
            let task = pipeline[j].task_id_within(packages[i].as_str());
            let ghost sofar = all.deep_view();
            all.push((task.package, task.task));
            assert(all.deep_view() == sofar.push(here[j as int]));
            assert(before + here.take(j + 1) == (before + here.take(j as int)).push(
                here[j as int],
            ));
            j += 1;
        }
        assert(here.take(pipeline@.len() as int) == here);
        assert(all_packages.take(i + 1).drop_last() == all_packages.take(i as int));
        i += 1;
    }
    assert(all_packages.take(packages@.len() as int) == all_packages);
    let rest = unique(all);
    let ghost kept = rest.deep_view();
    let mut tasks: Vec<TaskId> = Vec::new();
    let mut k: usize = 0;
    while k < rest.len()
        invariant
            k <= rest@.len(),
            kept == rest.deep_view(),
            ids(tasks@) == kept.take(k as int),
        decreases rest@.len() - k,
    {
        tasks.push(TaskId::new(rest[k].0.as_str(), rest[k].1.as_str()));
        assert(ids(tasks@) == kept.take(k as int).push(kept[k as int]));
        k += 1;
    }
    assert(kept.take(rest@.len() as int) == kept);
    tasks
}

/// No task is defined twice, and those that are defined are those that a name
/// of the pipeline stands for in one of the packages.
pub proof fn defined_once(packages: Seq<Seq<char>>, pipeline: Seq<TaskNameView>)
    ensures
        ({
            let defined = first_occurrences(tasks_of_packages(packages, pipeline));
            &&& defined.no_duplicates()
            &&& forall|task: (Seq<char>, Seq<char>)| #[trigger]
                defined.contains(task) <==> exists|i: int, j: int|
                    0 <= i < packages.len() && 0 <= j < pipeline.len()
                        && #[trigger] pipeline[j].within(packages[i]) == task
        }),
{
    let all = tasks_of_packages(packages, pipeline);
    lemma_first_occurrences(all);
    lemma_tasks_of_packages(packages, pipeline);
}

proof fn lemma_first_occurrences<T>(s: Seq<T>)
    ensures
        first_occurrences(s).no_duplicates(),
        forall|x: T| #[trigger] first_occurrences(s).contains(x) <==> s.contains(x),
    decreases s.len(),
{
    if s.len() > 0 {
        let before = s.drop_last();
        lemma_first_occurrences(before);
        assert(s == before.push(s.last()));
        assert forall|x: T| s.contains(x) <==> before.contains(x) || x == s.last() by {
            if before.contains(x) {
                let i = choose|i: int| 0 <= i < before.len() && before[i] == x;
                assert(s[i] == x);
            }
            if s.contains(x) && x != s.last() {
                let i = choose|i: int| 0 <= i < s.len() && s[i] == x;
                assert(before[i] == x);
            }
            assert(s[s.len() - 1] == s.last());
        }
        let kept = first_occurrences(before);
        assert forall|x: T| #[trigger] kept.push(s.last()).contains(x) <==> kept.contains(x) || x
            == s.last() by {
            if kept.contains(x) {
                let i = choose|i: int| 0 <= i < kept.len() && kept[i] == x;
                assert(kept.push(s.last())[i] == x);
            }
            assert(kept.push(s.last())[kept.len() as int] == s.last());
        }
        if !before.contains(s.last()) {
            assert(!kept.contains(s.last()));
            assert(kept.push(s.last()).no_duplicates());
        }
    }
}

proof fn lemma_tasks_of_packages(packages: Seq<Seq<char>>, pipeline: Seq<TaskNameView>)
    ensures
        forall|task: (Seq<char>, Seq<char>)| #[trigger]
            tasks_of_packages(packages, pipeline).contains(task) <==> exists|i: int, j: int|
                0 <= i < packages.len() && 0 <= j < pipeline.len()
                    && #[trigger] pipeline[j].within(packages[i]) == task,
    decreases packages.len(),
{
    let all = tasks_of_packages(packages, pipeline);
    if packages.len() > 0 {
        let before = tasks_of_packages(packages.drop_last(), pipeline);
        let last = tasks_of_package(packages.last(), pipeline);
        lemma_tasks_of_packages(packages.drop_last(), pipeline);
        assert forall|task: (Seq<char>, Seq<char>)| #[trigger] all.contains(task) <==> exists|
            i: int,
            j: int,
        |
            0 <= i < packages.len() && 0 <= j < pipeline.len()
                && #[trigger] pipeline[j].within(packages[i]) == task by {
            if all.contains(task) {
                let k = choose|k: int| 0 <= k < all.len() && all[k] == task;
                if k < before.len() {
                    assert(before.contains(before[k]));
                    let (i, j) = choose|i: int, j: int|
                        0 <= i < packages.drop_last().len() && 0 <= j < pipeline.len()
                            && #[trigger] pipeline[j].within(packages.drop_last()[i]) == task;
                    assert(pipeline[j].within(packages[i]) == task);
                } else {
                    let j = k - before.len();
                    assert(all[k] == last[j]);
                    assert(pipeline[j].within(packages[packages.len() - 1]) == task);
                }
            }
            if exists|i: int, j: int|
                0 <= i < packages.len() && 0 <= j < pipeline.len()
                    && #[trigger] pipeline[j].within(packages[i]) == task {
                let (i, j) = choose|i: int, j: int|
                    0 <= i < packages.len() && 0 <= j < pipeline.len()
                        && #[trigger] pipeline[j].within(packages[i]) == task;
                if i < packages.len() - 1 {
                    assert(pipeline[j].within(packages.drop_last()[i]) == task);
                    assert(before.contains(task));
                    let k = choose|k: int| 0 <= k < before.len() && before[k] == task;
                    assert(all[k] == task);
                } else {
                    assert(last[j] == task);
                    assert(all[before.len() + j] == task);
                }
            }
        }
    }
}

/// Every name of a pipeline defines a task in every package, wherever either stands: the
/// task of the package that the name has, or else that of the package at hand.
pub proof fn every_name_defines_a_task_in_every_package(
    packages: &Vec<String>,
    pipeline: &Vec<TaskName>,
    tasks: Vec<TaskId>,
    i: int,
    j: int,
)
    requires
        call_ensures(task_ids, (packages, pipeline), tasks),
        0 <= i < packages@.len(),
        0 <= j < pipeline@.len(),
    ensures
        exists|k: int|
            0 <= k < tasks@.len() && (#[trigger] tasks@[k]).task@ == pipeline@[j].task@
                && tasks@[k].package@ == match pipeline@[j].package {
                Some(own) => own@,
                None => packages@[i]@,
            },
{
    let all_packages = packages.deep_view();
    let all_names = names(pipeline@);
    defined_once(all_packages, all_names);
    assert(all_packages[i] == packages@[i]@);
    assert(all_names[j] == pipeline@[j]@);
    let task = all_names[j].within(all_packages[i]);
    let defined = ids(tasks@);
    assert(defined.contains(task));
    let k = choose|k: int| 0 <= k < defined.len() && defined[k] == task;
    assert(defined[k] == tasks@[k]@);
    assert(tasks@[k].task@ == pipeline@[j].task@);
}

/// No other tasks are defined, and none is defined twice.
pub proof fn every_task_comes_from_a_name(
    packages: &Vec<String>,
    pipeline: &Vec<TaskName>,
    tasks: Vec<TaskId>,
)
    requires
        call_ensures(task_ids, (packages, pipeline), tasks),
    ensures
        forall|m: int, n: int|
            0 <= m < n < tasks@.len() ==> !(#[trigger] tasks@[m].package@
                == #[trigger] tasks@[n].package@ && tasks@[m].task@ == tasks@[n].task@),
        forall|k: int|
            0 <= k < tasks@.len() ==> exists|i: int, j: int|
                0 <= i < packages@.len() && 0 <= j < pipeline@.len() && (
                #[trigger] tasks@[k]).task@ == (#[trigger] pipeline@[j]).task@ && tasks@[k].package@
                    == match pipeline@[j].package {
                    Some(own) => own@,
                    None => (#[trigger] packages@[i])@,
                },
{
    let all_packages = packages.deep_view();
    let all_names = names(pipeline@);
    defined_once(all_packages, all_names);
    let defined = ids(tasks@);
    assert forall|m: int, n: int| 0 <= m < n < tasks@.len() implies !(
    #[trigger] tasks@[m].package@ == #[trigger] tasks@[n].package@ && tasks@[m].task@
        == tasks@[n].task@) by {
        assert(defined[m] == tasks@[m]@);
        assert(defined[n] == tasks@[n]@);
    }
    assert forall|k: int| 0 <= k < tasks@.len() implies exists|i: int, j: int|
        0 <= i < packages@.len() && 0 <= j < pipeline@.len() && (#[trigger] tasks@[k]).task@ == (
        #[trigger] pipeline@[j]).task@ && tasks@[k].package@ == match pipeline@[j].package {
            Some(own) => own@,
            None => (#[trigger] packages@[i])@,
        } by {
        assert(defined[k] == tasks@[k]@);
        assert(defined.contains(defined[k]));
        let (i, j) = choose|i: int, j: int|
            0 <= i < all_packages.len() && 0 <= j < all_names.len()
                && #[trigger] all_names[j].within(all_packages[i]) == defined[k];
        assert(all_packages[i] == packages@[i]@);
        assert(all_names[j] == pipeline@[j]@);
        assert(tasks@[k].task@ == pipeline@[j].task@);
    }
}

/// What first occurs in a list comes before what first occurs in a list that follows.
proof fn lemma_first_occurrences_grow<T>(s: Seq<T>, more: Seq<T>)
    ensures
        first_occurrences(s).is_prefix_of(first_occurrences(s + more)),
    decreases more.len(),
{
    if more.len() == 0 {
        assert(s + more =~= s);
    } else {
        lemma_first_occurrences_grow(s, more.drop_last());
        assert((s + more).drop_last() =~= s + more.drop_last());
        assert((s + more).last() == more.last());
    }
}

/// One more package defines its tasks after those of the others, which stay as they are.
pub proof fn one_more_package_adds_its_tasks_at_the_end(
    packages: &Vec<String>,
    more: &Vec<String>,
    pipeline: &Vec<TaskName>,
    tasks: Vec<TaskId>,
    longer: Vec<TaskId>,
)
    requires
        call_ensures(task_ids, (packages, pipeline), tasks),
        call_ensures(task_ids, (more, pipeline), longer),
        more.deep_view().len() > 0,
        more.deep_view().drop_last() == packages.deep_view(),
    ensures
        tasks@.len() <= longer@.len(),
        forall|k: int|
            0 <= k < tasks@.len() ==> (#[trigger] tasks@[k]).package@ == longer@[k].package@
                && tasks@[k].task@ == longer@[k].task@,
{
    let all_names = names(pipeline@);
    let before = tasks_of_packages(packages.deep_view(), all_names);
    let last = tasks_of_package(more.deep_view().last(), all_names);
    lemma_first_occurrences_grow(before, last);
    let (some, all) = (ids(tasks@), ids(longer@));
    assert forall|k: int| 0 <= k < tasks@.len() implies (#[trigger] tasks@[k]).package@
        == longer@[k].package@ && tasks@[k].task@ == longer@[k].task@ by {
        assert(some[k] == all[k]);
        assert(some[k] == tasks@[k]@);
        assert(all[k] == longer@[k]@);
    }
}

/// What first occurs earlier is kept earlier: some occurrence of it precedes every
/// occurrence of what is kept later.
proof fn lemma_kept_in_order<T>(s: Seq<T>, k: int, l: int) -> (a: int)
    requires
        0 <= k < l < first_occurrences(s).len(),
    ensures
        0 <= a < s.len(),
        s[a] == first_occurrences(s)[k],
        forall|b: int| 0 <= b < s.len() && #[trigger] s[b] == first_occurrences(s)[l] ==> a < b,
    decreases s.len(),
{
    let before = s.drop_last();
    let kept = first_occurrences(before);
    assert forall|b: int| 0 <= b < before.len() implies #[trigger] s[b] == before[b] by {}
    if l < kept.len() {
        let a = lemma_kept_in_order(before, k, l);
        assert forall|b: int|
            0 <= b < s.len() && #[trigger] s[b] == first_occurrences(s)[l] implies a < b by {
            if b < before.len() {
                assert(before[b] == kept[l]);
            }
        }
        a
    } else {
        lemma_first_occurrences(before);
        assert(kept.contains(kept[k]));
        assert(before.contains(kept[k]));
        let a = choose|a: int| 0 <= a < before.len() && before[a] == kept[k];
        assert(s[a] == kept[k]);
        assert forall|b: int|
            0 <= b < s.len() && #[trigger] s[b] == first_occurrences(s)[l] implies a < b by {
            if b < before.len() {
                assert(before[b] == s.last());
                assert(before.contains(s.last()));
            }
        }
        a
    }
}

/// Where among all tasks that of a name in a package stands.
proof fn lemma_place(packages: Seq<Seq<char>>, pipeline: Seq<TaskNameView>, i: int, j: int)
    requires
        0 <= i < packages.len(),
        0 <= j < pipeline.len(),
    ensures
        0 <= i * pipeline.len() + j < tasks_of_packages(packages, pipeline).len(),
        tasks_of_packages(packages, pipeline)[i * pipeline.len() + j] == pipeline[j].within(
            packages[i],
        ),
    decreases packages.len(),
{
    let m = pipeline.len() as int;
    let before = tasks_of_packages(packages.drop_last(), pipeline);
    lemma_number_of_tasks(packages.drop_last(), pipeline);
    assert(0 <= i * m) by (nonlinear_arith)
        requires
            0 <= i,
            0 <= m,
    ;
    if i < packages.len() - 1 {
        lemma_place(packages.drop_last(), pipeline, i, j);
        assert(packages.drop_last()[i] == packages[i]);
        assert(tasks_of_packages(packages, pipeline)[i * m + j] == before[i * m + j]);
    } else {
        assert(before.len() == i * m);
        assert(tasks_of_packages(packages, pipeline)[i * m + j] == tasks_of_package(
            packages.last(),
            pipeline,
        )[j]);
    }
}

/// There are as many tasks as there are names for each package.
proof fn lemma_number_of_tasks(packages: Seq<Seq<char>>, pipeline: Seq<TaskNameView>)
    ensures
        tasks_of_packages(packages, pipeline).len() == packages.len() * pipeline.len(),
    decreases packages.len(),
{
    let (n, m) = (packages.len() as int, pipeline.len() as int);
    if packages.len() > 0 {
        lemma_number_of_tasks(packages.drop_last(), pipeline);
        assert((n - 1) * m + m == n * m) by (nonlinear_arith);
    } else {
        assert(0 * m == 0) by (nonlinear_arith);
    }
}

/// Every place among all tasks is that of a name in a package.
proof fn lemma_name_at(packages: Seq<Seq<char>>, pipeline: Seq<TaskNameView>, n: int) -> (place: (
    int,
    int,
))
    requires
        0 <= n < tasks_of_packages(packages, pipeline).len(),
    ensures
        0 <= place.0 < packages.len(),
        0 <= place.1 < pipeline.len(),
        n == place.0 * pipeline.len() + place.1,
    decreases packages.len(),
{
    let before = tasks_of_packages(packages.drop_last(), pipeline);
    lemma_number_of_tasks(packages.drop_last(), pipeline);
    if n < before.len() {
        lemma_name_at(packages.drop_last(), pipeline, n)
    } else {
        (packages.len() - 1, n - before.len())
    }
}

/// The tasks are defined package by package, and in each by the order of the names: of
/// two tasks, the one that is defined first is what some name stands for in some package
/// before any name in any package stands for the other.
pub proof fn tasks_are_defined_in_order(
    packages: &Vec<String>,
    pipeline: &Vec<TaskName>,
    tasks: Vec<TaskId>,
    k: int,
    l: int,
)
    requires
        call_ensures(task_ids, (packages, pipeline), tasks),
        0 <= k < l < tasks@.len(),
    ensures
        exists|i: int, j: int|
            #![trigger packages@[i], pipeline@[j]]
            {
                &&& 0 <= i < packages@.len()
                &&& 0 <= j < pipeline@.len()
                &&& pipeline@[j]@.within(packages@[i]@) == tasks@[k]@
                &&& forall|later_i: int, later_j: int|
                    0 <= later_i < packages@.len() && 0 <= later_j < pipeline@.len()
                        && #[trigger] pipeline@[later_j]@.within(packages@[later_i]@) == tasks@[l]@
                        ==> i < later_i || (i == later_i && j < later_j)
            },
{
    let all_packages = packages.deep_view();
    let all_names = names(pipeline@);
    let all = tasks_of_packages(all_packages, all_names);
    let m = all_names.len() as int;
    let defined = ids(tasks@);
    assert(defined[k] == tasks@[k]@);
    assert(defined[l] == tasks@[l]@);
    let a = lemma_kept_in_order(all, k, l);
    let (i, j) = lemma_name_at(all_packages, all_names, a);
    lemma_place(all_packages, all_names, i, j);
    assert(all_packages[i] == packages@[i]@);
    assert(all_names[j] == pipeline@[j]@);
    assert forall|later_i: int, later_j: int|
        0 <= later_i < packages@.len() && 0 <= later_j < pipeline@.len()
            && #[trigger] pipeline@[later_j]@.within(packages@[later_i]@) == tasks@[l]@ implies i
        < later_i || (i == later_i && j < later_j) by {
        assert(all_packages[later_i] == packages@[later_i]@);
        assert(all_names[later_j] == pipeline@[later_j]@);
        lemma_place(all_packages, all_names, later_i, later_j);
        assert(all[later_i * m + later_j] == defined[l]);
        assert(i * m + j < later_i * m + later_j);
        assert(i < later_i || (i == later_i && j < later_j)) by (nonlinear_arith)
            requires
                i * m + j < later_i * m + later_j,
                0 <= j < m,
                0 <= later_j < m,
        ;
    }
}

} // verus!
