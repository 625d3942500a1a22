//! The names of tasks.
use crate::assoc::MapKey;
use vstd::prelude::*;

verus! {

/// A task of a package.
#[derive(Debug)]
pub struct TaskId {
    pub package: String,
    pub task: String,
}

impl View for TaskId {
    type V = (Seq<char>, Seq<char>);

    open spec fn view(&self) -> (Seq<char>, Seq<char>) {
        (self.package@, self.task@)
    }
}

impl TaskId {
    pub fn new(package: &str, task: &str) -> (id: Self)
        ensures
            id@ == (package@, task@),
    {
        TaskId { package: package.to_owned(), task: task.to_owned() }
    }

    pub fn from_owned(package: String, task: String) -> (id: Self)
        ensures
            id@ == (package@, task@),
    {
        TaskId { package, task }
    }

    /// The package that the task belongs to.
    pub fn package(&self) -> (package: &str)
        ensures
            package@ == self@.0,
    {
        self.package.as_str()
    }

    /// The task itself.
    pub fn task(&self) -> (task: &str)
        ensures
            task@ == self@.1,
    {
        self.task.as_str()
    }
}

impl MapKey for TaskId {
    fn same_key(&self, other: &Self) -> (same: bool) {
        self.package == other.package && self.task == other.task
    }

    fn copy_key(&self) -> (copy: Self) {
        TaskId { package: self.package.clone(), task: self.task.clone() }
    }
}

/// A task as a pipeline names it: of one package, or of every package.
#[derive(Debug)]
pub struct TaskName {
    pub package: Option<String>,
    pub task: String,
}

/// What a name in a pipeline says.
pub struct TaskNameView {
    pub package: Option<Seq<char>>,
    pub task: Seq<char>,
}

impl View for TaskName {
    type V = TaskNameView;

    open spec fn view(&self) -> TaskNameView {
        TaskNameView {
            package: match self.package {
                Some(package) => Some(package@),
                None => None,
            },
            task: self.task@,
        }
    }
}

impl TaskNameView {
    /// The task that the name stands for in a package.
    pub open spec fn within(self, package: Seq<char>) -> (Seq<char>, Seq<char>) {
        match self.package {
            Some(own) => (own, self.task),
            None => (package, self.task),
        }
    }
}

impl TaskName {
    /// The task, if the name is that of one package.
    pub fn task_id(&self) -> (id: Option<TaskId>)
        ensures
            match id {
                Some(id) => self@.package == Some(id@.0) && id@.1 == self@.task,
                None => self@.package is None,
            },
    {
        match &self.package {
            Some(package) => Some(TaskId::new(package.as_str(), self.task.as_str())),
            None => None,
        }
    }

    /// The task that the name stands for in a package.
    pub fn task_id_within(&self, package: &str) -> (id: TaskId)
        ensures
            id@ == self@.within(package@),
    {
        match self.task_id() {
            Some(id) => id,
            None => TaskId::new(package, self.task.as_str()),
        }
    }
}

/// A task is its package and its name, however it is made, and both are handed out.
pub proof fn a_task_is_its_package_and_its_name(
    package: &str,
    task: &str,
    id: TaskId,
    owned_package: String,
    owned_task: String,
    from_owned: TaskId,
    some: &TaskId,
    its_package: &str,
    its_task: &str,
)
    requires
        call_ensures(TaskId::new, (package, task), id),
        call_ensures(TaskId::from_owned, (owned_package, owned_task), from_owned),
        call_ensures(TaskId::package, (some,), its_package),
        call_ensures(TaskId::task, (some,), its_task),
    ensures
        id.package@ == package@ && id.task@ == task@,
        from_owned.package@ == owned_package@ && from_owned.task@ == owned_task@,
        its_package@ == some.package@ && its_task@ == some.task@,
        some@ == (some.package@, some.task@),
{
}

/// A name in a pipeline that has a package stands for the task of that package wherever
/// it is used, and one that has none for the task of the package that it is used in.
pub proof fn a_name_stands_for_a_task(
    name: &TaskName,
    package: &str,
    own: Option<TaskId>,
    id: TaskId,
)
    requires
        call_ensures(TaskName::task_id, (name,), own),
        call_ensures(TaskName::task_id_within, (name, package), id),
    ensures
        id.task@ == name.task@,
        match name.package {
            Some(its_package) => id.package@ == its_package@ && (own matches Some(own)
                && own.package@ == its_package@ && own.task@ == name.task@),
            None => id.package@ == package@ && own is None,
        },
{
}

} // verus!
