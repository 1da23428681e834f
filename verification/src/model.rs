//! Data model: tasks, lists, interaction modes, operation errors, and
//! the spec-level view of each, together with the well-formedness
//! predicates the whole library maintains.

use vstd::prelude::*;

verus! {

/// A unit of work with a completion flag, owned by exactly one `List`.
pub struct Task {
    pub name: String,
    pub completed: bool,
}

/// A named, ordered collection of tasks. Order is significant: it
/// determines display order and index-based selection.
pub struct List {
    pub name: String,
    pub tasks: Vec<Task>,
}

/// The current interaction mode. `Normal` is the sole rest state; all
/// others are transient and return to `Normal` on completion or
/// cancellation.
#[derive(Clone, Copy, Debug, PartialEq, Eq, Structural)]
pub enum AppMode {
    Normal,
    EditingList,
    EditingTask,
    CreatingList,
    CreatingTask,
    ConfirmDeleteList,
    ConfirmDeleteTask,
}

/// Why a CRUD operation refused to mutate the state.
#[derive(Clone, Copy, Debug, PartialEq, Eq, Structural)]
pub enum OpError {
    DuplicateName,
    NoListSelected,
    NoTaskSelected,
}

/// Mathematical model of a `Task`.
#[verifier::ext_equal]
pub ghost struct TaskV {
    pub name: Seq<char>,
    pub completed: bool,
}

/// Mathematical model of a `List`.
#[verifier::ext_equal]
pub ghost struct ListV {
    pub name: Seq<char>,
    pub tasks: Seq<TaskV>,
}

impl View for Task {
    type V = TaskV;

    open spec fn view(&self) -> TaskV {
        TaskV { name: self.name@, completed: self.completed }
    }
}

impl View for List {
    type V = ListV;

    open spec fn view(&self) -> ListV {
        ListV { name: self.name@, tasks: tasks_view(self.tasks@) }
    }
}

/// The views of a sequence of tasks, in order.
pub open spec fn tasks_view(tasks: Seq<Task>) -> Seq<TaskV> {
    Seq::new(tasks.len(), |i: int| tasks[i]@)
}

/// The views of a sequence of lists, in order.
pub open spec fn lists_view(lists: Seq<List>) -> Seq<ListV> {
    Seq::new(lists.len(), |i: int| lists[i]@)
}

/// No two tasks share a name (exact, case-sensitive comparison).
pub open spec fn task_names_unique(tasks: Seq<TaskV>) -> bool {
    forall|i: int, j: int|
        0 <= i < tasks.len() && 0 <= j < tasks.len() && i != j
            ==> tasks[i].name != tasks[j].name
}

/// No two lists share a name (exact, case-sensitive comparison).
pub open spec fn list_names_unique(lists: Seq<ListV>) -> bool {
    forall|i: int, j: int|
        0 <= i < lists.len() && 0 <= j < lists.len() && i != j
            ==> lists[i].name != lists[j].name
}

/// Well-formed collection: list names are unique across the collection,
/// and task names are unique within each list.
pub open spec fn lists_wf(lists: Seq<ListV>) -> bool {
    &&& list_names_unique(lists)
    &&& forall|i: int| 0 <= i < lists.len() ==> task_names_unique(#[trigger] lists[i].tasks)
}

/// Some list in the collection carries exactly this name.
pub open spec fn has_list_named(lists: Seq<ListV>, name: Seq<char>) -> bool {
    exists|i: int| 0 <= i < lists.len() && lists[i].name == name
}

/// Some list other than the one at `except` carries exactly this name.
pub open spec fn other_list_named(lists: Seq<ListV>, name: Seq<char>, except: int) -> bool {
    exists|i: int| 0 <= i < lists.len() && i != except && lists[i].name == name
}

/// Some task in the sequence carries exactly this name.
pub open spec fn has_task_named(tasks: Seq<TaskV>, name: Seq<char>) -> bool {
    exists|i: int| 0 <= i < tasks.len() && tasks[i].name == name
}

/// Some task other than the one at `except` carries exactly this name.
pub open spec fn other_task_named(tasks: Seq<TaskV>, name: Seq<char>, except: int) -> bool {
    exists|i: int| 0 <= i < tasks.len() && i != except && tasks[i].name == name
}

/// Removing a list keeps the collection well formed.
pub proof fn lemma_wf_remove(lists: Seq<ListV>, i: int)
    requires
        0 <= i < lists.len(),
        lists_wf(lists),
    ensures
        lists_wf(lists.remove(i)),
{
    let r = lists.remove(i);
    assert forall|a: int, b: int|
        0 <= a < r.len() && 0 <= b < r.len() && a != b implies r[a].name != r[b].name by {
        let oa: int = if a < i { a } else { a + 1 };
        let ob: int = if b < i { b } else { b + 1 };
        assert(r[a] == lists[oa]);
        assert(r[b] == lists[ob]);
    }
    assert forall|a: int| 0 <= a < r.len() implies task_names_unique(#[trigger] r[a].tasks) by {
        let oa: int = if a < i { a } else { a + 1 };
        assert(r[a] == lists[oa]);
    }
}

/// Appending a list under a fresh name, with no tasks, keeps the
/// collection well formed.
pub proof fn lemma_wf_push_fresh(lists: Seq<ListV>, name: Seq<char>)
    requires
        lists_wf(lists),
        !has_list_named(lists, name),
    ensures
        lists_wf(lists.push(ListV { name: name, tasks: Seq::empty() })),
{
    let r = lists.push(ListV { name: name, tasks: Seq::empty() });
    assert forall|a: int, b: int|
        0 <= a < r.len() && 0 <= b < r.len() && a != b implies r[a].name != r[b].name by {
        if a < lists.len() && b < lists.len() {
        } else if a == lists.len() {
            assert(r[b] == lists[b]);
        } else {
            assert(r[a] == lists[a]);
        }
    }
    assert forall|a: int| 0 <= a < r.len() implies task_names_unique(#[trigger] r[a].tasks) by {
        if a < lists.len() {
            assert(r[a] == lists[a]);
        } else {
            assert(r[a].tasks =~= Seq::<TaskV>::empty());
        }
    }
}

/// Renaming one list to a name no other list carries keeps the
/// collection well formed.
pub proof fn lemma_wf_rename(lists: Seq<ListV>, i: int, name: Seq<char>)
    requires
        0 <= i < lists.len(),
        lists_wf(lists),
        !other_list_named(lists, name, i),
    ensures
        lists_wf(lists.update(i, ListV { name: name, tasks: lists[i].tasks })),
{
    let r = lists.update(i, ListV { name: name, tasks: lists[i].tasks });
    assert forall|a: int, b: int|
        0 <= a < r.len() && 0 <= b < r.len() && a != b implies r[a].name != r[b].name by {
        if a != i && b != i {
        } else if a == i {
            assert(r[b] == lists[b]);
        } else {
            assert(r[a] == lists[a]);
        }
    }
}

/// Replacing one list's tasks with a still-unique task sequence, under
/// the same name, keeps the collection well formed.
pub proof fn lemma_wf_update_tasks(lists: Seq<ListV>, i: int, tasks: Seq<TaskV>)
    requires
        0 <= i < lists.len(),
        lists_wf(lists),
        task_names_unique(tasks),
    ensures
        lists_wf(lists.update(i, ListV { name: lists[i].name, tasks: tasks })),
{
    let r = lists.update(i, ListV { name: lists[i].name, tasks: tasks });
    assert forall|a: int, b: int|
        0 <= a < r.len() && 0 <= b < r.len() && a != b implies r[a].name != r[b].name by {
        assert(r[a].name == lists[a].name);
        assert(r[b].name == lists[b].name);
    }
}

/// Removing a task keeps the task names unique.
pub proof fn lemma_tasks_unique_remove(tasks: Seq<TaskV>, j: int)
    requires
        0 <= j < tasks.len(),
        task_names_unique(tasks),
    ensures
        task_names_unique(tasks.remove(j)),
{
    let r = tasks.remove(j);
    assert forall|a: int, b: int|
        0 <= a < r.len() && 0 <= b < r.len() && a != b implies r[a].name != r[b].name by {
        let oa: int = if a < j { a } else { a + 1 };
        let ob: int = if b < j { b } else { b + 1 };
        assert(r[a] == tasks[oa]);
        assert(r[b] == tasks[ob]);
    }
}

/// Appending a task under a fresh name keeps the task names unique.
pub proof fn lemma_tasks_unique_push_fresh(tasks: Seq<TaskV>, name: Seq<char>, completed: bool)
    requires
        task_names_unique(tasks),
        !has_task_named(tasks, name),
    ensures
        task_names_unique(tasks.push(TaskV { name: name, completed: completed })),
{
    let r = tasks.push(TaskV { name: name, completed: completed });
    assert forall|a: int, b: int|
        0 <= a < r.len() && 0 <= b < r.len() && a != b implies r[a].name != r[b].name by {
        if a < tasks.len() && b < tasks.len() {
        } else if a == tasks.len() {
            assert(r[b] == tasks[b]);
        } else {
            assert(r[a] == tasks[a]);
        }
    }
}

/// Renaming one task to a name no other task in the list carries keeps
/// the task names unique.
pub proof fn lemma_tasks_unique_rename(tasks: Seq<TaskV>, j: int, name: Seq<char>)
    requires
        0 <= j < tasks.len(),
        task_names_unique(tasks),
        !other_task_named(tasks, name, j),
    ensures
        task_names_unique(tasks.update(j, TaskV { name: name, completed: tasks[j].completed })),
{
    let r = tasks.update(j, TaskV { name: name, completed: tasks[j].completed });
    assert forall|a: int, b: int|
        0 <= a < r.len() && 0 <= b < r.len() && a != b implies r[a].name != r[b].name by {
        if a != j && b != j {
        } else if a == j {
            assert(r[b] == tasks[b]);
        } else {
            assert(r[a] == tasks[a]);
        }
    }
}

/// Flipping one task's completion flag keeps the task names unique.
pub proof fn lemma_tasks_unique_toggle(tasks: Seq<TaskV>, j: int)
    requires
        0 <= j < tasks.len(),
        task_names_unique(tasks),
    ensures
        task_names_unique(
            tasks.update(j, TaskV { name: tasks[j].name, completed: !tasks[j].completed }),
        ),
{
    let r = tasks.update(j, TaskV { name: tasks[j].name, completed: !tasks[j].completed });
    assert forall|a: int, b: int|
        0 <= a < r.len() && 0 <= b < r.len() && a != b implies r[a].name != r[b].name by {
        assert(r[a].name == tasks[a].name);
        assert(r[b].name == tasks[b].name);
    }
}

} // verus!
