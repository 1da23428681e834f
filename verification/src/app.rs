//! Application state: the collection of lists, the current selections,
//! the interaction mode and the text input buffer, with the navigation
//! and CRUD operations and their selection-repair rules.
//!
//! Every operation requires and re-establishes [`App::inv`], so the
//! documented invariants hold after every step of any operation
//! sequence. Each operation's effect is pinned down by a `..._step`
//! predicate relating the state before and after.

use crate::model::{
    has_list_named, has_task_named, lemma_tasks_unique_push_fresh, lemma_tasks_unique_remove,
    lemma_tasks_unique_rename, lemma_tasks_unique_toggle, lemma_wf_push_fresh, lemma_wf_remove,
    lemma_wf_rename, lemma_wf_update_tasks, lists_view, lists_wf, other_list_named,
    other_task_named, task_names_unique, tasks_view, AppMode, List, ListV, OpError, Task, TaskV,
};
use vstd::prelude::*;

verus! {

/// The application state. The selections and the mode drive how key
/// input is interpreted; see `crate::input`.
pub struct App {
    pub lists: Vec<List>,
    pub selected_list_index: Option<usize>,
    pub selected_task_index: Option<usize>,
    pub mode: AppMode,
    pub input_buffer: String,
}

/// Mathematical model of an `App`.
#[verifier::ext_equal]
pub ghost struct AppV {
    pub lists: Seq<ListV>,
    pub selected_list_index: Option<usize>,
    pub selected_task_index: Option<usize>,
    pub mode: AppMode,
    pub input_buffer: Seq<char>,
}

impl View for App {
    type V = AppV;

    open spec fn view(&self) -> AppV {
        AppV {
            lists: lists_view(self.lists@),
            selected_list_index: self.selected_list_index,
            selected_task_index: self.selected_task_index,
            mode: self.mode,
            input_buffer: self.input_buffer@,
        }
    }
}

/// The state invariant:
/// - a list is selected if and only if the collection is non-empty,
///   and the selected index is in range;
/// - a task is selected if and only if a list is selected and that
///   list has tasks, and the selected index is in range;
/// - list names are unique, and task names are unique within each list.
pub open spec fn state_inv(s: AppV) -> bool {
    &&& match s.selected_list_index {
        Some(i) => i < s.lists.len(),
        None => s.lists.len() == 0,
    }
    &&& match s.selected_task_index {
        Some(j) => s.selected_list_index is Some && j < s.lists[s.selected_list_index.unwrap()
            as int].tasks.len(),
        None => s.selected_list_index is None || s.lists[s.selected_list_index.unwrap()
            as int].tasks.len() == 0,
    }
    &&& lists_wf(s.lists)
}

impl App {
    /// The invariant every operation preserves.
    pub open spec fn inv(&self) -> bool {
        state_inv(self@)
    }
}

/// A list is selected and its index is in range. Under `state_inv`
/// this is simply "a list is selected".
pub open spec fn list_selected_valid(s: AppV) -> bool {
    match s.selected_list_index {
        Some(i) => i < s.lists.len(),
        None => false,
    }
}

/// A list and a task are both selected and both indexes are in range.
/// Under `state_inv` this is simply "a task is selected".
pub open spec fn both_selected_valid(s: AppV) -> bool {
    match (s.selected_list_index, s.selected_task_index) {
        (Some(i), Some(j)) => i < s.lists.len() && j < s.lists[i as int].tasks.len(),
        _ => false,
    }
}

/// The task selection has been repaired after a change of list
/// selection: the first task is selected when the selected list has
/// tasks, and nothing is selected otherwise.
pub open spec fn task_selection_reset(s: AppV) -> bool {
    s.selected_task_index == (match s.selected_list_index {
        Some(i) => if i < s.lists.len() && s.lists[i as int].tasks.len() > 0 {
            Some(0usize)
        } else {
            None::<usize>
        },
        None => None::<usize>,
    })
}

/// Effect of `App::reset_task_selection`.
pub open spec fn reset_step(pre: AppV, post: AppV) -> bool {
    &&& post.lists == pre.lists
    &&& post.selected_list_index == pre.selected_list_index
    &&& post.mode == pre.mode
    &&& post.input_buffer == pre.input_buffer
    &&& task_selection_reset(post)
}

/// Effect of `App::select_next_list`: move the list selection one
/// down and repair the task selection; an out-of-range attempt (no
/// selection, or already at the last list) is a no-op that leaves the
/// whole state unchanged.
pub open spec fn next_list_step(pre: AppV, post: AppV) -> bool {
    match pre.selected_list_index {
        Some(i) => if i + 1 < pre.lists.len() {
            &&& post.lists == pre.lists
            &&& post.mode == pre.mode
            &&& post.input_buffer == pre.input_buffer
            &&& post.selected_list_index == Some((i + 1) as usize)
            &&& task_selection_reset(post)
        } else {
            post == pre
        },
        None => post == pre,
    }
}

/// Effect of `App::select_previous_list`: move the list selection one
/// up and repair the task selection; an out-of-range attempt (no
/// selection, or already at the first list) is a no-op that leaves the
/// whole state unchanged.
pub open spec fn prev_list_step(pre: AppV, post: AppV) -> bool {
    match pre.selected_list_index {
        Some(i) => if i > 0 {
            &&& post.lists == pre.lists
            &&& post.mode == pre.mode
            &&& post.input_buffer == pre.input_buffer
            &&& post.selected_list_index == Some((i - 1) as usize)
            &&& task_selection_reset(post)
        } else {
            post == pre
        },
        None => post == pre,
    }
}

/// Effect of `App::select_next_task`: move the task selection one down
/// within the selected list, clamped to its last task; when the
/// selected list has tasks but none is selected, select the first.
pub open spec fn next_task_step(pre: AppV, post: AppV) -> bool {
    &&& post.lists == pre.lists
    &&& post.selected_list_index == pre.selected_list_index
    &&& post.mode == pre.mode
    &&& post.input_buffer == pre.input_buffer
    &&& post.selected_task_index == (match (pre.selected_list_index, pre.selected_task_index) {
        (Some(i), Some(j)) => if i < pre.lists.len() && j + 1 < pre.lists[i as int].tasks.len() {
            Some((j + 1) as usize)
        } else {
            Some(j)
        },
        (Some(i), None) => if i < pre.lists.len() && pre.lists[i as int].tasks.len() > 0 {
            Some(0usize)
        } else {
            None::<usize>
        },
        (None, t) => t,
    })
}

/// Effect of `App::select_previous_task`: move the task selection one
/// up, clamped to the first task.
pub open spec fn prev_task_step(pre: AppV, post: AppV) -> bool {
    &&& post.lists == pre.lists
    &&& post.selected_list_index == pre.selected_list_index
    &&& post.mode == pre.mode
    &&& post.input_buffer == pre.input_buffer
    &&& post.selected_task_index == (match pre.selected_task_index {
        Some(j) => if j > 0 {
            Some((j - 1) as usize)
        } else {
            Some(j)
        },
        None => None::<usize>,
    })
}

/// Effect of `App::create_list`: refused with `DuplicateName`, leaving
/// the state unchanged, exactly when some list already carries `name`;
/// otherwise a list with that name and no tasks is appended and
/// selected, with no task selected.
pub open spec fn create_list_step(
    pre: AppV,
    name: Seq<char>,
    post: AppV,
    r: Result<(), OpError>,
) -> bool {
    &&& post.mode == pre.mode
    &&& post.input_buffer == pre.input_buffer
    &&& if has_list_named(pre.lists, name) {
        &&& r == Err::<(), OpError>(OpError::DuplicateName)
        &&& post == pre
    } else {
        &&& r == Ok::<(), OpError>(())
        &&& post.lists == pre.lists.push(ListV { name: name, tasks: Seq::empty() })
        &&& post.selected_list_index == Some(pre.lists.len() as usize)
        &&& post.selected_task_index == None::<usize>
    }
}

/// Effect of `App::edit_selected_list`: refused with `DuplicateName`,
/// leaving the state unchanged, exactly when a list other than the
/// selected one already carries `name`; otherwise the selected list is
/// renamed in place (a no-op success when nothing is selected).
pub open spec fn edit_list_step(
    pre: AppV,
    name: Seq<char>,
    post: AppV,
    r: Result<(), OpError>,
) -> bool {
    match pre.selected_list_index {
        Some(i) => if i < pre.lists.len() && other_list_named(pre.lists, name, i as int) {
            &&& r == Err::<(), OpError>(OpError::DuplicateName)
            &&& post == pre
        } else if i < pre.lists.len() {
            &&& r == Ok::<(), OpError>(())
            &&& post.lists == pre.lists.update(
                i as int,
                ListV { name: name, tasks: pre.lists[i as int].tasks },
            )
            &&& post.selected_list_index == pre.selected_list_index
            &&& post.selected_task_index == pre.selected_task_index
            &&& post.mode == pre.mode
            &&& post.input_buffer == pre.input_buffer
        } else {
            &&& r == Ok::<(), OpError>(())
            &&& post == pre
        },
        None => if has_list_named(pre.lists, name) {
            &&& r == Err::<(), OpError>(OpError::DuplicateName)
            &&& post == pre
        } else {
            &&& r == Ok::<(), OpError>(())
            &&& post == pre
        },
    }
}

/// Effect of `App::delete_selected_list`: a no-op when nothing is
/// selected; otherwise the selected list is removed, the selection
/// moves to the new last list when the removed one was last (or away
/// entirely when the collection became empty), and the task selection
/// is repaired.
pub open spec fn delete_list_step(pre: AppV, post: AppV) -> bool {
    &&& post.mode == pre.mode
    &&& post.input_buffer == pre.input_buffer
    &&& match pre.selected_list_index {
        None => post == pre,
        Some(i) => if i < pre.lists.len() {
            &&& post.lists == pre.lists.remove(i as int)
            &&& post.selected_list_index == (if pre.lists.len() == 1 {
                None::<usize>
            } else if i as int == pre.lists.len() - 1 {
                Some((i - 1) as usize)
            } else {
                Some(i)
            })
            &&& task_selection_reset(post)
        } else {
            post == pre
        },
    }
}

/// Effect of `App::add_task_to_selected_list`: refused with
/// `NoListSelected`, leaving the state unchanged, exactly when no list
/// is selected; refused with `DuplicateName` exactly when the selected
/// list already has a task carrying `name`; otherwise a not-completed
/// task with that name is appended to the selected list and selected.
pub open spec fn add_task_step(
    pre: AppV,
    name: Seq<char>,
    post: AppV,
    r: Result<(), OpError>,
) -> bool {
    &&& post.mode == pre.mode
    &&& post.input_buffer == pre.input_buffer
    &&& match pre.selected_list_index {
        None => {
            &&& r == Err::<(), OpError>(OpError::NoListSelected)
            &&& post == pre
        },
        Some(i) => if i < pre.lists.len() {
            if has_task_named(pre.lists[i as int].tasks, name) {
                &&& r == Err::<(), OpError>(OpError::DuplicateName)
                &&& post == pre
            } else {
                &&& r == Ok::<(), OpError>(())
                &&& post.lists == pre.lists.update(
                    i as int,
                    ListV {
                        name: pre.lists[i as int].name,
                        tasks: pre.lists[i as int].tasks.push(
                            TaskV { name: name, completed: false },
                        ),
                    },
                )
                &&& post.selected_list_index == Some(i)
                &&& post.selected_task_index == Some(pre.lists[i as int].tasks.len() as usize)
            }
        } else {
            &&& r == Err::<(), OpError>(OpError::NoListSelected)
            &&& post == pre
        },
    }
}

/// Effect of `App::edit_selected_task`: refused with `NoTaskSelected`,
/// leaving the state unchanged, exactly when no list and task are both
/// selected; refused with `DuplicateName` exactly when another task of
/// the selected list already carries `name`; otherwise the selected
/// task is renamed in place.
pub open spec fn edit_task_step(
    pre: AppV,
    name: Seq<char>,
    post: AppV,
    r: Result<(), OpError>,
) -> bool {
    match (pre.selected_list_index, pre.selected_task_index) {
        (Some(i), Some(j)) => if i < pre.lists.len() && other_task_named(
            pre.lists[i as int].tasks,
            name,
            j as int,
        ) {
            &&& r == Err::<(), OpError>(OpError::DuplicateName)
            &&& post == pre
        } else if i < pre.lists.len() && j < pre.lists[i as int].tasks.len() {
            &&& r == Ok::<(), OpError>(())
            &&& post.lists == pre.lists.update(
                i as int,
                ListV {
                    name: pre.lists[i as int].name,
                    tasks: pre.lists[i as int].tasks.update(
                        j as int,
                        TaskV { name: name, completed: pre.lists[i as int].tasks[j as int].completed },
                    ),
                },
            )
            &&& post.selected_list_index == pre.selected_list_index
            &&& post.selected_task_index == pre.selected_task_index
            &&& post.mode == pre.mode
            &&& post.input_buffer == pre.input_buffer
        } else {
            &&& r == Err::<(), OpError>(OpError::NoTaskSelected)
            &&& post == pre
        },
        _ => {
            &&& r == Err::<(), OpError>(OpError::NoTaskSelected)
            &&& post == pre
        },
    }
}

/// Effect of `App::delete_selected_task`: a no-op when no list and task
/// are both selected; otherwise the selected task is removed, and the
/// task selection moves to the new last task when the removed one was
/// last (or away entirely when the list became empty).
pub open spec fn delete_task_step(pre: AppV, post: AppV) -> bool {
    &&& post.mode == pre.mode
    &&& post.input_buffer == pre.input_buffer
    &&& match (pre.selected_list_index, pre.selected_task_index) {
        (Some(i), Some(j)) => if i < pre.lists.len() && j < pre.lists[i as int].tasks.len() {
            &&& post.lists == pre.lists.update(
                i as int,
                ListV {
                    name: pre.lists[i as int].name,
                    tasks: pre.lists[i as int].tasks.remove(j as int),
                },
            )
            &&& post.selected_list_index == Some(i)
            &&& post.selected_task_index == (if pre.lists[i as int].tasks.len() == 1 {
                None::<usize>
            } else if j as int == pre.lists[i as int].tasks.len() - 1 {
                Some((j - 1) as usize)
            } else {
                Some(j)
            })
        } else {
            post == pre
        },
        _ => post == pre,
    }
}

/// Effect of `App::toggle_selected_task_status`: a no-op when no list
/// and task are both selected; otherwise the selected task's
/// `completed` flag is flipped and nothing else changes.
pub open spec fn toggle_step(pre: AppV, post: AppV) -> bool {
    &&& post.mode == pre.mode
    &&& post.input_buffer == pre.input_buffer
    &&& post.selected_list_index == pre.selected_list_index
    &&& post.selected_task_index == pre.selected_task_index
    &&& match (pre.selected_list_index, pre.selected_task_index) {
        (Some(i), Some(j)) => if i < pre.lists.len() && j < pre.lists[i as int].tasks.len() {
            post.lists == pre.lists.update(
                i as int,
                ListV {
                    name: pre.lists[i as int].name,
                    tasks: pre.lists[i as int].tasks.update(
                        j as int,
                        TaskV {
                            name: pre.lists[i as int].tasks[j as int].name,
                            completed: !pre.lists[i as int].tasks[j as int].completed,
                        },
                    ),
                },
            )
        } else {
            post.lists == pre.lists
        },
        _ => post.lists == pre.lists,
    }
}

/// Whether some list carries exactly this name.
fn has_list_with_name(lists: &Vec<List>, name: &String) -> (r: bool)
    ensures
        r == has_list_named(lists_view(lists@), name@),
{
    let mut i: usize = 0;
    while i < lists.len()
        invariant
            i <= lists@.len(),
            forall|k: int| 0 <= k < i ==> lists_view(lists@)[k].name != name@,
        decreases lists@.len() - i,
    {
        if lists[i].name == *name {
            assert(lists_view(lists@)[i as int].name == name@);
            return true;
        }
        i = i + 1;
    }
    false
}

/// Whether some list other than the one at `except` carries this name.
fn other_list_with_name(lists: &Vec<List>, name: &String, except: usize) -> (r: bool)
    ensures
        r == other_list_named(lists_view(lists@), name@, except as int),
{
    let mut i: usize = 0;
    while i < lists.len()
        invariant
            i <= lists@.len(),
            forall|k: int|
                0 <= k < i && k != except as int ==> lists_view(lists@)[k].name != name@,
        decreases lists@.len() - i,
    {
        if i != except && lists[i].name == *name {
            assert(lists_view(lists@)[i as int].name == name@);
            return true;
        }
        i = i + 1;
    }
    false
}

/// Whether some task carries exactly this name.
fn has_task_with_name(tasks: &Vec<Task>, name: &String) -> (r: bool)
    ensures
        r == has_task_named(tasks_view(tasks@), name@),
{
    let mut i: usize = 0;
    while i < tasks.len()
        invariant
            i <= tasks@.len(),
            forall|k: int| 0 <= k < i ==> tasks_view(tasks@)[k].name != name@,
        decreases tasks@.len() - i,
    {
        if tasks[i].name == *name {
            assert(tasks_view(tasks@)[i as int].name == name@);
            return true;
        }
        i = i + 1;
    }
    false
}

/// Whether some task other than the one at `except` carries this name.
fn other_task_with_name(tasks: &Vec<Task>, name: &String, except: usize) -> (r: bool)
    ensures
        r == other_task_named(tasks_view(tasks@), name@, except as int),
{
    let mut i: usize = 0;
    while i < tasks.len()
        invariant
            i <= tasks@.len(),
            forall|k: int|
                0 <= k < i && k != except as int ==> tasks_view(tasks@)[k].name != name@,
        decreases tasks@.len() - i,
    {
        if i != except && tasks[i].name == *name {
            assert(tasks_view(tasks@)[i as int].name == name@);
            return true;
        }
        i = i + 1;
    }
    false
}

/// Whether the task names within `tasks` are pairwise distinct.
fn tasks_names_unique(tasks: &Vec<Task>) -> (r: bool)
    ensures
        r == task_names_unique(tasks_view(tasks@)),
{
    let mut i: usize = 0;
    while i < tasks.len()
        invariant
            i <= tasks@.len(),
            forall|a: int, b: int|
                0 <= a < b < i ==> tasks_view(tasks@)[a].name != tasks_view(tasks@)[b].name,
        decreases tasks@.len() - i,
    {
        let mut j: usize = 0;
        while j < i
            invariant
                j <= i < tasks@.len(),
                forall|a: int, b: int|
                    0 <= a < b < i ==> tasks_view(tasks@)[a].name != tasks_view(tasks@)[b].name,
                forall|a: int| 0 <= a < j ==> tasks_view(tasks@)[a].name != tasks_view(
                    tasks@,
                )[i as int].name,
            decreases i - j,
        {
            if tasks[j].name == tasks[i].name {
                assert(tasks_view(tasks@)[j as int].name == tasks_view(tasks@)[i as int].name);
                return false;
            }
            j = j + 1;
        }
        i = i + 1;
    }
    assert forall|a: int, b: int|
        0 <= a < tasks_view(tasks@).len() && 0 <= b < tasks_view(tasks@).len() && a
            != b implies tasks_view(tasks@)[a].name != tasks_view(tasks@)[b].name by {
        if a < b {
        } else {
        }
    }
    true
}

/// Whether a loaded collection is well formed: unique list names, and
/// unique task names within each list.
fn check_lists_wf(lists: &Vec<List>) -> (r: bool)
    ensures
        r == lists_wf(lists_view(lists@)),
{
    let mut i: usize = 0;
    while i < lists.len()
        invariant
            i <= lists@.len(),
            forall|a: int, b: int|
                0 <= a < b < i ==> lists_view(lists@)[a].name != lists_view(lists@)[b].name,
            forall|a: int| 0 <= a < i ==> task_names_unique(#[trigger] lists_view(lists@)[a].tasks),
        decreases lists@.len() - i,
    {
        if !tasks_names_unique(&lists[i].tasks) {
            assert(lists_view(lists@)[i as int].tasks == tasks_view(lists@[i as int].tasks@));
            return false;
        }
        let mut j: usize = 0;
        while j < i
            invariant
                j <= i < lists@.len(),
                forall|a: int, b: int|
                    0 <= a < b < i ==> lists_view(lists@)[a].name != lists_view(lists@)[b].name,
                forall|a: int| 0 <= a < j ==> lists_view(lists@)[a].name != lists_view(
                    lists@,
                )[i as int].name,
            decreases i - j,
        {
            if lists[j].name == lists[i].name {
                assert(lists_view(lists@)[j as int].name == lists_view(lists@)[i as int].name);
                return false;
            }
            j = j + 1;
        }
        assert(lists_view(lists@)[i as int].tasks == tasks_view(lists@[i as int].tasks@));
        i = i + 1;
    }
    assert forall|a: int, b: int|
        0 <= a < lists_view(lists@).len() && 0 <= b < lists_view(lists@).len() && a
            != b implies lists_view(lists@)[a].name != lists_view(lists@)[b].name by {
        if a < b {
        } else {
        }
    }
    true
}

impl App {
    /// Build the application state from a loaded collection. A
    /// collection that breaks name uniqueness is treated like corrupt
    /// storage: the state falls back to an empty collection. The first
    /// list is selected when one exists, and its first task when that
    /// list has tasks.
    pub fn new(lists: Vec<List>) -> (r: App)
        ensures
            r.inv(),
            r@.mode == AppMode::Normal,
            r@.input_buffer == Seq::<char>::empty(),
            lists_wf(lists_view(lists@)) ==> r@.lists == lists_view(lists@),
            !lists_wf(lists_view(lists@)) ==> r@.lists == Seq::<ListV>::empty(),
            r@.selected_list_index == (if r@.lists.len() > 0 {
                Some(0usize)
            } else {
                None::<usize>
            }),
            r@.selected_task_index == (if r@.lists.len() > 0 && r@.lists[0].tasks.len() > 0 {
                Some(0usize)
            } else {
                None::<usize>
            }),
    {
        let lists = if check_lists_wf(&lists) {
            lists
        } else {
            Vec::new()
        };
        let selected_list_index = if lists.len() == 0 {
            None
        } else {
            Some(0usize)
        };
        let selected_task_index = if lists.len() > 0 && lists[0].tasks.len() > 0 {
            Some(0usize)
        } else {
            None
        };
        let r = App {
            lists,
            selected_list_index,
            selected_task_index,
            mode: AppMode::Normal,
            input_buffer: String::new(),
        };
        proof {
            assert(lists_view(Seq::<List>::empty()) =~= Seq::<ListV>::empty());
        }
        r
    }

    /// Repair the task selection after a change of list selection.
    pub fn reset_task_selection(&mut self)
        ensures
            reset_step(old(self)@, final(self)@),
            old(self).inv() ==> final(self).inv(),
    {
        self.selected_task_index = match self.selected_list_index {
            Some(list_index) => {
                if list_index < self.lists.len() {
                    if self.lists[list_index].tasks.len() > 0 {
                        Some(0usize)
                    } else {
                        None
                    }
                } else {
                    None
                }
            },
            None => None,
        };
    }

    /// Move the list selection one down and repair the task
    /// selection; a no-op when no list is selected or the last list
    /// already is.
    pub fn select_next_list(&mut self)
        requires
            old(self).inv(),
        ensures
            final(self).inv(),
            next_list_step(old(self)@, final(self)@),
    {
        let count = self.lists.len();
        if let Some(index) = self.selected_list_index {
            if index < count && index + 1 < count {
                self.selected_list_index = Some(index + 1);
                self.reset_task_selection();
            }
        }
    }

    /// Move the list selection one up and repair the task selection;
    /// a no-op when no list is selected or the first list already is.
    pub fn select_previous_list(&mut self)
        requires
            old(self).inv(),
        ensures
            final(self).inv(),
            prev_list_step(old(self)@, final(self)@),
    {
        if let Some(index) = self.selected_list_index {
            if index > 0 {
                self.selected_list_index = Some(index - 1);
                self.reset_task_selection();
            }
        }
    }

    /// Move the task selection one down within the selected list,
    /// clamped to its last task.
    pub fn select_next_task(&mut self)
        requires
            old(self).inv(),
        ensures
            final(self).inv(),
            next_task_step(old(self)@, final(self)@),
    {
        match (self.selected_list_index, self.selected_task_index) {
            (Some(list_index), Some(task_index)) => {
                if list_index < self.lists.len() {
                    let task_count = self.lists[list_index].tasks.len();
                    if task_index < task_count && task_index + 1 < task_count {
                        self.selected_task_index = Some(task_index + 1);
                    }
                }
            },
            (Some(list_index), None) => {
                if list_index < self.lists.len() {
                    if self.lists[list_index].tasks.len() > 0 {
                        self.selected_task_index = Some(0usize);
                    }
                }
            },
            (None, _) => {},
        }
    }

    /// Move the task selection one up, clamped to the first task.
    pub fn select_previous_task(&mut self)
        requires
            old(self).inv(),
        ensures
            final(self).inv(),
            prev_task_step(old(self)@, final(self)@),
    {
        if let Some(task_index) = self.selected_task_index {
            if task_index > 0 {
                self.selected_task_index = Some(task_index - 1);
            }
        }
    }

    /// Append a list with the given name and no tasks, and select it.
    /// Refused with `DuplicateName` when some list already carries the
    /// name (exact match); the state is then unchanged.
    pub fn create_list(&mut self, name: String) -> (r: Result<(), OpError>)
        requires
            old(self).inv(),
        ensures
            final(self).inv(),
            create_list_step(old(self)@, name@, final(self)@, r),
    {
        if has_list_with_name(&self.lists, &name) {
            return Err(OpError::DuplicateName);
        }
        let ghost pre = self@;
        let new_list = List { name, tasks: Vec::new() };
        self.lists.push(new_list);
        self.selected_list_index = Some(self.lists.len() - 1);
        self.selected_task_index = None;
        proof {
            assert(tasks_view(new_list.tasks@) =~= Seq::<TaskV>::empty());
            assert(lists_view(self.lists@) =~~= pre.lists.push(
                ListV { name: new_list.name@, tasks: Seq::empty() },
            ));
            lemma_wf_push_fresh(pre.lists, new_list.name@);
        }
        Ok(())
    }

    /// Rename the selected list. Refused with `DuplicateName` when a
    /// list other than the selected one already carries the name; a
    /// no-op success when nothing is selected.
    pub fn edit_selected_list(&mut self, new_name: String) -> (r: Result<(), OpError>)
        requires
            old(self).inv(),
        ensures
            final(self).inv(),
            edit_list_step(old(self)@, new_name@, final(self)@, r),
    {
        match self.selected_list_index {
            Some(index) => {
                if other_list_with_name(&self.lists, &new_name, index) {
                    return Err(OpError::DuplicateName);
                }
                let ghost pre = self@;
                let old_list = self.lists.remove(index);
                let renamed = List { name: new_name, tasks: old_list.tasks };
                self.lists.insert(index, renamed);
                proof {
                    assert(lists_view(self.lists@) =~~= pre.lists.update(
                        index as int,
                        ListV { name: renamed.name@, tasks: pre.lists[index as int].tasks },
                    ));
                    lemma_wf_rename(pre.lists, index as int, renamed.name@);
                }
                Ok(())
            },
            None => {
                if has_list_with_name(&self.lists, &new_name) {
                    Err(OpError::DuplicateName)
                } else {
                    Ok(())
                }
            },
        }
    }

    /// Remove the selected list; repair both selections. A no-op when
    /// nothing is selected.
    pub fn delete_selected_list(&mut self)
        requires
            old(self).inv(),
        ensures
            final(self).inv(),
            delete_list_step(old(self)@, final(self)@),
    {
        if let Some(index) = self.selected_list_index {
            let ghost pre = self@;
            self.lists.remove(index);
            if self.lists.len() == 0 {
                self.selected_list_index = None;
            } else if index >= self.lists.len() {
                self.selected_list_index = Some(self.lists.len() - 1);
            }
            proof {
                assert(lists_view(self.lists@) =~~= pre.lists.remove(index as int));
                lemma_wf_remove(pre.lists, index as int);
            }
            self.reset_task_selection();
        }
    }

    /// Append a not-completed task with the given name to the selected
    /// list, and select it. Refused with `NoListSelected` when no list
    /// is selected, and with `DuplicateName` when the selected list
    /// already has a task carrying the name; the state is then
    /// unchanged.
    pub fn add_task_to_selected_list(&mut self, name: String) -> (r: Result<(), OpError>)
        requires
            old(self).inv(),
        ensures
            final(self).inv(),
            add_task_step(old(self)@, name@, final(self)@, r),
    {
        if let Some(list_index) = self.selected_list_index {
            if has_task_with_name(&self.lists[list_index].tasks, &name) {
                assert(tasks_view(self.lists@[list_index as int].tasks@) == self@.lists[list_index
                    as int].tasks);
                return Err(OpError::DuplicateName);
            }
            let ghost pre = self@;
            let mut list = self.lists.remove(list_index);
            list.tasks.push(Task { name, completed: false });
            let new_len = list.tasks.len();
            self.lists.insert(list_index, list);
            self.selected_task_index = Some(new_len - 1);
            proof {
                let i = list_index as int;
                assert(tasks_view(list.tasks@) =~= pre.lists[i].tasks.push(
                    TaskV { name: list.tasks@.last().name@, completed: false },
                ));
                assert(lists_view(self.lists@) =~~= pre.lists.update(
                    i,
                    ListV {
                        name: pre.lists[i].name,
                        tasks: pre.lists[i].tasks.push(
                            TaskV { name: list.tasks@.last().name@, completed: false },
                        ),
                    },
                ));
                lemma_tasks_unique_push_fresh(pre.lists[i].tasks, list.tasks@.last().name@, false);
                lemma_wf_update_tasks(
                    pre.lists,
                    i,
                    pre.lists[i].tasks.push(
                        TaskV { name: list.tasks@.last().name@, completed: false },
                    ),
                );
            }
            Ok(())
        } else {
            Err(OpError::NoListSelected)
        }
    }

    /// Rename the selected task. Refused with `NoTaskSelected` when no
    /// list and task are both selected, and with `DuplicateName` when
    /// another task of the selected list already carries the name; the
    /// state is then unchanged.
    pub fn edit_selected_task(&mut self, new_name: String) -> (r: Result<(), OpError>)
        requires
            old(self).inv(),
        ensures
            final(self).inv(),
            edit_task_step(old(self)@, new_name@, final(self)@, r),
    {
        if let (Some(list_index), Some(task_index)) = (
            self.selected_list_index,
            self.selected_task_index,
        ) {
            if other_task_with_name(&self.lists[list_index].tasks, &new_name, task_index) {
                assert(tasks_view(self.lists@[list_index as int].tasks@) == self@.lists[list_index
                    as int].tasks);
                return Err(OpError::DuplicateName);
            }
            let ghost pre = self@;
            let mut list = self.lists.remove(list_index);
            let old_task = list.tasks.remove(task_index);
            let new_task = Task { name: new_name, completed: old_task.completed };
            list.tasks.insert(task_index, new_task);
            self.lists.insert(list_index, list);
            proof {
                let i = list_index as int;
                let j = task_index as int;
                assert(tasks_view(list.tasks@) =~= pre.lists[i].tasks.update(
                    j,
                    TaskV { name: new_task.name@, completed: pre.lists[i].tasks[j].completed },
                ));
                assert(lists_view(self.lists@) =~~= pre.lists.update(
                    i,
                    ListV {
                        name: pre.lists[i].name,
                        tasks: pre.lists[i].tasks.update(
                            j,
                            TaskV {
                                name: new_task.name@,
                                completed: pre.lists[i].tasks[j].completed,
                            },
                        ),
                    },
                ));
                lemma_tasks_unique_rename(pre.lists[i].tasks, j, new_task.name@);
                lemma_wf_update_tasks(
                    pre.lists,
                    i,
                    pre.lists[i].tasks.update(
                        j,
                        TaskV { name: new_task.name@, completed: pre.lists[i].tasks[j].completed },
                    ),
                );
            }
            Ok(())
        } else {
            Err(OpError::NoTaskSelected)
        }
    }

    /// Remove the selected task; repair the task selection. A no-op
    /// when no list and task are both selected.
    pub fn delete_selected_task(&mut self)
        requires
            old(self).inv(),
        ensures
            final(self).inv(),
            delete_task_step(old(self)@, final(self)@),
    {
        if let (Some(list_index), Some(task_index)) = (
            self.selected_list_index,
            self.selected_task_index,
        ) {
            let ghost pre = self@;
            let mut list = self.lists.remove(list_index);
            list.tasks.remove(task_index);
            let new_task_count = list.tasks.len();
            self.lists.insert(list_index, list);
            if new_task_count == 0 {
                self.selected_task_index = None;
            } else if task_index >= new_task_count {
                self.selected_task_index = Some(new_task_count - 1);
            }
            proof {
                let i = list_index as int;
                let j = task_index as int;
                assert(tasks_view(list.tasks@) =~= pre.lists[i].tasks.remove(j));
                assert(lists_view(self.lists@) =~~= pre.lists.update(
                    i,
                    ListV { name: pre.lists[i].name, tasks: pre.lists[i].tasks.remove(j) },
                ));
                lemma_tasks_unique_remove(pre.lists[i].tasks, j);
                lemma_wf_update_tasks(pre.lists, i, pre.lists[i].tasks.remove(j));
            }
        }
    }

    /// Flip the selected task's `completed` flag. A no-op when no list
    /// and task are both selected.
    pub fn toggle_selected_task_status(&mut self)
        requires
            old(self).inv(),
        ensures
            final(self).inv(),
            toggle_step(old(self)@, final(self)@),
    {
        if let (Some(list_index), Some(task_index)) = (
            self.selected_list_index,
            self.selected_task_index,
        ) {
            let ghost pre = self@;
            let mut list = self.lists.remove(list_index);
            let old_task = list.tasks.remove(task_index);
            let new_task = Task { name: old_task.name, completed: !old_task.completed };
            list.tasks.insert(task_index, new_task);
            self.lists.insert(list_index, list);
            proof {
                let i = list_index as int;
                let j = task_index as int;
                assert(tasks_view(list.tasks@) =~= pre.lists[i].tasks.update(
                    j,
                    TaskV {
                        name: pre.lists[i].tasks[j].name,
                        completed: !pre.lists[i].tasks[j].completed,
                    },
                ));
                assert(lists_view(self.lists@) =~~= pre.lists.update(
                    i,
                    ListV {
                        name: pre.lists[i].name,
                        tasks: pre.lists[i].tasks.update(
                            j,
                            TaskV {
                                name: pre.lists[i].tasks[j].name,
                                completed: !pre.lists[i].tasks[j].completed,
                            },
                        ),
                    },
                ));
                lemma_tasks_unique_toggle(pre.lists[i].tasks, j);
                lemma_wf_update_tasks(
                    pre.lists,
                    i,
                    pre.lists[i].tasks.update(
                        j,
                        TaskV {
                            name: pre.lists[i].tasks[j].name,
                            completed: !pre.lists[i].tasks[j].completed,
                        },
                    ),
                );
            }
        }
    }
}

} // verus!
