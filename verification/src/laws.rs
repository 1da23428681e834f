//! Properties of the operations that relate whole transitions, stated
//! over the same step predicates the operations' contracts use, and
//! proved once and for all.

use crate::app::{
    both_selected_valid, delete_list_step, delete_task_step, state_inv, toggle_step, AppV,
};
use vstd::prelude::*;

verus! {

/// Deleting the only remaining list leaves nothing selected: neither a
/// list nor a task.
pub proof fn lemma_delete_only_list_clears_selection(pre: AppV, post: AppV)
    requires
        state_inv(pre),
        pre.lists.len() == 1,
        delete_list_step(pre, post),
    ensures
        post.selected_list_index is None,
        post.selected_task_index is None,
{
}

/// Deleting the currently-last task of the selected list re-selects
/// the new last task, or nothing when the list becomes empty.
pub proof fn lemma_delete_last_task_reselects(pre: AppV, post: AppV)
    requires
        state_inv(pre),
        both_selected_valid(pre),
        pre.selected_task_index.unwrap() as int == pre.lists[pre.selected_list_index.unwrap()
            as int].tasks.len() - 1,
        delete_task_step(pre, post),
    ensures
        pre.lists[pre.selected_list_index.unwrap() as int].tasks.len() == 1
            ==> post.selected_task_index is None,
        pre.lists[pre.selected_list_index.unwrap() as int].tasks.len() > 1
            ==> post.selected_task_index == Some(
            (pre.selected_task_index.unwrap() - 1) as usize,
        ),
{
}

/// Deleting a task that is not the last one leaves the selected task
/// index unchanged, and it is still in range afterwards.
pub proof fn lemma_delete_nonlast_task_keeps_index(pre: AppV, post: AppV)
    requires
        state_inv(pre),
        both_selected_valid(pre),
        (pre.selected_task_index.unwrap() as int) < pre.lists[pre.selected_list_index.unwrap()
            as int].tasks.len() - 1,
        delete_task_step(pre, post),
    ensures
        post.selected_task_index == pre.selected_task_index,
        both_selected_valid(post),
{
    let i = pre.selected_list_index.unwrap() as int;
    assert(post.lists[i].tasks.len() == pre.lists[i].tasks.len() - 1);
}

/// Toggling the selected task's completion flag twice returns the
/// whole state to where it began.
pub proof fn lemma_toggle_twice_roundtrip(a: AppV, b: AppV, c: AppV)
    requires
        toggle_step(a, b),
        toggle_step(b, c),
    ensures
        c == a,
{
    if both_selected_valid(a) {
        let i = a.selected_list_index.unwrap() as int;
        let j = a.selected_task_index.unwrap() as int;
        assert(b.lists[i].tasks[j].completed == !a.lists[i].tasks[j].completed);
        assert(c.lists =~~= a.lists);
        assert(c =~~= a);
    } else {
        assert(b.lists == a.lists);
        assert(b =~~= a);
        assert(c.lists == b.lists);
        assert(c =~~= a);
    }
}

} // verus!
