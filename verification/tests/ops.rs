use task_lists::model::{AppMode, List, OpError, Task};
use task_lists::App;

fn list(name: &str, tasks: Vec<Task>) -> List {
    List { name: name.to_string(), tasks }
}

fn task(name: &str, completed: bool) -> Task {
    Task { name: name.to_string(), completed }
}

#[test]
fn new_empty_collection_selects_nothing() {
    let app = App::new(Vec::new());
    assert_eq!(app.lists.len(), 0);
    assert_eq!(app.selected_list_index, None);
    assert_eq!(app.selected_task_index, None);
    assert_eq!(app.mode, AppMode::Normal);
    assert_eq!(app.input_buffer, "");
}

#[test]
fn new_selects_first_list_and_first_task() {
    let app = App::new(vec![
        list("a", vec![task("x", true), task("y", false)]),
        list("b", vec![]),
    ]);
    assert_eq!(app.lists.len(), 2);
    assert_eq!(app.selected_list_index, Some(0));
    assert_eq!(app.selected_task_index, Some(0));
}

#[test]
fn new_first_list_without_tasks_selects_no_task() {
    let app = App::new(vec![list("a", vec![]), list("b", vec![task("x", false)])]);
    assert_eq!(app.selected_list_index, Some(0));
    assert_eq!(app.selected_task_index, None);
}

#[test]
fn new_with_duplicate_list_names_falls_back_to_empty() {
    let app = App::new(vec![list("a", vec![]), list("a", vec![])]);
    assert_eq!(app.lists.len(), 0);
    assert_eq!(app.selected_list_index, None);
}

#[test]
fn new_with_duplicate_task_names_falls_back_to_empty() {
    let app = App::new(vec![list("a", vec![task("x", false), task("x", true)])]);
    assert_eq!(app.lists.len(), 0);
}

#[test]
fn create_list_appends_and_selects() {
    let mut app = App::new(Vec::new());
    assert!(app.create_list("Groceries".to_string()).is_ok());
    assert_eq!(app.lists.len(), 1);
    assert_eq!(app.lists[0].name, "Groceries");
    assert_eq!(app.lists[0].tasks.len(), 0);
    assert_eq!(app.selected_list_index, Some(0));
    assert_eq!(app.selected_task_index, None);
}

#[test]
fn create_list_duplicate_name_fails_and_changes_nothing() {
    let mut app = App::new(Vec::new());
    assert!(app.create_list("a".to_string()).is_ok());
    assert!(app.create_list("b".to_string()).is_ok());
    let r = app.create_list("a".to_string());
    assert_eq!(r, Err(OpError::DuplicateName));
    assert_eq!(app.lists.len(), 2);
    assert_eq!(app.lists[0].name, "a");
    assert_eq!(app.lists[1].name, "b");
    assert_eq!(app.selected_list_index, Some(1));
}

#[test]
fn create_list_duplicate_is_case_sensitive() {
    let mut app = App::new(Vec::new());
    assert!(app.create_list("a".to_string()).is_ok());
    assert!(app.create_list("A".to_string()).is_ok());
    assert_eq!(app.lists.len(), 2);
}

#[test]
fn edit_selected_list_renames_in_place() {
    let mut app = App::new(vec![list("a", vec![]), list("b", vec![])]);
    assert!(app.edit_selected_list("c".to_string()).is_ok());
    assert_eq!(app.lists[0].name, "c");
    assert_eq!(app.lists[1].name, "b");
    assert_eq!(app.selected_list_index, Some(0));
}

#[test]
fn edit_selected_list_to_other_name_fails() {
    let mut app = App::new(vec![list("a", vec![]), list("b", vec![])]);
    let r = app.edit_selected_list("b".to_string());
    assert_eq!(r, Err(OpError::DuplicateName));
    assert_eq!(app.lists[0].name, "a");
}

#[test]
fn edit_selected_list_to_own_name_succeeds() {
    let mut app = App::new(vec![list("a", vec![]), list("b", vec![])]);
    assert!(app.edit_selected_list("a".to_string()).is_ok());
    assert_eq!(app.lists[0].name, "a");
}

#[test]
fn edit_list_without_selection_is_noop_success() {
    let mut app = App::new(Vec::new());
    assert!(app.edit_selected_list("a".to_string()).is_ok());
    assert_eq!(app.lists.len(), 0);
}

#[test]
fn delete_selected_second_list() {
    let mut app = App::new(vec![list("A", vec![]), list("B", vec![])]);
    app.select_next_list();
    assert_eq!(app.selected_list_index, Some(1));
    app.delete_selected_list();
    assert_eq!(app.lists.len(), 1);
    assert_eq!(app.lists[0].name, "A");
    assert_eq!(app.selected_list_index, Some(0));
}

#[test]
fn delete_only_list_clears_both_selections() {
    let mut app = App::new(vec![list("a", vec![task("x", false)])]);
    app.delete_selected_list();
    assert_eq!(app.lists.len(), 0);
    assert_eq!(app.selected_list_index, None);
    assert_eq!(app.selected_task_index, None);
}

#[test]
fn delete_first_of_two_lists_keeps_index() {
    let mut app = App::new(vec![list("a", vec![]), list("b", vec![task("x", true)])]);
    app.delete_selected_list();
    assert_eq!(app.lists.len(), 1);
    assert_eq!(app.lists[0].name, "b");
    assert_eq!(app.selected_list_index, Some(0));
    assert_eq!(app.selected_task_index, Some(0));
}

#[test]
fn delete_without_selection_is_noop() {
    let mut app = App::new(Vec::new());
    app.delete_selected_list();
    assert_eq!(app.lists.len(), 0);
}

#[test]
fn add_task_appends_and_selects() {
    let mut app = App::new(vec![list("a", vec![task("x", false)])]);
    assert!(app.add_task_to_selected_list("y".to_string()).is_ok());
    assert_eq!(app.lists[0].tasks.len(), 2);
    assert_eq!(app.lists[0].tasks[1].name, "y");
    assert!(!app.lists[0].tasks[1].completed);
    assert_eq!(app.selected_task_index, Some(1));
}

#[test]
fn add_task_without_list_fails() {
    let mut app = App::new(Vec::new());
    let r = app.add_task_to_selected_list("x".to_string());
    assert_eq!(r, Err(OpError::NoListSelected));
}

#[test]
fn add_task_duplicate_name_fails() {
    let mut app = App::new(vec![list("a", vec![task("x", false)])]);
    let r = app.add_task_to_selected_list("x".to_string());
    assert_eq!(r, Err(OpError::DuplicateName));
    assert_eq!(app.lists[0].tasks.len(), 1);
}

#[test]
fn edit_selected_task_renames_in_place() {
    let mut app = App::new(vec![list("a", vec![task("x", true), task("y", false)])]);
    assert!(app.edit_selected_task("z".to_string()).is_ok());
    assert_eq!(app.lists[0].tasks[0].name, "z");
    assert!(app.lists[0].tasks[0].completed);
    assert_eq!(app.lists[0].tasks[1].name, "y");
}

#[test]
fn edit_selected_task_to_other_task_name_fails() {
    let mut app = App::new(vec![list("a", vec![task("x", false), task("y", false)])]);
    let r = app.edit_selected_task("y".to_string());
    assert_eq!(r, Err(OpError::DuplicateName));
    assert_eq!(app.lists[0].tasks[0].name, "x");
}

#[test]
fn edit_selected_task_to_own_name_succeeds() {
    let mut app = App::new(vec![list("a", vec![task("x", false)])]);
    assert!(app.edit_selected_task("x".to_string()).is_ok());
    assert_eq!(app.lists[0].tasks[0].name, "x");
}

#[test]
fn edit_task_without_selection_fails() {
    let mut app = App::new(vec![list("a", vec![])]);
    let r = app.edit_selected_task("x".to_string());
    assert_eq!(r, Err(OpError::NoTaskSelected));
}

#[test]
fn delete_last_task_reselects_new_last() {
    let mut app = App::new(vec![list("a", vec![task("x", false), task("y", false)])]);
    app.select_next_task();
    assert_eq!(app.selected_task_index, Some(1));
    app.delete_selected_task();
    assert_eq!(app.lists[0].tasks.len(), 1);
    assert_eq!(app.lists[0].tasks[0].name, "x");
    assert_eq!(app.selected_task_index, Some(0));
}

#[test]
fn delete_only_task_clears_task_selection() {
    let mut app = App::new(vec![list("a", vec![task("x", false)])]);
    app.delete_selected_task();
    assert_eq!(app.lists[0].tasks.len(), 0);
    assert_eq!(app.selected_task_index, None);
    assert_eq!(app.selected_list_index, Some(0));
}

#[test]
fn delete_nonlast_task_keeps_index() {
    let mut app = App::new(vec![list(
        "a",
        vec![task("x", false), task("y", false), task("z", false)],
    )]);
    app.delete_selected_task();
    assert_eq!(app.lists[0].tasks.len(), 2);
    assert_eq!(app.lists[0].tasks[0].name, "y");
    assert_eq!(app.selected_task_index, Some(0));
}

#[test]
fn toggle_flips_completed() {
    let mut app = App::new(vec![list("a", vec![task("x", false)])]);
    app.toggle_selected_task_status();
    assert!(app.lists[0].tasks[0].completed);
}

#[test]
fn toggle_twice_restores() {
    let mut app = App::new(vec![list("a", vec![task("x", false), task("y", true)])]);
    app.toggle_selected_task_status();
    app.toggle_selected_task_status();
    assert!(!app.lists[0].tasks[0].completed);
    assert!(app.lists[0].tasks[1].completed);
}

#[test]
fn toggle_without_selection_is_noop() {
    let mut app = App::new(Vec::new());
    app.toggle_selected_task_status();
    assert_eq!(app.lists.len(), 0);
}

#[test]
fn list_navigation_clamps() {
    let mut app = App::new(vec![list("a", vec![]), list("b", vec![task("x", false)])]);
    app.select_previous_list();
    assert_eq!(app.selected_list_index, Some(0));
    app.select_next_list();
    assert_eq!(app.selected_list_index, Some(1));
    assert_eq!(app.selected_task_index, Some(0));
    app.select_next_list();
    assert_eq!(app.selected_list_index, Some(1));
    app.select_previous_list();
    assert_eq!(app.selected_list_index, Some(0));
    assert_eq!(app.selected_task_index, None);
}

#[test]
fn task_navigation_clamps() {
    let mut app = App::new(vec![list("a", vec![task("x", false), task("y", false)])]);
    app.select_previous_task();
    assert_eq!(app.selected_task_index, Some(0));
    app.select_next_task();
    assert_eq!(app.selected_task_index, Some(1));
    app.select_next_task();
    assert_eq!(app.selected_task_index, Some(1));
    app.select_previous_task();
    assert_eq!(app.selected_task_index, Some(0));
}

#[test]
fn clamped_next_list_keeps_task_selection() {
    let mut app = App::new(vec![list("a", vec![task("x", false), task("y", false)])]);
    app.select_next_task();
    assert_eq!(app.selected_task_index, Some(1));
    app.select_next_list();
    assert_eq!(app.selected_list_index, Some(0));
    assert_eq!(app.selected_task_index, Some(1));
}

#[test]
fn clamped_previous_list_keeps_task_selection() {
    let mut app = App::new(vec![
        list("a", vec![task("x", false), task("y", false)]),
        list("b", vec![]),
    ]);
    app.select_next_task();
    assert_eq!(app.selected_task_index, Some(1));
    app.select_previous_list();
    assert_eq!(app.selected_list_index, Some(0));
    assert_eq!(app.selected_task_index, Some(1));
}

#[test]
fn navigation_without_lists_is_noop() {
    let mut app = App::new(Vec::new());
    app.select_next_list();
    app.select_previous_list();
    app.select_next_task();
    app.select_previous_task();
    assert_eq!(app.selected_list_index, None);
    assert_eq!(app.selected_task_index, None);
}

#[test]
fn grocery_scenario() {
    let mut app = App::new(Vec::new());
    assert!(app.create_list("Groceries".to_string()).is_ok());
    assert_eq!(app.lists.len(), 1);
    assert_eq!(app.lists[0].name, "Groceries");
    assert_eq!(app.selected_list_index, Some(0));
    assert_eq!(app.lists[0].tasks.len(), 0);
    assert_eq!(app.selected_task_index, None);

    assert!(app.add_task_to_selected_list("Milk".to_string()).is_ok());
    assert_eq!(app.lists[0].tasks.len(), 1);
    assert_eq!(app.lists[0].tasks[0].name, "Milk");
    assert!(!app.lists[0].tasks[0].completed);
    assert_eq!(app.selected_task_index, Some(0));

    app.toggle_selected_task_status();
    assert!(app.lists[0].tasks[0].completed);

    let r = app.add_task_to_selected_list("Milk".to_string());
    assert_eq!(r, Err(OpError::DuplicateName));
    assert_eq!(app.lists[0].tasks.len(), 1);
}
