use task_lists::model::{AppMode, List, OpError, Task};
use task_lists::{handle_input, App, KeyInput, KeyKind};

fn press(app: &mut App, code: KeyInput) -> task_lists::InputOutcome {
    handle_input(app, code, KeyKind::Press)
}

fn type_word(app: &mut App, word: &str) {
    for c in word.chars() {
        press(app, KeyInput::Char(c));
    }
}

#[test]
fn release_and_repeat_events_are_ignored() {
    let mut app = App::new(Vec::new());
    let out = handle_input(&mut app, KeyInput::Char('n'), KeyKind::Release);
    assert_eq!(app.mode, AppMode::Normal);
    assert!(!out.quit && !out.save && out.error.is_none());
    let out = handle_input(&mut app, KeyInput::Char('q'), KeyKind::Repeat);
    assert!(!out.quit);
}

#[test]
fn quit_requests_save_and_exit() {
    let mut app = App::new(Vec::new());
    let out = press(&mut app, KeyInput::Char('q'));
    assert!(out.quit);
    assert!(out.save);
    assert_eq!(app.mode, AppMode::Normal);
}

#[test]
fn unknown_keys_in_normal_mode_are_ignored() {
    let mut app = App::new(Vec::new());
    let out = press(&mut app, KeyInput::Char('z'));
    assert_eq!(app.mode, AppMode::Normal);
    assert!(!out.quit && !out.save && out.error.is_none());
    press(&mut app, KeyInput::Enter);
    assert_eq!(app.mode, AppMode::Normal);
}

#[test]
fn create_list_via_keys() {
    let mut app = App::new(Vec::new());
    press(&mut app, KeyInput::Char('n'));
    assert_eq!(app.mode, AppMode::CreatingList);
    type_word(&mut app, "Chores");
    assert_eq!(app.input_buffer, "Chores");
    let out = press(&mut app, KeyInput::Enter);
    assert_eq!(app.mode, AppMode::Normal);
    assert_eq!(app.input_buffer, "");
    assert!(out.save);
    assert!(out.error.is_none());
    assert_eq!(app.lists.len(), 1);
    assert_eq!(app.lists[0].name, "Chores");
}

#[test]
fn backspace_edits_buffer_and_is_noop_when_empty() {
    let mut app = App::new(Vec::new());
    press(&mut app, KeyInput::Char('n'));
    press(&mut app, KeyInput::Backspace);
    assert_eq!(app.input_buffer, "");
    type_word(&mut app, "ab");
    press(&mut app, KeyInput::Backspace);
    assert_eq!(app.input_buffer, "a");
}

#[test]
fn escape_cancels_creation_without_mutation() {
    let mut app = App::new(Vec::new());
    press(&mut app, KeyInput::Char('n'));
    type_word(&mut app, "abc");
    let out = press(&mut app, KeyInput::Esc);
    assert_eq!(app.mode, AppMode::Normal);
    assert!(!out.save);
    assert_eq!(app.lists.len(), 0);
    assert_eq!(app.input_buffer, "");
}

#[test]
fn confirm_create_task_without_list() {
    let mut app = App::new(Vec::new());
    press(&mut app, KeyInput::Char('N'));
    assert_eq!(app.mode, AppMode::CreatingTask);
    type_word(&mut app, "X");
    let out = press(&mut app, KeyInput::Enter);
    assert_eq!(out.error, Some(OpError::NoListSelected));
    assert!(!out.save);
    assert_eq!(app.input_buffer, "");
    assert_eq!(app.mode, AppMode::Normal);
    assert_eq!(app.lists.len(), 0);
}

#[test]
fn duplicate_create_reports_error_and_returns_to_normal() {
    let mut app = App::new(vec![List { name: "a".to_string(), tasks: vec![] }]);
    press(&mut app, KeyInput::Char('n'));
    type_word(&mut app, "a");
    let out = press(&mut app, KeyInput::Enter);
    assert_eq!(out.error, Some(OpError::DuplicateName));
    assert!(!out.save);
    assert_eq!(app.mode, AppMode::Normal);
    assert_eq!(app.lists.len(), 1);
}

#[test]
fn edit_modes_require_selection() {
    let mut app = App::new(Vec::new());
    press(&mut app, KeyInput::Char('e'));
    assert_eq!(app.mode, AppMode::Normal);
    press(&mut app, KeyInput::Char('E'));
    assert_eq!(app.mode, AppMode::Normal);
    press(&mut app, KeyInput::Char('d'));
    assert_eq!(app.mode, AppMode::Normal);
    press(&mut app, KeyInput::Char('D'));
    assert_eq!(app.mode, AppMode::Normal);
}

#[test]
fn edit_list_via_keys() {
    let mut app = App::new(vec![List { name: "a".to_string(), tasks: vec![] }]);
    press(&mut app, KeyInput::Char('e'));
    assert_eq!(app.mode, AppMode::EditingList);
    type_word(&mut app, "b");
    let out = press(&mut app, KeyInput::Enter);
    assert!(out.save);
    assert_eq!(app.lists[0].name, "b");
    assert_eq!(app.mode, AppMode::Normal);
}

#[test]
fn edit_task_via_keys() {
    let mut app = App::new(vec![List {
        name: "a".to_string(),
        tasks: vec![Task { name: "x".to_string(), completed: false }],
    }]);
    press(&mut app, KeyInput::Char('E'));
    assert_eq!(app.mode, AppMode::EditingTask);
    type_word(&mut app, "y");
    let out = press(&mut app, KeyInput::Enter);
    assert!(out.save);
    assert_eq!(app.lists[0].tasks[0].name, "y");
}

#[test]
fn delete_list_asks_for_confirmation() {
    let mut app = App::new(vec![List { name: "a".to_string(), tasks: vec![] }]);
    press(&mut app, KeyInput::Char('d'));
    assert_eq!(app.mode, AppMode::ConfirmDeleteList);
    let out = press(&mut app, KeyInput::Char('n'));
    assert_eq!(app.mode, AppMode::Normal);
    assert!(!out.save);
    assert_eq!(app.lists.len(), 1);
    press(&mut app, KeyInput::Char('d'));
    let out = press(&mut app, KeyInput::Char('y'));
    assert_eq!(app.mode, AppMode::Normal);
    assert!(out.save);
    assert_eq!(app.lists.len(), 0);
}

#[test]
fn delete_task_confirmation_declined_by_escape() {
    let mut app = App::new(vec![List {
        name: "a".to_string(),
        tasks: vec![Task { name: "x".to_string(), completed: false }],
    }]);
    press(&mut app, KeyInput::Char('D'));
    assert_eq!(app.mode, AppMode::ConfirmDeleteTask);
    press(&mut app, KeyInput::Esc);
    assert_eq!(app.mode, AppMode::Normal);
    assert_eq!(app.lists[0].tasks.len(), 1);
    press(&mut app, KeyInput::Char('D'));
    let out = press(&mut app, KeyInput::Char('y'));
    assert!(out.save);
    assert_eq!(app.lists[0].tasks.len(), 0);
}

#[test]
fn space_toggles_selected_task() {
    let mut app = App::new(vec![List {
        name: "a".to_string(),
        tasks: vec![Task { name: "x".to_string(), completed: false }],
    }]);
    let out = press(&mut app, KeyInput::Char(' '));
    assert!(out.save);
    assert!(app.lists[0].tasks[0].completed);
}

#[test]
fn space_without_task_does_not_save() {
    let mut app = App::new(Vec::new());
    let out = press(&mut app, KeyInput::Char(' '));
    assert!(!out.save);
}

#[test]
fn navigation_keys_move_selection() {
    let mut app = App::new(vec![
        List {
            name: "a".to_string(),
            tasks: vec![
                Task { name: "x".to_string(), completed: false },
                Task { name: "y".to_string(), completed: false },
            ],
        },
        List { name: "b".to_string(), tasks: vec![] },
    ]);
    press(&mut app, KeyInput::Right);
    assert_eq!(app.selected_task_index, Some(1));
    press(&mut app, KeyInput::Left);
    assert_eq!(app.selected_task_index, Some(0));
    press(&mut app, KeyInput::Down);
    assert_eq!(app.selected_list_index, Some(1));
    assert_eq!(app.selected_task_index, None);
    press(&mut app, KeyInput::Up);
    assert_eq!(app.selected_list_index, Some(0));
    assert_eq!(app.selected_task_index, Some(0));
    press(&mut app, KeyInput::Char('l'));
    assert_eq!(app.selected_task_index, Some(1));
    press(&mut app, KeyInput::Char('j'));
    assert_eq!(app.selected_task_index, Some(0));
    press(&mut app, KeyInput::Char('k'));
    assert_eq!(app.selected_list_index, Some(1));
    press(&mut app, KeyInput::Char('i'));
    assert_eq!(app.selected_list_index, Some(0));
}
