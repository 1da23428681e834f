//! The mode/input dispatcher: one key event at a time is interpreted
//! against the current mode and turned into at most one state
//! operation or mode transition.
//!
//! The whole transition relation is written down as [`input_step`];
//! [`handle_input`] is proved to follow it and to preserve the state
//! invariant. The caller is told through [`InputOutcome`] what remains
//! to be done outside the library: persist the collection, report an
//! operation failure, or quit.

use crate::app::{
    add_task_step, both_selected_valid, create_list_step, delete_list_step, delete_task_step,
    edit_list_step, edit_task_step, list_selected_valid, next_list_step, next_task_step,
    prev_list_step, prev_task_step, toggle_step, App, AppV,
};
use crate::model::{AppMode, OpError};
use crate::strutil::{pop_char, push_char};
use vstd::prelude::*;

verus! {

/// A key, reduced to what the dispatcher distinguishes.
#[derive(Clone, Copy, Debug)]
pub enum KeyInput {
    Char(char),
    Enter,
    Esc,
    Backspace,
    Up,
    Down,
    Left,
    Right,
    Other,
}

/// How the key event was produced. Only presses are acted upon.
#[derive(Clone, Copy, Debug, PartialEq, Eq, Structural)]
pub enum KeyKind {
    Press,
    Release,
    Repeat,
}

/// What the caller must do after a dispatch: persist the collection
/// (`save`), report a refused operation (`error`), or quit (`quit`,
/// after saving).
#[derive(Clone, Copy, Debug)]
pub struct InputOutcome {
    pub quit: bool,
    pub save: bool,
    pub error: Option<OpError>,
}

/// Nothing to do outside the library.
pub open spec fn quiet_outcome() -> InputOutcome {
    InputOutcome { quit: false, save: false, error: None }
}

/// The same state in another mode.
pub open spec fn with_mode(s: AppV, m: AppMode) -> AppV {
    AppV {
        lists: s.lists,
        selected_list_index: s.selected_list_index,
        selected_task_index: s.selected_task_index,
        mode: m,
        input_buffer: s.input_buffer,
    }
}

/// The same state in another mode, with the input buffer cleared.
pub open spec fn with_mode_cleared(s: AppV, m: AppMode) -> AppV {
    AppV {
        lists: s.lists,
        selected_list_index: s.selected_list_index,
        selected_task_index: s.selected_task_index,
        mode: m,
        input_buffer: Seq::empty(),
    }
}

/// The same state with another input buffer.
pub open spec fn with_buffer(s: AppV, b: Seq<char>) -> AppV {
    AppV {
        lists: s.lists,
        selected_list_index: s.selected_list_index,
        selected_task_index: s.selected_task_index,
        mode: s.mode,
        input_buffer: b,
    }
}

/// The outcome of a confirmed text entry: the collection is persisted
/// on success, and the failure is reported otherwise.
pub open spec fn entry_outcome(r: Result<(), OpError>, saved: bool) -> InputOutcome {
    InputOutcome {
        quit: false,
        save: saved,
        error: match r {
            Ok(_) => None,
            Err(e) => Some(e),
        },
    }
}

/// Transitions out of `Normal` mode.
pub open spec fn mode_normal_step(pre: AppV, code: KeyInput, post: AppV, out: InputOutcome) -> bool {
    match code {
        KeyInput::Char(c) => if c == 'q' {
            &&& post == pre
            &&& out == InputOutcome { quit: true, save: true, error: None::<OpError> }
        } else if c == 'n' {
            &&& post == with_mode_cleared(pre, AppMode::CreatingList)
            &&& out == quiet_outcome()
        } else if c == 'N' {
            &&& post == with_mode_cleared(pre, AppMode::CreatingTask)
            &&& out == quiet_outcome()
        } else if c == 'e' {
            &&& post == (if pre.selected_list_index is Some {
                with_mode_cleared(pre, AppMode::EditingList)
            } else {
                pre
            })
            &&& out == quiet_outcome()
        } else if c == 'E' {
            &&& post == (if pre.selected_task_index is Some {
                with_mode_cleared(pre, AppMode::EditingTask)
            } else {
                pre
            })
            &&& out == quiet_outcome()
        } else if c == 'd' {
            &&& post == (if pre.selected_list_index is Some {
                with_mode(pre, AppMode::ConfirmDeleteList)
            } else {
                pre
            })
            &&& out == quiet_outcome()
        } else if c == 'D' {
            &&& post == (if pre.selected_task_index is Some {
                with_mode(pre, AppMode::ConfirmDeleteTask)
            } else {
                pre
            })
            &&& out == quiet_outcome()
        } else if c == ' ' {
            &&& toggle_step(pre, post)
            &&& out == InputOutcome {
                quit: false,
                save: both_selected_valid(pre),
                error: None::<OpError>,
            }
        } else if c == 'k' {
            &&& next_list_step(pre, post)
            &&& out == quiet_outcome()
        } else if c == 'i' {
            &&& prev_list_step(pre, post)
            &&& out == quiet_outcome()
        } else if c == 'l' {
            &&& next_task_step(pre, post)
            &&& out == quiet_outcome()
        } else if c == 'j' {
            &&& prev_task_step(pre, post)
            &&& out == quiet_outcome()
        } else {
            &&& post == pre
            &&& out == quiet_outcome()
        },
        KeyInput::Down => {
            &&& next_list_step(pre, post)
            &&& out == quiet_outcome()
        },
        KeyInput::Up => {
            &&& prev_list_step(pre, post)
            &&& out == quiet_outcome()
        },
        KeyInput::Right => {
            &&& next_task_step(pre, post)
            &&& out == quiet_outcome()
        },
        KeyInput::Left => {
            &&& prev_task_step(pre, post)
            &&& out == quiet_outcome()
        },
        _ => {
            &&& post == pre
            &&& out == quiet_outcome()
        },
    }
}

/// Transitions of the four text-entry modes other than confirmation:
/// cancel discards the buffer and returns to `Normal`; characters are
/// appended; backspace removes the last character.
pub open spec fn mode_entry_common_step(
    pre: AppV,
    code: KeyInput,
    post: AppV,
    out: InputOutcome,
) -> bool {
    match code {
        KeyInput::Esc => {
            &&& post == with_mode_cleared(pre, AppMode::Normal)
            &&& out == quiet_outcome()
        },
        KeyInput::Char(c) => {
            &&& post == with_buffer(pre, pre.input_buffer.push(c))
            &&& out == quiet_outcome()
        },
        KeyInput::Backspace => {
            &&& post == with_buffer(
                pre,
                if pre.input_buffer.len() > 0 {
                    pre.input_buffer.drop_last()
                } else {
                    pre.input_buffer
                },
            )
            &&& out == quiet_outcome()
        },
        _ => {
            &&& post == pre
            &&& out == quiet_outcome()
        },
    }
}

/// The full transition relation of the dispatcher: what one key event
/// does to the state, and what it asks of the caller. Only presses are
/// acted upon; in the entry modes, confirming invokes the matching
/// operation with the buffer's contents and returns to `Normal`
/// whether or not the operation succeeded; in the confirm modes, only
/// an explicit yes deletes.
pub open spec fn input_step(
    pre: AppV,
    code: KeyInput,
    kind: KeyKind,
    post: AppV,
    out: InputOutcome,
) -> bool {
    if kind != KeyKind::Press {
        &&& post == pre
        &&& out == quiet_outcome()
    } else {
        match pre.mode {
            AppMode::Normal => mode_normal_step(pre, code, post, out),
            AppMode::CreatingList => match code {
                KeyInput::Enter => exists|mid: AppV, r: Result<(), OpError>|
                    {
                        &&& #[trigger] create_list_step(pre, pre.input_buffer, mid, r)
                        &&& post == with_mode_cleared(mid, AppMode::Normal)
                        &&& out == entry_outcome(r, r is Ok)
                    },
                _ => mode_entry_common_step(pre, code, post, out),
            },
            AppMode::CreatingTask => match code {
                KeyInput::Enter => exists|mid: AppV, r: Result<(), OpError>|
                    {
                        &&& #[trigger] add_task_step(pre, pre.input_buffer, mid, r)
                        &&& post == with_mode_cleared(mid, AppMode::Normal)
                        &&& out == entry_outcome(r, r is Ok)
                    },
                _ => mode_entry_common_step(pre, code, post, out),
            },
            AppMode::EditingList => match code {
                KeyInput::Enter => exists|mid: AppV, r: Result<(), OpError>|
                    {
                        &&& #[trigger] edit_list_step(pre, pre.input_buffer, mid, r)
                        &&& post == with_mode_cleared(mid, AppMode::Normal)
                        &&& out == entry_outcome(r, r is Ok && list_selected_valid(pre))
                    },
                _ => mode_entry_common_step(pre, code, post, out),
            },
            AppMode::EditingTask => match code {
                KeyInput::Enter => exists|mid: AppV, r: Result<(), OpError>|
                    {
                        &&& #[trigger] edit_task_step(pre, pre.input_buffer, mid, r)
                        &&& post == with_mode_cleared(mid, AppMode::Normal)
                        &&& out == entry_outcome(r, r is Ok)
                    },
                _ => mode_entry_common_step(pre, code, post, out),
            },
            AppMode::ConfirmDeleteList => match code {
                KeyInput::Char(c) => if c == 'y' {
                    exists|mid: AppV|
                        {
                            &&& #[trigger] delete_list_step(pre, mid)
                            &&& post == with_mode(mid, AppMode::Normal)
                            &&& out == InputOutcome {
                                quit: false,
                                save: list_selected_valid(pre),
                                error: None::<OpError>,
                            }
                        }
                } else if c == 'n' {
                    &&& post == with_mode(pre, AppMode::Normal)
                    &&& out == quiet_outcome()
                } else {
                    &&& post == pre
                    &&& out == quiet_outcome()
                },
                KeyInput::Esc => {
                    &&& post == with_mode(pre, AppMode::Normal)
                    &&& out == quiet_outcome()
                },
                _ => {
                    &&& post == pre
                    &&& out == quiet_outcome()
                },
            },
            AppMode::ConfirmDeleteTask => match code {
                KeyInput::Char(c) => if c == 'y' {
                    exists|mid: AppV|
                        {
                            &&& #[trigger] delete_task_step(pre, mid)
                            &&& post == with_mode(mid, AppMode::Normal)
                            &&& out == InputOutcome {
                                quit: false,
                                save: both_selected_valid(pre),
                                error: None::<OpError>,
                            }
                        }
                } else if c == 'n' {
                    &&& post == with_mode(pre, AppMode::Normal)
                    &&& out == quiet_outcome()
                } else {
                    &&& post == pre
                    &&& out == quiet_outcome()
                },
                KeyInput::Esc => {
                    &&& post == with_mode(pre, AppMode::Normal)
                    &&& out == quiet_outcome()
                },
                _ => {
                    &&& post == pre
                    &&& out == quiet_outcome()
                },
            },
        }
    }
}

/// Dispatch one key event against the current mode.
pub fn handle_input(app: &mut App, code: KeyInput, kind: KeyKind) -> (out: InputOutcome)
    requires
        old(app).inv(),
    ensures
        final(app).inv(),
        input_step(old(app)@, code, kind, final(app)@, out),
{
    let quiet = InputOutcome { quit: false, save: false, error: None };
    match kind {
        KeyKind::Press => {},
        _ => {
            return quiet;
        },
    }
    match app.mode {
        AppMode::Normal => match code {
            KeyInput::Char(c) => {
                if c == 'q' {
                    InputOutcome { quit: true, save: true, error: None }
                } else if c == 'n' {
                    app.mode = AppMode::CreatingList;
                    app.input_buffer = String::new();
                    proof {
                        assert(app@ =~~= with_mode_cleared(old(app)@, AppMode::CreatingList));
                    }
                    quiet
                } else if c == 'N' {
                    app.mode = AppMode::CreatingTask;
                    app.input_buffer = String::new();
                    proof {
                        assert(app@ =~~= with_mode_cleared(old(app)@, AppMode::CreatingTask));
                    }
                    quiet
                } else if c == 'e' {
                    if app.selected_list_index.is_some() {
                        app.mode = AppMode::EditingList;
                        app.input_buffer = String::new();
                        proof {
                            assert(app@ =~~= with_mode_cleared(old(app)@, AppMode::EditingList));
                        }
                    }
                    quiet
                } else if c == 'E' {
                    if app.selected_task_index.is_some() {
                        app.mode = AppMode::EditingTask;
                        app.input_buffer = String::new();
                        proof {
                            assert(app@ =~~= with_mode_cleared(old(app)@, AppMode::EditingTask));
                        }
                    }
                    quiet
                } else if c == 'd' {
                    if app.selected_list_index.is_some() {
                        app.mode = AppMode::ConfirmDeleteList;
                        proof {
                            assert(app@ =~~= with_mode(old(app)@, AppMode::ConfirmDeleteList));
                        }
                    }
                    quiet
                } else if c == 'D' {
                    if app.selected_task_index.is_some() {
                        app.mode = AppMode::ConfirmDeleteTask;
                        proof {
                            assert(app@ =~~= with_mode(old(app)@, AppMode::ConfirmDeleteTask));
                        }
                    }
                    quiet
                } else if c == ' ' {
                    let will_save = app.selected_list_index.is_some()
                        && app.selected_task_index.is_some();
                    app.toggle_selected_task_status();
                    InputOutcome { quit: false, save: will_save, error: None }
                } else if c == 'k' {
                    app.select_next_list();
                    quiet
                } else if c == 'i' {
                    app.select_previous_list();
                    quiet
                } else if c == 'l' {
                    app.select_next_task();
                    quiet
                } else if c == 'j' {
                    app.select_previous_task();
                    quiet
                } else {
                    quiet
                }
            },
            KeyInput::Down => {
                app.select_next_list();
                quiet
            },
            KeyInput::Up => {
                app.select_previous_list();
                quiet
            },
            KeyInput::Right => {
                app.select_next_task();
                quiet
            },
            KeyInput::Left => {
                app.select_previous_task();
                quiet
            },
            _ => quiet,
        },
        AppMode::CreatingList => match code {
            KeyInput::Enter => {
                let name = app.input_buffer.clone();
                let r = app.create_list(name);
                let ghost mid = app@;
                app.input_buffer = String::new();
                app.mode = AppMode::Normal;
                proof {
                    assert(create_list_step(old(app)@, old(app)@.input_buffer, mid, r));
                    assert(app@ =~~= with_mode_cleared(mid, AppMode::Normal));
                }
                match r {
                    Ok(_) => InputOutcome { quit: false, save: true, error: None },
                    Err(e) => InputOutcome { quit: false, save: false, error: Some(e) },
                }
            },
            _ => handle_entry_common(app, code),
        },
        AppMode::CreatingTask => match code {
            KeyInput::Enter => {
                let name = app.input_buffer.clone();
                let r = app.add_task_to_selected_list(name);
                let ghost mid = app@;
                app.input_buffer = String::new();
                app.mode = AppMode::Normal;
                proof {
                    assert(add_task_step(old(app)@, old(app)@.input_buffer, mid, r));
                    assert(app@ =~~= with_mode_cleared(mid, AppMode::Normal));
                }
                match r {
                    Ok(_) => InputOutcome { quit: false, save: true, error: None },
                    Err(e) => InputOutcome { quit: false, save: false, error: Some(e) },
                }
            },
            _ => handle_entry_common(app, code),
        },
        AppMode::EditingList => match code {
            KeyInput::Enter => {
                let will_save = app.selected_list_index.is_some();
                let name = app.input_buffer.clone();
                let r = app.edit_selected_list(name);
                let ghost mid = app@;
                app.input_buffer = String::new();
                app.mode = AppMode::Normal;
                proof {
                    assert(edit_list_step(old(app)@, old(app)@.input_buffer, mid, r));
                    assert(app@ =~~= with_mode_cleared(mid, AppMode::Normal));
                }
                match r {
                    Ok(_) => InputOutcome { quit: false, save: will_save, error: None },
                    Err(e) => InputOutcome { quit: false, save: false, error: Some(e) },
                }
            },
            _ => handle_entry_common(app, code),
        },
        AppMode::EditingTask => match code {
            KeyInput::Enter => {
                let name = app.input_buffer.clone();
                let r = app.edit_selected_task(name);
                let ghost mid = app@;
                app.input_buffer = String::new();
                app.mode = AppMode::Normal;
                proof {
                    assert(edit_task_step(old(app)@, old(app)@.input_buffer, mid, r));
                    assert(app@ =~~= with_mode_cleared(mid, AppMode::Normal));
                }
                match r {
                    Ok(_) => InputOutcome { quit: false, save: true, error: None },
                    Err(e) => InputOutcome { quit: false, save: false, error: Some(e) },
                }
            },
            _ => handle_entry_common(app, code),
        },
        AppMode::ConfirmDeleteList => match code {
            KeyInput::Char(c) => {
                if c == 'y' {
                    let will_save = app.selected_list_index.is_some();
                    app.delete_selected_list();
                    let ghost mid = app@;
                    app.mode = AppMode::Normal;
                    proof {
                        assert(app@ =~~= with_mode(mid, AppMode::Normal));
                    }
                    InputOutcome { quit: false, save: will_save, error: None }
                } else if c == 'n' {
                    app.mode = AppMode::Normal;
                    proof {
                        assert(app@ =~~= with_mode(old(app)@, AppMode::Normal));
                    }
                    quiet
                } else {
                    quiet
                }
            },
            KeyInput::Esc => {
                app.mode = AppMode::Normal;
                proof {
                    assert(app@ =~~= with_mode(old(app)@, AppMode::Normal));
                }
                quiet
            },
            _ => quiet,
        },
        AppMode::ConfirmDeleteTask => match code {
            KeyInput::Char(c) => {
                if c == 'y' {
                    let will_save = app.selected_list_index.is_some()
                        && app.selected_task_index.is_some();
                    app.delete_selected_task();
                    let ghost mid = app@;
                    app.mode = AppMode::Normal;
                    proof {
                        assert(app@ =~~= with_mode(mid, AppMode::Normal));
                    }
                    InputOutcome { quit: false, save: will_save, error: None }
                } else if c == 'n' {
                    app.mode = AppMode::Normal;
                    proof {
                        assert(app@ =~~= with_mode(old(app)@, AppMode::Normal));
                    }
                    quiet
                } else {
                    quiet
                }
            },
            KeyInput::Esc => {
                app.mode = AppMode::Normal;
                proof {
                    assert(app@ =~~= with_mode(old(app)@, AppMode::Normal));
                }
                quiet
            },
            _ => quiet,
        },
    }
}

/// The shared text-entry handling of the four entry modes: append a
/// character, remove the last one on backspace, or cancel to `Normal`
/// discarding the buffer.
fn handle_entry_common(app: &mut App, code: KeyInput) -> (out: InputOutcome)
    requires
        old(app).inv(),
        !(code is Enter),
    ensures
        final(app).inv(),
        mode_entry_common_step(old(app)@, code, final(app)@, out),
{
    let quiet = InputOutcome { quit: false, save: false, error: None };
    match code {
        KeyInput::Esc => {
            app.mode = AppMode::Normal;
            app.input_buffer = String::new();
            proof {
                assert(app@ =~~= with_mode_cleared(old(app)@, AppMode::Normal));
            }
            quiet
        },
        KeyInput::Char(c) => {
            push_char(&mut app.input_buffer, c);
            proof {
                assert(app@ =~~= with_buffer(old(app)@, old(app)@.input_buffer.push(c)));
            }
            quiet
        },
        KeyInput::Backspace => {
            pop_char(&mut app.input_buffer);
            proof {
                assert(app@ =~~= with_buffer(
                    old(app)@,
                    if old(app)@.input_buffer.len() > 0 {
                        old(app)@.input_buffer.drop_last()
                    } else {
                        old(app)@.input_buffer
                    },
                ));
            }
            quiet
        },
        _ => quiet,
    }
}

} // verus!
