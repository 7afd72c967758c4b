//! What each key and mouse action does to the application state.
use vstd::prelude::*;
use vstd::view::View as _;

use crate::app::{
    char_inserted, clamped, cursor_at_end, cursor_moved_left, cursor_moved_right,
    cycle_target, deleted_at_cursor, deleted_before_cursor, deleted_to_start, detail_toggled, done_of, edit_cancelled,
    edit_started, list_deleted, moved_down, moved_up, open_of, search_cancelled, search_started,
    selectable, shown_view, submitted, task_deleted, task_snoozed, task_toggled, went_to_next_list,
    went_to_prev_list, word_deleted, App, InputMode, View,
};
use crate::editing::{byte_len, char_at_byte, lemma_char_at_byte_complete};
use crate::text::string_of;

verus! {

/// A key, as the terminal reports it.
#[derive(Debug, Clone, Copy, PartialEq, Eq, Structural)]
pub enum KeyCode {
    Char(char),
    Esc,
    Enter,
    Backspace,
    Delete,
    Left,
    Right,
    Up,
    Down,
    Home,
    End,
    Tab,
    BackTab,
    Other,
}

/// A key press: the key and the modifier bits (shift 1, control 2, alt 4,
/// super 8, hyper 16, meta 32).
#[derive(Debug, Clone, Copy, PartialEq, Eq, Structural)]
pub struct Key {
    pub code: KeyCode,
    pub modifiers: u8,
}

/// The control bit.
pub const CONTROL: u8 = 2u8;

/// A mouse action on the screen.
#[derive(Debug, Clone, Copy, PartialEq, Eq, Structural)]
pub enum Mouse {
    /// the left button pressed at a row and column
    LeftDown { row: u16, column: u16 },
    ScrollUp,
    ScrollDown,
    Other,
}

pub open spec fn with_control(k: Key) -> bool {
    k.modifiers & CONTROL != 0
}

pub open spec fn only_control(k: Key) -> bool {
    k.modifiers == CONTROL
}

pub open spec fn is_char(k: Key, c: char) -> bool {
    k.code == KeyCode::Char(c)
}

pub open spec fn showing_label() -> Seq<char> {
    seq!['s', 'h', 'o', 'w', 'i', 'n', 'g', ' ', 'c', 'o', 'm', 'p', 'l', 'e', 't', 'e', 'd']
}

pub open spec fn hiding_label() -> Seq<char> {
    seq!['h', 'i', 'd', 'i', 'n', 'g', ' ', 'c', 'o', 'm', 'p', 'l', 'e', 't', 'e', 'd']
}

/// The selection after moving down one task.
pub open spec fn sel_down(a: App) -> App {
    App {
        selected_task: if a.selected_task + 1 < a.selectable_spec().len() {
            (a.selected_task + 1) as usize
        } else {
            a.selected_task
        },
        ..a
    }
}

/// The selection after moving up one task.
pub open spec fn sel_up(a: App) -> App {
    App {
        selected_task: if a.selected_task > 0 {
            (a.selected_task - 1) as usize
        } else {
            0
        },
        ..a
    }
}

/// An empty input line, the given mode and view.
pub open spec fn emptied(old: App, new: App, mode: InputMode, view: View) -> bool {
    &&& new.input@.len() == 0
    &&& new == (App { input: new.input, cursor_pos: 0, input_mode: mode, view, ..old })
}

/// A key in the task list, in normal mode.
pub open spec fn normal_handled(old: App, new: App, k: Key) -> bool {
    match k.code {
        KeyCode::Char('q') | KeyCode::Esc => new == (App { should_quit: true, ..old }),
        KeyCode::Char('?') => new == (App { view: View::Help, ..old }),
        KeyCode::Char('j') | KeyCode::Down => new == sel_down(old),
        KeyCode::Char('k') | KeyCode::Up => new == sel_up(old),
        KeyCode::Char('g') => new == (App { selected_task: 0, ..old }),
        KeyCode::Char('G') => new == (App {
            selected_task: if old.selectable_spec().len() > 0 {
                (old.selectable_spec().len() - 1) as usize
            } else {
                old.selected_task
            },
            ..old
        }),
        KeyCode::Char('h') | KeyCode::Left | KeyCode::BackTab => went_to_prev_list(old, new),
        KeyCode::Char('l') | KeyCode::Right | KeyCode::Tab => went_to_next_list(old, new),
        KeyCode::Char('J') => moved_down(old, new),
        KeyCode::Char('K') => moved_up(old, new),
        KeyCode::Char('i') | KeyCode::Char('a') => {
            &&& new.input@.len() == 0
            &&& new == (App {
                input: new.input,
                cursor_pos: 0,
                input_mode: InputMode::Insert,
                search_mode: false,
                editing_task_id: None,
                ..old
            })
        },
        KeyCode::Char('e') => edit_started(old, new),
        KeyCode::Char(' ') | KeyCode::Char('x') => task_toggled(old, new),
        KeyCode::Char('s') => task_snoozed(old, new),
        KeyCode::Char('d') => new == (if old.selected_index() is Some {
            App { view: View::ConfirmDeleteTask, ..old }
        } else {
            old
        }),
        KeyCode::Char('/') => search_started(old, new),
        KeyCode::Char('c') => {
            &&& new.status_message matches Some(m) && m@ == (if old.show_completed {
                hiding_label()
            } else {
                showing_label()
            })
            &&& new == (App {
                show_completed: !old.show_completed,
                status_message: new.status_message,
                selected_task: clamped(
                    old.selected_task,
                    selectable(old.tasks@, old.filtered_indices@, !old.show_completed).len(),
                ),
                ..old
            })
        },
        KeyCode::Char('n') => emptied(old, new, InputMode::Insert, View::NewList),
        KeyCode::Char('r') => match old.current_list_spec() {
            Some(l) => {
                &&& new.input@ == l.name@
                &&& new.cursor_pos == byte_len(l.name@)
                &&& new == (App {
                    input: new.input,
                    cursor_pos: new.cursor_pos,
                    view: View::RenameList,
                    input_mode: InputMode::Insert,
                    ..old
                })
            },
            None => new == old,
        },
        KeyCode::Char('D') => new == (App { view: View::ConfirmDeleteList, ..old }),
        KeyCode::Enter => new == (App { expanded_task_id: detail_toggled(old), ..old }),
        KeyCode::Char('t') => shown_view(old, new, !old.viewing_today, old.selected_list),
        KeyCode::Char(']') => shown_view(old, new, cycle_target(old, true).0, cycle_target(old, true).1),
        KeyCode::Char('[') => shown_view(old, new, cycle_target(old, false).0, cycle_target(old, false).1),
        _ => new == old,
    }
}

/// A key in the task list, typing into the input line.
pub open spec fn insert_handled(old: App, new: App, k: Key) -> bool {
    match k.code {
        KeyCode::Esc => if old.search_mode {
            search_cancelled(old, new)
        } else if old.editing_task_id is Some {
            edit_cancelled(old, new)
        } else {
            emptied(old, new, InputMode::Normal, old.view)
        },
        KeyCode::Enter => exists|mid: App|
            #[trigger] submitted(old, mid) && new == (if !mid.search_mode {
                App { input_mode: InputMode::Normal, ..mid }
            } else {
                mid
            }),
        KeyCode::Backspace => deleted_before_cursor(old, new),
        KeyCode::Delete => deleted_at_cursor(old, new),
        KeyCode::Left => cursor_moved_left(old, new),
        KeyCode::Right => cursor_moved_right(old, new),
        KeyCode::Char('a') if only_control(k) => new == (App { cursor_pos: 0, ..old }),
        KeyCode::Char('e') if only_control(k) => cursor_at_end(old, new),
        KeyCode::Char('u') if only_control(k) => deleted_to_start(old, new),
        KeyCode::Char('w') if only_control(k) => word_deleted(old, new),
        KeyCode::Home => new == (App { cursor_pos: 0, ..old }),
        KeyCode::End => cursor_at_end(old, new),
        KeyCode::Char('n') if only_control(k) && old.search_mode => new == sel_down(old),
        KeyCode::Down if old.search_mode => new == sel_down(old),
        KeyCode::Char('p') if only_control(k) && old.search_mode => new == sel_up(old),
        KeyCode::Up if old.search_mode => new == sel_up(old),
        KeyCode::Char(c) => char_inserted(old, new, c),
        _ => new == old,
    }
}

/// A key in the new-list and rename dialogs.
pub open spec fn dialog_handled(old: App, new: App, k: Key) -> bool {
    match k.code {
        KeyCode::Esc => emptied(old, new, InputMode::Normal, View::Tasks),
        KeyCode::Enter => submitted(old, new),
        KeyCode::Backspace => deleted_before_cursor(old, new),
        KeyCode::Left => cursor_moved_left(old, new),
        KeyCode::Right => cursor_moved_right(old, new),
        KeyCode::Char(c) => char_inserted(old, new, c),
        _ => new == old,
    }
}

/// The effect of `handle_key`.
pub open spec fn key_handled(old: App, new: App, k: Key) -> bool {
    if with_control(k) && is_char(k, 'c') {
        new == (App { should_quit: true, ..old })
    } else {
        match old.view {
            View::ConfirmDeleteList => if is_char(k, 'y') || is_char(k, 'Y') {
                list_deleted(old, new)
            } else {
                new == (App { view: View::Tasks, ..old })
            },
            View::ConfirmDeleteTask => if is_char(k, 'y') || is_char(k, 'Y') {
                exists|mid: App| #[trigger] task_deleted(old, mid) && new == (App { view: View::Tasks, ..mid })
            } else {
                new == (App { view: View::Tasks, ..old })
            },
            View::Help => new == (App { view: View::Tasks, ..old }),
            View::NewList | View::RenameList => dialog_handled(old, new, k),
            View::Tasks => if old.input_mode == InputMode::Insert {
                insert_handled(old, new, k)
            } else {
                normal_handled(old, new, k)
            },
        }
    }
}

/// The key can be handled: the action it starts has what it needs.
pub open spec fn key_ok(a: App, k: Key) -> bool {
    if with_control(k) && is_char(k, 'c') {
        true
    } else {
        match a.view {
            View::Tasks => if a.input_mode == InputMode::Insert {
                &&& k.code == KeyCode::Enter ==> a.submit_ok()
                &&& (is_char(k, 'w') && only_control(k)) ==> a.word_cut_ok()
            } else {
                &&& is_char(k, 'e') ==> a.edit_ok()
                &&& (is_char(k, ' ') || is_char(k, 'x')) ==> a.toggle_ok()
            },
            _ => true,
        }
    }
}

/// Executable `key_ok`.
pub fn key_allowed(a: &App, k: Key) -> (r: bool)
    requires
        a.wf(),
    ensures
        r == key_ok(*a, k),
{
    if k.modifiers & CONTROL != 0 && k.code == KeyCode::Char('c') {
        return true;
    }
    match a.view {
        View::Tasks => {
            if a.input_mode == InputMode::Insert {
                if k.code == KeyCode::Enter {
                    return a.can_submit();
                }
                if k.code == KeyCode::Char('w') && k.modifiers == CONTROL {
                    return a.can_delete_word();
                }
                true
            } else {
                if k.code == KeyCode::Char('e') {
                    return a.can_edit();
                }
                if k.code == KeyCode::Char(' ') || k.code == KeyCode::Char('x') {
                    return a.can_toggle();
                }
                true
            }
        },
        _ => true,
    }
}

fn handle_normal(app: &mut App, k: Key)
    requires
        old(app).wf(),
        old(app).view == View::Tasks,
        old(app).input_mode != InputMode::Insert,
        key_ok(*old(app), k),
        !(with_control(k) && is_char(k, 'c')),
    ensures
        final(app).wf(),
        normal_handled(*old(app), *final(app), k),
{
    match k.code {
        KeyCode::Char('q') | KeyCode::Esc => {
            app.should_quit = true;
        },
        KeyCode::Char('?') => {
            app.view = View::Help;
        },
        KeyCode::Char('j') | KeyCode::Down => app.move_selection_down(),
        KeyCode::Char('k') | KeyCode::Up => app.move_selection_up(),
        KeyCode::Char('g') => app.move_selection_top(),
        KeyCode::Char('G') => app.move_selection_bottom(),
        KeyCode::Char('h') | KeyCode::Left | KeyCode::BackTab => app.prev_list(),
        KeyCode::Char('l') | KeyCode::Right | KeyCode::Tab => app.next_list(),
        KeyCode::Char('J') => app.move_task_down(),
        KeyCode::Char('K') => app.move_task_up(),
        KeyCode::Char('i') | KeyCode::Char('a') => {
            app.input_mode = InputMode::Insert;
            app.search_mode = false;
            app.editing_task_id = None;
            app.input = String::new();
            app.cursor_pos = 0;
            assert(char_at_byte(app.input@, 0) == Some(0int));
        },
        KeyCode::Char('e') => app.start_edit(),
        KeyCode::Char(' ') | KeyCode::Char('x') => app.toggle_selected_task(),
        KeyCode::Char('s') => app.snooze_selected(),
        KeyCode::Char('d') => {
            if app.selected_task_data().is_some() {
                app.view = View::ConfirmDeleteTask;
            }
        },
        KeyCode::Char('/') => app.start_search(),
        KeyCode::Char('c') => {
            app.show_completed = !app.show_completed;
            app.status_message = Some(
                if app.show_completed {
                    string_of(
                        &vec![
                            's', 'h', 'o', 'w', 'i', 'n', 'g', ' ', 'c', 'o', 'm', 'p', 'l', 'e',
                            't', 'e', 'd',
                        ],
                    )
                } else {
                    string_of(
                        &vec![
                            'h', 'i', 'd', 'i', 'n', 'g', ' ', 'c', 'o', 'm', 'p', 'l', 'e', 't',
                            'e', 'd',
                        ],
                    )
                },
            );
            app.clamp_selection();
        },
        KeyCode::Char('n') => {
            app.view = View::NewList;
            app.input_mode = InputMode::Insert;
            app.input = String::new();
            app.cursor_pos = 0;
            assert(char_at_byte(app.input@, 0) == Some(0int));
        },
        KeyCode::Char('r') => {
            match app.current_list() {
                Some(list) => {
                    let name = list.name.clone();
                    let n = crate::app::byte_count(name.as_str());
                    app.input = name;
                    app.cursor_pos = n;
                    app.view = View::RenameList;
                    app.input_mode = InputMode::Insert;
                    proof {
                        assert(app.input@.take(app.input@.len() as int) =~= app.input@);
                        lemma_char_at_byte_complete(app.input@, app.input@.len() as int);
                    }
                },
                None => {},
            }
        },
        KeyCode::Char('D') => {
            app.view = View::ConfirmDeleteList;
        },
        KeyCode::Enter => app.toggle_detail_pane(),
        KeyCode::Char('t') => app.toggle_today(),
        KeyCode::Char(']') => app.cycle_list(true),
        KeyCode::Char('[') => app.cycle_list(false),
        _ => {},
    }
}

fn handle_insert(app: &mut App, k: Key)
    requires
        old(app).wf(),
        old(app).view == View::Tasks,
        old(app).input_mode == InputMode::Insert,
        key_ok(*old(app), k),
        !(with_control(k) && is_char(k, 'c')),
    ensures
        final(app).wf(),
        insert_handled(*old(app), *final(app), k),
{
    match k.code {
        KeyCode::Esc => {
            if app.search_mode {
                app.cancel_search();
            } else if app.editing_task_id.is_some() {
                app.cancel_edit();
            } else {
                app.input_mode = InputMode::Normal;
                app.input = String::new();
                app.cursor_pos = 0;
                assert(char_at_byte(app.input@, 0) == Some(0int));
            }
        },
        KeyCode::Enter => {
            app.submit_input();
            let ghost mid = *app;
            if !app.search_mode {
                app.input_mode = InputMode::Normal;
            }
            assert(submitted(*old(app), mid));
        },
        KeyCode::Backspace => app.delete_char_before_cursor(),
        KeyCode::Delete => app.delete_char_at_cursor(),
        KeyCode::Left => app.move_cursor_left(),
        KeyCode::Right => app.move_cursor_right(),
        KeyCode::Char('a') if k.modifiers == CONTROL => app.move_cursor_home(),
        KeyCode::Char('e') if k.modifiers == CONTROL => app.move_cursor_end(),
        KeyCode::Char('u') if k.modifiers == CONTROL => app.delete_to_start(),
        KeyCode::Char('w') if k.modifiers == CONTROL => app.delete_word_before_cursor(),
        KeyCode::Home => app.move_cursor_home(),
        KeyCode::End => app.move_cursor_end(),
        KeyCode::Char('n') if k.modifiers == CONTROL && app.search_mode => app.move_selection_down(),
        KeyCode::Down if app.search_mode => app.move_selection_down(),
        KeyCode::Char('p') if k.modifiers == CONTROL && app.search_mode => app.move_selection_up(),
        KeyCode::Up if app.search_mode => app.move_selection_up(),
        KeyCode::Char(c) => app.insert_char(c),
        _ => {},
    }
}

fn handle_dialog(app: &mut App, k: Key)
    requires
        old(app).wf(),
        old(app).view == View::NewList || old(app).view == View::RenameList,
    ensures
        final(app).wf(),
        dialog_handled(*old(app), *final(app), k),
{
    match k.code {
        KeyCode::Esc => {
            app.input = String::new();
            app.cursor_pos = 0;
            app.input_mode = InputMode::Normal;
            app.view = View::Tasks;
            assert(char_at_byte(app.input@, 0) == Some(0int));
        },
        KeyCode::Enter => app.submit_input(),
        KeyCode::Backspace => app.delete_char_before_cursor(),
        KeyCode::Left => app.move_cursor_left(),
        KeyCode::Right => app.move_cursor_right(),
        KeyCode::Char(c) => app.insert_char(c),
        _ => {},
    }
}

/// Handles a key press: control-c quits; in a confirmation `y` deletes and
/// any other key closes it; any key closes the help; the dialogs, the input
/// line and the task list each have their keys.
pub fn handle_key(app: &mut App, k: Key)
    requires
        old(app).wf(),
        key_ok(*old(app), k),
    ensures
        final(app).wf(),
        key_handled(*old(app), *final(app), k),
{
    if k.modifiers & CONTROL != 0 && k.code == KeyCode::Char('c') {
        app.should_quit = true;
        return;
    }
    match app.view {
        View::ConfirmDeleteList => {
            if k.code == KeyCode::Char('y') || k.code == KeyCode::Char('Y') {
                app.delete_current_list();
            } else {
                app.view = View::Tasks;
            }
        },
        View::ConfirmDeleteTask => {
            if k.code == KeyCode::Char('y') || k.code == KeyCode::Char('Y') {
                app.delete_selected_task();
                let ghost mid = *app;
                app.view = View::Tasks;
                assert(task_deleted(*old(app), mid));
            } else {
                app.view = View::Tasks;
            }
        },
        View::Help => {
            app.view = View::Tasks;
        },
        View::NewList | View::RenameList => handle_dialog(app, k),
        View::Tasks => {
            if app.input_mode == InputMode::Insert {
                handle_insert(app, k);
            } else {
                handle_normal(app, k);
            }
        },
    }
}

/// A key press as the event loop delivers it: the last message is cleared,
/// then the key handled.
pub fn press(app: &mut App, k: Key)
    requires
        old(app).wf(),
        key_ok(App { status_message: None, ..*old(app) }, k),
    ensures
        final(app).wf(),
        key_handled(App { status_message: None, ..*old(app) }, *final(app), k),
{
    app.status_message = None;
    handle_key(app, k);
}

// ======================= the mouse =======================

/// The position among the selectable tasks of the row at `ei`, or `None`
/// for the heading or past the end.
pub open spec fn row_task(a: App, ei: int) -> Option<int> {
    let o = open_of(a.tasks@, a.filtered_indices@).len();
    let d = done_of(a.tasks@, a.filtered_indices@).len();
    if 0 <= ei < o {
        Some(ei)
    } else if a.show_completed && d > 0 && o < ei <= o + d {
        Some(ei - 1)
    } else {
        None
    }
}

/// The row clicked, counting from the top of the list, when the click falls
/// in the task area.
pub open spec fn clicked_row(a: App, row: u16, area_y: u16, area_height: u16) -> Option<int> {
    if area_y <= row && (row as int) < area_y + area_height {
        Some(row - area_y + a.scroll_offset)
    } else {
        None
    }
}

/// The effect of `handle_mouse`.
pub open spec fn mouse_handled(old: App, new: App, m: Mouse, area_y: u16, area_height: u16) -> bool {
    if old.input_mode != InputMode::Normal || old.view != View::Tasks {
        new == old
    } else {
        match m {
            Mouse::LeftDown { row, column } => match clicked_row(old, row, area_y, area_height) {
                Some(ei) => match row_task(old, ei) {
                    Some(s) => if column < 7 {
                        task_toggled(App { selected_task: s as usize, ..old }, new)
                    } else {
                        new == (App { selected_task: s as usize, ..old })
                    },
                    None => new == old,
                },
                None => new == old,
            },
            Mouse::ScrollUp => new == sel_up(old),
            Mouse::ScrollDown => new == sel_down(old),
            Mouse::Other => new == old,
        }
    }
}

/// The click can be handled: a click on a task's checkbox toggles it.
pub open spec fn mouse_ok(a: App, m: Mouse, area_y: u16, area_height: u16) -> bool {
    (a.input_mode == InputMode::Normal && a.view == View::Tasks) ==> match m {
        Mouse::LeftDown { row, column } => match clicked_row(a, row, area_y, area_height) {
            Some(ei) => match row_task(a, ei) {
                Some(s) => column < 7 ==> (App { selected_task: s as usize, ..a }).toggle_ok(),
                None => true,
            },
            None => true,
        },
        _ => true,
    }
}

/// The row's position among the selectable tasks.
fn row_task_exec(a: &App, ei: usize) -> (r: Option<usize>)
    ensures
        match r {
            Some(s) => row_task(*a, ei as int) == Some(s as int),
            None => row_task(*a, ei as int) is None,
        },
{
    let (o, d) = a.shown_counts();
    if ei < o {
        Some(ei)
    } else if a.show_completed && d > 0 && o < ei && ei - o <= d {
        Some(ei - 1)
    } else {
        None
    }
}

/// The clicked row in the list, if the click is in the task area.
fn clicked_row_exec(a: &App, row: u16, area_y: u16, area_height: u16) -> (r: Option<usize>)
    ensures
        match r {
            Some(ei) => clicked_row(*a, row, area_y, area_height) == Some(ei as int),
            None => clicked_row(*a, row, area_y, area_height) is None || clicked_row(
                *a,
                row,
                area_y,
                area_height,
            )->0 > usize::MAX,
        },
{
    if area_y <= row && (row as u32) < (area_y as u32) + (area_height as u32) {
        let off = (row - area_y) as usize;
        a.scroll_offset.checked_add(off)
    } else {
        None
    }
}

/// Executable `mouse_ok`.
pub fn mouse_allowed(a: &App, m: Mouse, area_y: u16, area_height: u16) -> (r: bool)
    requires
        a.wf(),
    ensures
        r == mouse_ok(*a, m, area_y, area_height),
{
    if a.input_mode != InputMode::Normal || a.view != View::Tasks {
        return true;
    }
    match m {
        Mouse::LeftDown { row, column } => {
            if !(area_y <= row && (row as u32) < (area_y as u32) + (area_height as u32)) {
                return true;
            }
            let off = (row - area_y) as usize;
            let flen = a.filtered_indices.len();
            match a.scroll_offset.checked_add(off) {
                Some(ei) => match row_task_exec(a, ei) {
                    Some(s) => {
                        if column < 7 {
                            a.can_toggle_at(s)
                        } else {
                            true
                        }
                    },
                    None => true,
                },
                None => {
                    proof {
                        let ei = clicked_row(*a, row, area_y, area_height)->0;
                        assert(row_task(*a, ei) is None) by {
                            crate::app::lemma_open_done_len(a.tasks@, a.filtered_indices@);
                            assert(a.filtered_indices@.len() == flen);
                        }
                    }
                    true
                },
            }
        },
        _ => true,
    }
}

/// Handles a mouse action in the task list: a click selects the task in
/// the clicked row and, on its checkbox (the first seven columns), toggles
/// it; the wheel moves the selection.
pub fn handle_mouse(app: &mut App, m: Mouse, area_y: u16, area_height: u16)
    requires
        old(app).wf(),
        mouse_ok(*old(app), m, area_y, area_height),
    ensures
        final(app).wf(),
        mouse_handled(*old(app), *final(app), m, area_y, area_height),
{
    if app.input_mode != InputMode::Normal || app.view != View::Tasks {
        return;
    }
    match m {
        Mouse::LeftDown { row, column } => {
            let flen = app.filtered_indices.len();
            match clicked_row_exec(app, row, area_y, area_height) {
                Some(ei) => match row_task_exec(app, ei) {
                    Some(s) => {
                        app.selected_task = s;
                        if column < 7 {
                            app.toggle_selected_task();
                        }
                    },
                    None => {},
                },
                None => {
                    proof {
                        if clicked_row(*old(app), row, area_y, area_height) is Some {
                            crate::app::lemma_open_done_len(app.tasks@, app.filtered_indices@);
                            assert(app.filtered_indices@.len() == flen);
                        }
                    }
                },
            }
        },
        Mouse::ScrollUp => app.move_selection_up(),
        Mouse::ScrollDown => app.move_selection_down(),
        Mouse::Other => {},
    }
}

} // verus!
