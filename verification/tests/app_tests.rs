use chirp::app::{App, InputMode, View, VisibleEntry};
use chirp::db::Database;
use chirp::keys::{handle_key, handle_mouse, key_allowed, press, Key, KeyCode, Mouse, CONTROL};

fn key(c: char) -> Key {
    Key { code: KeyCode::Char(c), modifiers: 0 }
}

fn code(k: KeyCode) -> Key {
    Key { code: k, modifiers: 0 }
}

fn ctrl(c: char) -> Key {
    Key { code: KeyCode::Char(c), modifiers: CONTROL }
}

fn send(app: &mut App, k: Key) {
    assert!(key_allowed(app, k));
    handle_key(app, k);
}

fn type_text(app: &mut App, s: &str) {
    for c in s.chars() {
        send(app, key(c));
    }
}

fn new_app() -> App {
    App::new(Database::in_memory())
}

#[test]
fn starts_on_first_list() {
    let app = new_app();
    assert_eq!(app.lists.len(), 1);
    assert_eq!(app.selected_list, 0);
    assert!(app.tasks.is_empty());
    assert_eq!(app.view, View::Tasks);
    assert_eq!(app.input_mode, InputMode::Normal);
    assert!(app.show_completed);
}

#[test]
fn add_task_by_typing() {
    let mut app = new_app();
    send(&mut app, key('i'));
    assert_eq!(app.input_mode, InputMode::Insert);
    type_text(&mut app, "buy milk p1");
    assert_eq!(app.input, "buy milk p1");
    assert_eq!(app.cursor_pos, 11);
    send(&mut app, code(KeyCode::Enter));
    assert_eq!(app.input_mode, InputMode::Normal);
    assert_eq!(app.input, "");
    assert_eq!(app.tasks.len(), 1);
    assert_eq!(app.tasks[0].content, "buy milk");
    assert_eq!(app.tasks[0].priority, Some(1));
    assert_eq!(app.status_message.as_deref(), Some("Added: buy milk"));
    assert_eq!(app.pending_count(), 1);
}

#[test]
fn toggle_moves_to_completed_section() {
    let mut app = new_app();
    send(&mut app, key('i'));
    type_text(&mut app, "a");
    send(&mut app, code(KeyCode::Enter));
    send(&mut app, key(' '));
    assert_eq!(app.status_message.as_deref(), Some("Done!"));
    let rows = app.visible_entries();
    assert_eq!(rows.len(), 2);
    match &rows[0] {
        VisibleEntry::Separator(s) => assert_eq!(s, "completed (1)"),
        _ => panic!("expected the heading"),
    }
    send(&mut app, key('x'));
    assert_eq!(app.status_message.as_deref(), Some("Unchecked"));
    send(&mut app, key('c'));
    assert_eq!(app.status_message.as_deref(), Some("hiding completed"));
    assert!(!app.show_completed);
}

#[test]
fn recurring_task_creates_next() {
    let mut app = new_app();
    let lid = app.lists[0].id.clone();
    app.db.create_task(&lid, "water plants", Some(1_700_000_000_000), None, None, Some("daily"));
    app.refresh_tasks();
    send(&mut app, key(' '));
    assert!(app.status_message.as_deref().unwrap().starts_with("Done! Next: "));
    let all = app.db.get_all_tasks();
    assert_eq!(all.len(), 2);
    let next = all.iter().find(|t| !t.completed).unwrap();
    assert_eq!(next.due_at, Some(1_700_000_000_000 + 86_400_000));
    assert_eq!(next.recurrence.as_deref(), Some("daily"));
}

#[test]
fn edit_round_trip() {
    let mut app = new_app();
    send(&mut app, key('i'));
    type_text(&mut app, "call mom ping 30m p2 weekly");
    send(&mut app, code(KeyCode::Enter));
    assert_eq!(app.tasks.len(), 1);
    send(&mut app, key('e'));
    assert_eq!(app.input_mode, InputMode::Insert);
    assert!(app.editing_task_id.is_some());
    assert!(app.input.starts_with("call mom "));
    assert!(app.input.contains("ping 30m"));
    assert_eq!(app.cursor_pos, app.input.len());
    send(&mut app, ctrl('u'));
    assert_eq!(app.input, "");
    type_text(&mut app, "call dad");
    send(&mut app, code(KeyCode::Enter));
    assert_eq!(app.status_message.as_deref(), Some("Updated: call dad"));
    assert_eq!(app.tasks.len(), 1);
    assert_eq!(app.tasks[0].content, "call dad");
    assert!(app.editing_task_id.is_none());
}

#[test]
fn cursor_moves_by_characters() {
    let mut app = new_app();
    send(&mut app, key('i'));
    type_text(&mut app, "héllo");
    assert_eq!(app.cursor_pos, 6);
    send(&mut app, code(KeyCode::Left));
    send(&mut app, code(KeyCode::Left));
    send(&mut app, code(KeyCode::Left));
    send(&mut app, code(KeyCode::Left));
    assert_eq!(app.cursor_pos, 1);
    send(&mut app, code(KeyCode::Delete));
    assert_eq!(app.input, "hllo");
    send(&mut app, key('é'));
    assert_eq!(app.input, "héllo");
    send(&mut app, code(KeyCode::Backspace));
    assert_eq!(app.input, "hllo");
    assert_eq!(app.cursor_pos, 1);
    send(&mut app, code(KeyCode::End));
    assert_eq!(app.cursor_pos, 4);
    send(&mut app, code(KeyCode::Home));
    assert_eq!(app.cursor_pos, 0);
    send(&mut app, ctrl('e'));
    assert_eq!(app.cursor_pos, 4);
}

#[test]
fn delete_word() {
    let mut app = new_app();
    send(&mut app, key('i'));
    type_text(&mut app, "one two  ");
    send(&mut app, ctrl('w'));
    assert_eq!(app.input, "one ");
    assert_eq!(app.cursor_pos, 4);
    send(&mut app, ctrl('w'));
    assert_eq!(app.input, "");
}

#[test]
fn search_filters_and_ranks() {
    let mut app = new_app();
    let lid = app.lists[0].id.clone();
    app.db.create_task(&lid, "buy milk", None, None, None, None);
    app.db.create_task(&lid, "walk dog", None, None, None, None);
    app.db.create_task(&lid, "make bread", None, None, None, None);
    app.refresh_tasks();
    send(&mut app, key('/'));
    assert!(app.search_mode);
    type_text(&mut app, "mk");
    let shown: Vec<String> = app
        .filtered_indices
        .iter()
        .map(|&i| app.tasks[i].content.clone())
        .collect();
    assert!(shown.contains(&"buy milk".to_string()));
    assert!(shown.contains(&"make bread".to_string()));
    assert!(!shown.contains(&"walk dog".to_string()));
    send(&mut app, code(KeyCode::Esc));
    assert!(!app.search_mode);
    assert_eq!(app.filtered_indices, vec![0, 1, 2]);
}

#[test]
fn lists_dialogs() {
    let mut app = new_app();
    send(&mut app, key('n'));
    assert_eq!(app.view, View::NewList);
    type_text(&mut app, "Work");
    send(&mut app, code(KeyCode::Enter));
    assert_eq!(app.view, View::Tasks);
    assert_eq!(app.lists.len(), 2);
    assert_eq!(app.selected_list, 1);
    assert_eq!(app.status_message.as_deref(), Some("Created list: Work"));
    send(&mut app, key('r'));
    assert_eq!(app.view, View::RenameList);
    assert_eq!(app.input, "Work");
    send(&mut app, code(KeyCode::Backspace));
    type_text(&mut app, "x");
    send(&mut app, code(KeyCode::Enter));
    assert_eq!(app.lists[1].name, "Worx");
    send(&mut app, key('h'));
    assert_eq!(app.selected_list, 0);
    send(&mut app, key('h'));
    assert_eq!(app.selected_list, 1);
    send(&mut app, key('D'));
    assert_eq!(app.view, View::ConfirmDeleteList);
    send(&mut app, key('y'));
    assert_eq!(app.lists.len(), 1);
    assert_eq!(app.status_message.as_deref(), Some("Deleted list: Worx"));
    send(&mut app, key('D'));
    send(&mut app, key('y'));
    assert_eq!(app.status_message.as_deref(), Some("Can't delete the last list"));
}

#[test]
fn reorder_within_group_only() {
    let mut app = new_app();
    let lid = app.lists[0].id.clone();
    app.db.create_task(&lid, "a", None, None, Some(1), None);
    app.db.create_task(&lid, "b", None, None, Some(1), None);
    app.db.create_task(&lid, "c", None, None, Some(2), None);
    app.refresh_tasks();
    assert_eq!(app.tasks[0].content, "b");
    send(&mut app, key('J'));
    assert_eq!(app.selected_task, 1);
    assert_eq!(app.tasks[0].content, "a");
    assert_eq!(app.tasks[1].content, "b");
    send(&mut app, key('J'));
    assert_eq!(app.status_message.as_deref(), Some("Can't reorder across priority/completion groups"));
    send(&mut app, key('K'));
    assert_eq!(app.tasks[0].content, "b");
    assert_eq!(app.selected_task, 0);
}

#[test]
fn snooze_and_delete() {
    let mut app = new_app();
    let lid = app.lists[0].id.clone();
    app.db.create_task(&lid, "a", None, Some(90), None, None);
    app.db.create_task(&lid, "b", None, None, None, None);
    app.refresh_tasks();
    send(&mut app, key('j'));
    send(&mut app, key('s'));
    assert_eq!(app.status_message.as_deref(), Some("Snoozed for 1h30m"));
    assert!(app.tasks.iter().any(|t| t.last_ping_at.is_some()));
    send(&mut app, key('k'));
    send(&mut app, key('s'));
    assert_eq!(app.status_message.as_deref(), Some("No ping to snooze"));
    send(&mut app, key('d'));
    assert_eq!(app.view, View::ConfirmDeleteTask);
    send(&mut app, key('y'));
    assert_eq!(app.status_message.as_deref(), Some("Deleted"));
    assert_eq!(app.tasks.len(), 1);
}

#[test]
fn quit_keys() {
    let mut app = new_app();
    press(&mut app, ctrl('c'));
    assert!(app.should_quit);
    let mut app2 = new_app();
    send(&mut app2, key('?'));
    assert_eq!(app2.view, View::Help);
    send(&mut app2, key('z'));
    assert_eq!(app2.view, View::Tasks);
    send(&mut app2, key('q'));
    assert!(app2.should_quit);
}

#[test]
fn mouse_selects_and_toggles() {
    let mut app = new_app();
    let lid = app.lists[0].id.clone();
    app.db.create_task(&lid, "a", None, None, None, None);
    app.db.create_task(&lid, "b", None, None, None, None);
    app.refresh_tasks();
    handle_mouse(&mut app, Mouse::LeftDown { row: 3, column: 20 }, 2, 10);
    assert_eq!(app.selected_task, 1);
    handle_mouse(&mut app, Mouse::LeftDown { row: 2, column: 1 }, 2, 10);
    assert_eq!(app.selected_task, 0);
    assert_eq!(app.status_message.as_deref(), Some("Done!"));
    handle_mouse(&mut app, Mouse::ScrollDown, 2, 10);
    assert_eq!(app.selected_task, 1);
    handle_mouse(&mut app, Mouse::LeftDown { row: 50, column: 1 }, 2, 10);
    assert_eq!(app.selected_task, 1);
}

#[test]
fn ping_check_reminds_once() {
    let mut app = new_app();
    let lid = app.lists[0].id.clone();
    let t = app.db.create_task(&lid, "stretch", None, Some(1), Some(1), None);
    app.db.update_last_ping_at(&t.id, 0);
    let reminders = app.check_pings(120_000);
    assert_eq!(reminders.len(), 1);
    assert_eq!(reminders[0].body, "stretch");
    assert!(!reminders[0].urgent);
    assert!(app.check_pings(120_000).is_empty());
    let t2 = app.db.create_task(&lid, "new", None, Some(5), None, None);
    assert!(app.check_pings(130_000).is_empty());
    let all = app.db.get_all_tasks();
    assert_eq!(all.iter().find(|x| x.id == t2.id).unwrap().last_ping_at, Some(130_000));
}

#[test]
fn opens_list_by_name() {
    let mut db = Database::in_memory();
    let work = db.create_list("Work");
    db.create_task(&work.id, "ship it", None, None, None, None);
    let mut app = App::new(db);
    app.select_list_by_name("wORK");
    assert_eq!(app.selected_list, 1);
    assert_eq!(app.tasks.len(), 1);
    assert_eq!(app.tasks[0].content, "ship it");
    app.select_list_by_name("Nowhere");
    assert_eq!(app.selected_list, 1);
    app.select_list_by_name("inbox");
    assert_eq!(app.selected_list, 0);
    assert!(app.tasks.is_empty());
}

#[test]
fn enter_opens_and_closes_details() {
    let mut app = new_app();
    send(&mut app, key('i'));
    type_text(&mut app, "water plants");
    send(&mut app, code(KeyCode::Enter));
    assert_eq!(app.input_mode, InputMode::Normal);
    send(&mut app, code(KeyCode::Enter));
    assert_eq!(app.expanded_task_id.as_deref(), Some(app.tasks[0].id.as_str()));
    assert!(app.detail_task().is_some());
    send(&mut app, code(KeyCode::Enter));
    assert_eq!(app.expanded_task_id, None);
}

#[test]
fn note_entry_attaches_note() {
    let mut app = new_app();
    send(&mut app, key('i'));
    type_text(&mut app, "call mom");
    send(&mut app, code(KeyCode::Enter));
    send(&mut app, key('i'));
    type_text(&mut app, "note  ask about sunday ");
    send(&mut app, code(KeyCode::Enter));
    assert_eq!(app.tasks.len(), 1);
    assert_eq!(app.tasks[0].note.as_deref(), Some("ask about sunday"));
    assert_eq!(app.status_message.as_deref(), Some("Note: ask about sunday"));
    assert_eq!(app.input, "");
    assert_eq!(app.input_mode, InputMode::Normal);
    // "note" alone is an ordinary entry
    send(&mut app, key('i'));
    type_text(&mut app, "note");
    send(&mut app, code(KeyCode::Enter));
    assert_eq!(app.tasks.len(), 2);
}

#[test]
fn note_entry_without_selection_adds_task() {
    let mut app = new_app();
    send(&mut app, key('i'));
    type_text(&mut app, "note buy stamps");
    send(&mut app, code(KeyCode::Enter));
    assert_eq!(app.tasks.len(), 1);
    assert_eq!(app.tasks[0].content, "note buy stamps");
    assert_eq!(app.tasks[0].note, None);
}

#[test]
fn today_view_shows_due_tasks_from_every_list() {
    let mut db = Database::in_memory();
    let inbox = db.lists[0].id.clone();
    let work = db.create_list("Work");
    db.create_task(&inbox, "overdue bill", Some(1000), None, None, None);
    db.create_task(&work.id, "old report", Some(2000), None, Some(1), None);
    db.create_task(&work.id, "someday", None, None, None, None);
    let mut app = App::new(db);
    send(&mut app, key('t'));
    assert!(app.viewing_today);
    let contents: Vec<&str> = app.tasks.iter().map(|t| t.content.as_str()).collect();
    assert_eq!(contents, vec!["old report", "overdue bill"]);
    assert_eq!(chirp::view::row_tag(&app, &app.tasks[0]).as_deref(), Some("Work"));
    send(&mut app, key('t'));
    assert!(!app.viewing_today);
    assert_eq!(app.tasks.len(), 1);
    assert_eq!(chirp::view::row_tag(&app, &app.tasks[0]), None);
}

#[test]
fn brackets_cycle_through_today_and_lists() {
    let mut db = Database::in_memory();
    db.create_list("Work");
    let mut app = App::new(db);
    send(&mut app, key(']'));
    assert_eq!((app.viewing_today, app.selected_list), (false, 1));
    send(&mut app, key(']'));
    assert!(app.viewing_today);
    send(&mut app, key(']'));
    assert_eq!((app.viewing_today, app.selected_list), (false, 0));
    send(&mut app, key('['));
    assert!(app.viewing_today);
    send(&mut app, key('['));
    assert_eq!((app.viewing_today, app.selected_list), (false, 1));
    assert_eq!(chirp::view::empty_message(&app).as_deref(), Some("no tasks yet \u{2014} press i to add one"));
    send(&mut app, key('t'));
    assert_eq!(chirp::view::empty_message(&app).as_deref(), Some("nothing due today"));
}

#[test]
fn undo_brings_back_the_store() {
    let mut app = new_app();
    let mut history: Vec<chirp::db::Database> = Vec::new();
    let mut press = |app: &mut App, k: Key| {
        assert!(key_allowed(app, k));
        chirp::history::press_key(&mut history, app, k);
    };
    press(&mut app, key('i'));
    for c in "call mom".chars() {
        press(&mut app, key(c));
    }
    press(&mut app, code(KeyCode::Enter));
    assert_eq!(app.tasks.len(), 1);
    press(&mut app, key(' '));
    assert!(app.tasks[0].completed);
    press(&mut app, key('u'));
    assert!(!app.tasks[0].completed);
    press(&mut app, key('u'));
    assert!(app.tasks.is_empty());
    assert!(app.db.tasks.is_empty());
    press(&mut app, key('u'));
    assert!(app.tasks.is_empty());
    assert_eq!(app.lists.len(), 1);
}

#[test]
fn ping_check_waits_ten_seconds() {
    let mut app = new_app();
    let lid = app.lists[0].id.clone();
    app.check_pings(200_000);
    assert_eq!(app.last_ping_check, 200_000);
    let t = app.db.create_task(&lid, "water", None, Some(1), None, None);
    assert!(app.check_pings(209_999).is_empty());
    assert_eq!(app.last_ping_check, 200_000);
    let all = app.db.get_all_tasks();
    assert_eq!(all.iter().find(|x| x.id == t.id).unwrap().last_ping_at, None);
    app.check_pings(210_000);
    assert_eq!(app.last_ping_check, 210_000);
    let all = app.db.get_all_tasks();
    assert_eq!(all.iter().find(|x| x.id == t.id).unwrap().last_ping_at, Some(210_000));
}

#[test]
fn deleted_task_comes_back_with_undo() {
    let mut app = new_app();
    let mut history: Vec<chirp::db::Database> = Vec::new();
    let lid = app.lists[0].id.clone();
    app.db.create_task(&lid, "keep me", None, None, None, None);
    app.refresh_tasks();
    for k in [key('d'), key('y')] {
        assert!(key_allowed(&app, k));
        chirp::history::press_key(&mut history, &mut app, k);
    }
    assert_eq!(app.status_message.as_deref(), Some("Deleted"));
    assert!(app.db.tasks.is_empty());
    assert_eq!(history.len(), 1);
    chirp::history::press_key(&mut history, &mut app, key('u'));
    assert_eq!(app.db.tasks.len(), 1);
    assert_eq!(app.db.tasks[0].content, "keep me");
    assert!(history.is_empty());
}

#[test]
fn undo_history_keeps_twenty_stores() {
    let mut app = new_app();
    let mut history: Vec<chirp::db::Database> = Vec::new();
    let lid = app.lists[0].id.clone();
    app.db.create_task(&lid, "flip", None, None, None, None);
    app.refresh_tasks();
    for _ in 0..25 {
        assert!(key_allowed(&app, key(' ')));
        chirp::history::press_key(&mut history, &mut app, key(' '));
    }
    assert_eq!(history.len(), chirp::history::UNDO_LIMIT);
    assert_eq!(chirp::history::UNDO_LIMIT, 20);
    assert!(app.tasks[0].completed);
    for _ in 0..30 {
        chirp::history::press_key(&mut history, &mut app, key('u'));
    }
    assert!(history.is_empty());
    // 25 toggles from open; undoing the last 20 leaves the state after 5.
    assert!(app.tasks[0].completed);
}

#[test]
fn app_ping_check_matches_daemon() {
    let mut app = new_app();
    let lid = app.lists[0].id.clone();
    let a = app.db.create_task(&lid, "stretch", None, Some(1), Some(1), None);
    app.db.update_last_ping_at(&a.id, 0);
    app.db.create_task(&lid, "fresh", None, Some(5), None, None);
    app.db.create_task(&lid, "plain", None, None, None, None);
    let mut daemon_db = chirp::history::snapshot(&app.db);
    let shown = app.check_pings(300_000);
    let sent = chirp::pings::check_pings(&mut daemon_db, 300_000);
    assert_eq!(app.last_ping_check, 300_000);
    assert_eq!(shown.len(), sent.len());
    assert_eq!(shown.len(), 1);
    assert_eq!(shown[0].body, sent[0].body);
    let app_stamps: Vec<Option<i64>> = app.db.get_all_tasks().iter().map(|t| t.last_ping_at).collect();
    let daemon_stamps: Vec<Option<i64>> = daemon_db.get_all_tasks().iter().map(|t| t.last_ping_at).collect();
    assert_eq!(app_stamps, daemon_stamps);
}
