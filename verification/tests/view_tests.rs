use chirp::app::{App, InputMode};
use chirp::db::{Database, Task};
use chirp::desktop::{
    apply_list_update, apply_task_update, create_list, create_task, starter_list, toggled_flag,
    CreateTaskInput, UpdateListInput, UpdateTaskInput,
};
use chirp::view::{
    centered, empty_message, input_cursor_column, input_line, key_hints, mode_badge, row_accepted,
    task_row, unicode_width, Rect, Tone,
};

fn plain_task(content: &str) -> Task {
    Task {
        id: "t1".to_string(),
        list_id: "l1".to_string(),
        content: content.to_string(),
        completed: false,
        due_at: None,
        ping_interval: None,
        last_ping_at: None,
        priority: None,
        recurrence: None,
        sort_order: 0,
        note: None,
    }
}

fn texts(t: &Task, selected: bool, tag: Option<&str>) -> Vec<String> {
    task_row(t, selected, tag, 0).into_iter().map(|p| p.text).collect()
}

#[test]
fn width_counts_characters() {
    assert_eq!(unicode_width(""), 0);
    assert_eq!(unicode_width("abc"), 3);
    assert_eq!(unicode_width("h\u{e9}llo \u{2014}"), 7);
}

#[test]
fn centered_fits_and_centres() {
    let area = Rect { x: 0, y: 0, width: 100, height: 40 };
    assert_eq!(centered(area, 50, 10), Rect { x: 25, y: 15, width: 50, height: 10 });
    let small = Rect { x: 2, y: 3, width: 20, height: 5 };
    assert_eq!(centered(small, 50, 10), Rect { x: 2, y: 3, width: 20, height: 5 });
    assert_eq!(centered(small, 11, 2), Rect { x: 6, y: 4, width: 11, height: 2 });
}

#[test]
fn plain_row_pieces() {
    let t = plain_task("buy milk");
    assert_eq!(texts(&t, false, None), vec!["   ", "\u{25cb} ", "buy milk"]);
    let sel = task_row(&t, true, None, 0);
    assert_eq!(sel[0].text, " \u{25b8} ");
    assert_eq!(sel[0].fg, Tone::Accent);
    assert!(sel[2].bold);
}

#[test]
fn done_row_is_crossed_and_faint() {
    let mut t = plain_task("done thing");
    t.completed = true;
    t.note = Some("n".to_string());
    t.recurrence = Some("daily".to_string());
    let row = task_row(&t, false, None, 0);
    assert_eq!(row[1].text, "\u{2713} ");
    assert_eq!(row[2].fg, Tone::Faint);
    assert!(row[2].crossed);
    assert_eq!(row.len(), 3);
}

#[test]
fn row_shows_priority_tag_recurrence_note() {
    let mut t = plain_task("call mom");
    t.priority = Some(1);
    t.recurrence = Some("weekly".to_string());
    t.note = Some("ask about sunday".to_string());
    let row = task_row(&t, false, Some("Work"), 0);
    let text: Vec<String> = row.iter().map(|p| p.text.clone()).collect();
    assert!(text.contains(&"  Work".to_string()));
    assert!(text.contains(&"  weekly".to_string()));
    assert_eq!(text.last().unwrap(), "  +");
    let p1 = row.iter().find(|p| p.text.starts_with("p1")).expect("priority piece");
    assert_eq!(p1.fg, Tone::Danger);
}

#[test]
fn row_shows_ping_interval() {
    let mut t = plain_task("stretch");
    t.ping_interval = Some(90);
    assert!(row_accepted(&t));
    let text = texts(&t, false, None);
    assert!(text.iter().any(|s| s.contains("1h30m")));
}

#[test]
fn row_refuses_overflowing_countdown() {
    let mut t = plain_task("x");
    t.ping_interval = Some(i64::MAX);
    assert!(!row_accepted(&t));
    let mut u = plain_task("y");
    u.due_at = Some(i64::MAX);
    assert!(!row_accepted(&u));
}

#[test]
fn input_line_and_badge() {
    let mut app = App::new(Database::in_memory());
    let line = input_line(&app);
    assert_eq!(line.icon, "\u{25b8}");
    assert_eq!(line.text, "0 pending");
    assert_eq!(line.text_tone, Tone::Dim);
    assert_eq!(mode_badge(&app).text, " NORMAL ");
    app.input_mode = InputMode::Insert;
    let line = input_line(&app);
    assert_eq!(line.text, "buy milk tomorrow 5pm ping 2h p1 daily");
    assert_eq!(line.text_tone, Tone::Faint);
    assert_eq!(line.icon_tone, Tone::Accent);
    assert_eq!(mode_badge(&app).text, " INSERT ");
    app.input = "h\u{e9}y".to_string();
    app.cursor_pos = 3;
    assert_eq!(input_cursor_column(&app), 2);
    app.search_mode = true;
    assert_eq!(mode_badge(&app).text, " SEARCH ");
    assert_eq!(input_line(&app).icon, "/");
}

#[test]
fn hints_and_empty_messages() {
    let mut app = App::new(Database::in_memory());
    let hints = key_hints(&app);
    assert_eq!(hints.len(), 10);
    assert_eq!(hints[0], ("i".to_string(), "add".to_string()));
    assert_eq!(hints[9], ("q".to_string(), "quit".to_string()));
    assert_eq!(empty_message(&app).as_deref(), Some("no tasks yet \u{2014} press i to add one"));
    app.input_mode = InputMode::Insert;
    assert_eq!(key_hints(&app)[0], ("\u{21b5}".to_string(), "add".to_string()));
    app.search_mode = true;
    app.input = "zz".to_string();
    assert_eq!(empty_message(&app).as_deref(), Some("no matches"));
}

#[test]
fn desktop_records() {
    let l = create_list("Home".to_string(), None);
    assert_eq!(l.color, "#4a9f6e");
    assert_eq!(l.created_at, l.updated_at);
    assert_eq!(l.id.len(), 36);
    let l2 = apply_list_update(
        l,
        UpdateListInput { name: Some("House".to_string()), color: None, reminder: Some("9am".to_string()) },
        42,
    );
    assert_eq!(l2.name, "House");
    assert_eq!(l2.color, "#4a9f6e");
    assert_eq!(l2.reminder.as_deref(), Some("9am"));
    assert_eq!(l2.updated_at, 42);

    let t = create_task(CreateTaskInput {
        list_id: l2.id.clone(),
        content: "water plants".to_string(),
        due_at: Some(1000),
        ping_interval: None,
        parent_id: None,
    });
    assert!(!t.completed);
    assert_eq!(t.last_ping_at, None);
    let created = t.created_at;
    let t2 = apply_task_update(
        t,
        UpdateTaskInput { content: None, completed: Some(true), due_at: None, ping_interval: Some(30), last_ping_at: None },
        7,
    );
    assert!(t2.completed);
    assert_eq!(t2.content, "water plants");
    assert_eq!(t2.due_at, Some(1000));
    assert_eq!(t2.ping_interval, Some(30));
    assert_eq!(t2.created_at, created);
    assert_eq!(t2.updated_at, 7);
    assert_eq!(toggled_flag(0), 1);
    assert_eq!(toggled_flag(1), 0);
    assert_eq!(toggled_flag(5), 0);
}

#[test]
fn header_shows_title_and_tabs() {
    let mut db = Database::in_memory();
    db.create_list("Work");
    let mut app = App::new(db);
    app.next_list();
    let tabs = chirp::view::header_tabs(&app);
    let texts: Vec<&str> = tabs.iter().map(|p| p.text.as_str()).collect();
    assert_eq!(texts, vec![" chirp", "  ", " today ", " ", " Inbox ", " ", " Work "]);
    assert_eq!(tabs[0].fg, Tone::Accent);
    assert!(tabs[0].bold);
    assert_eq!(tabs[2].fg, Tone::Dim);
    assert_eq!(tabs[4].fg, Tone::Dim);
    assert_eq!(tabs[4].bg, None);
    assert_eq!(tabs[6].fg, Tone::Background);
    assert_eq!(tabs[6].bg, Some(Tone::Accent));
    assert!(tabs[6].bold);
    app.toggle_today();
    let tabs = chirp::view::header_tabs(&app);
    assert_eq!(tabs[2].bg, Some(Tone::Warn));
    assert_eq!(tabs[6].bg, None);
}

#[test]
fn detail_pane_lines() {
    let mut t = plain_task("call mom");
    t.priority = Some(2);
    t.ping_interval = Some(30);
    t.recurrence = Some("weekly".to_string());
    t.note = Some("ask about sunday".to_string());
    let (l1, l2, l3) = chirp::view::task_details(&t, "Home", 0);
    let s1: Vec<&str> = l1.iter().map(|p| p.text.as_str()).collect();
    assert_eq!(s1, vec!["  list: ", "Home", "  pri: ", "p2"]);
    assert_eq!(l1[1].fg, Tone::Light);
    assert_eq!(l1[3].fg, Tone::Warn);
    let s2: Vec<&str> = l2.iter().map(|p| p.text.as_str()).collect();
    assert_eq!(s2[0], "  ");
    assert_eq!(s2[1], "ping: ");
    assert_eq!(s2[2], "every 30m");
    assert_eq!(l2[2].fg, Tone::Blue);
    assert_eq!(s2[s2.len() - 2], "recurs: ");
    assert_eq!(s2[s2.len() - 1], "weekly");
    let s3: Vec<&str> = l3.iter().map(|p| p.text.as_str()).collect();
    assert_eq!(s3, vec!["  note: ", "ask about sunday"]);
    let bare = plain_task("x");
    let (_, m2, m3) = chirp::view::task_details(&bare, "?", 0);
    assert_eq!(m2.len(), 1);
    assert_eq!(m3[1].text, "(no note)");
    assert_eq!(m3[1].fg, Tone::Dim);
}

#[test]
fn detail_pane_follows_selection() {
    let mut db = Database::in_memory();
    let inbox = db.lists[0].id.clone();
    db.create_task(&inbox, "first", None, None, None, None);
    db.create_task(&inbox, "second", None, None, None, None);
    let mut app = App::new(db);
    assert!(app.detail_task().is_none());
    app.toggle_detail_pane();
    let shown = app.detail_task().expect("pane open").content.clone();
    assert_eq!(shown, app.selected_task_data().unwrap().content);
    assert_eq!(app.list_name_for_id(&app.tasks[0].list_id), "Inbox");
    assert_eq!(app.list_name_for_id("nope"), "?");
    app.move_selection_down();
    assert!(app.detail_task().is_none());
    assert!(app.expanded_task_id.is_some());
    app.toggle_detail_pane();
    assert_eq!(app.detail_task().unwrap().content, app.selected_task_data().unwrap().content);
    app.toggle_detail_pane();
    assert!(app.expanded_task_id.is_none());
}

#[test]
fn inbox_added_only_to_an_empty_store() {
    let l = starter_list(0).unwrap();
    assert_eq!(l.name, "Inbox");
    assert_eq!(l.color, "#4a9f6e");
    assert!(l.reminder.is_none());
    assert_eq!(l.created_at, l.updated_at);
    assert!(starter_list(1).is_none());
    assert!(starter_list(3).is_none());
}
