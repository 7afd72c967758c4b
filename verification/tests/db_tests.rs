use chirp::db::{Database, List, Task};
use chrono::Utc;

fn test_db() -> Database {
    Database::in_memory()
}

#[test]
fn test_default_list_created() {
    let db = test_db();
    let lists = db.get_all_lists();
    assert_eq!(lists.len(), 1);
    assert_eq!(lists[0].name, "Inbox");
}

#[test]
fn test_full_lifecycle() {
    let mut db = test_db();

    let list = db.create_list("Work");
    let lists = db.get_all_lists();
    assert_eq!(lists.len(), 2);

    let task = db.create_task(&list.id, "standup", Some(1000), Some(30), Some(1), Some("daily"));
    assert_eq!(task.content, "standup");
    assert_eq!(task.priority, Some(1));
    assert_eq!(task.recurrence.as_deref(), Some("daily"));
    assert_eq!(task.ping_interval, Some(30));

    let tasks = db.get_tasks_by_list(&list.id);
    assert_eq!(tasks.len(), 1);
    assert_eq!(tasks[0].list_id, list.id);

    db.update_task(&task.id, "daily standup", Some(2000), Some(60), Some(2), Some("weekly"));
    let tasks = db.get_tasks_by_list(&list.id);
    assert_eq!(tasks[0].content, "daily standup");
    assert_eq!(tasks[0].priority, Some(2));
    assert_eq!(tasks[0].ping_interval, Some(60));
    assert_eq!(tasks[0].recurrence.as_deref(), Some("weekly"));

    let task2 = db.create_task(&list.id, "review", None, None, Some(2), None);
    let before = db.get_tasks_by_list(&list.id);
    db.swap_sort_order(&task.id, &task2.id);
    let after = db.get_tasks_by_list(&list.id);
    assert_ne!(before[0].id, after[0].id);

    db.toggle_task(&task.id);
    let tasks = db.get_tasks_by_list(&list.id);
    let t = tasks.iter().find(|t| t.id == task.id).unwrap();
    assert!(t.completed);

    db.toggle_task(&task.id);
    let tasks = db.get_tasks_by_list(&list.id);
    let t = tasks.iter().find(|t| t.id == task.id).unwrap();
    assert!(!t.completed);

    db.snooze_task(&task2.id);
    let tasks = db.get_tasks_by_list(&list.id);
    let t = tasks.iter().find(|t| t.id == task2.id).unwrap();
    assert!(t.last_ping_at.is_some());

    db.delete_task(&task2.id);
    let tasks = db.get_tasks_by_list(&list.id);
    assert_eq!(tasks.len(), 1);
}

#[test]
fn test_notes() {
    let mut db = test_db();
    let lists = db.get_all_lists();
    let task = db.create_task(&lists[0].id, "test", None, None, None, None);
    assert_eq!(task.note, None);

    db.update_task_note(&task.id, Some("my note"));
    let tasks = db.get_tasks_by_list(&lists[0].id);
    assert_eq!(tasks[0].note.as_deref(), Some("my note"));

    db.update_task_note(&task.id, None);
    let tasks = db.get_tasks_by_list(&lists[0].id);
    assert_eq!(tasks[0].note, None);
}

#[test]
fn test_today_tasks() {
    let mut db = test_db();
    let lists = db.get_all_lists();
    let now = Utc::now().timestamp_millis();

    db.create_task(&lists[0].id, "overdue", Some(now - 86_400_000), None, None, None);
    db.create_task(&lists[0].id, "future", Some(now + 86_400_000 * 365), None, None, None);
    db.create_task(&lists[0].id, "no due", None, None, None, None);

    let today_tasks = db.get_today_tasks(now + 86_400_000);
    assert_eq!(today_tasks.len(), 1);
    assert_eq!(today_tasks[0].content, "overdue");
}

#[test]
fn test_agenda_queries() {
    let mut db = test_db();
    let lists = db.get_all_lists();
    let now = Utc::now().timestamp_millis();

    db.create_task(&lists[0].id, "past", Some(now - 3600_000), None, None, None);
    db.create_task(&lists[0].id, "soon", Some(now + 3600_000), None, None, None);
    db.create_task(&lists[0].id, "later", Some(now + 7200_000), None, None, None);

    let count = db.count_due_before(now + 86_400_000);
    assert_eq!(count, 3);

    let next = db.next_upcoming_task(now);
    assert!(next.is_some());
    assert_eq!(next.unwrap().0, "soon");
}

#[test]
fn test_find_or_create_list() {
    let mut db = test_db();
    let id1 = db.find_or_create_list("Inbox");
    let id2 = db.find_or_create_list("inbox");
    assert_eq!(id1, id2);

    let id3 = db.find_or_create_list("Work");
    assert_ne!(id1, id3);
    assert_eq!(db.get_all_lists().len(), 2);
}

#[test]
fn test_delete_list_cascades() {
    let mut db = test_db();
    let list = db.create_list("Temp");
    db.create_task(&list.id, "task1", None, None, None, None);
    db.create_task(&list.id, "task2", None, None, None, None);
    assert_eq!(db.get_tasks_by_list(&list.id).len(), 2);

    db.delete_list(&list.id);
    assert_eq!(db.get_tasks_by_list(&list.id).len(), 0);
    assert_eq!(db.get_all_lists().len(), 1);
}

#[test]
fn test_priority_sorting() {
    let mut db = test_db();
    let lists = db.get_all_lists();
    let lid = &lists[0].id;

    db.create_task(lid, "low", None, None, Some(3), None);
    db.create_task(lid, "high", None, None, Some(1), None);
    db.create_task(lid, "none", None, None, None, None);
    db.create_task(lid, "medium", None, None, Some(2), None);

    let tasks = db.get_tasks_by_list(lid);
    assert_eq!(tasks[0].content, "high");
    assert_eq!(tasks[1].content, "medium");
    assert_eq!(tasks[2].content, "low");
    assert_eq!(tasks[3].content, "none");
}

// ---- further cases ----

#[test]
fn new_tasks_come_first_within_their_group() {
    let mut db = test_db();
    let lid = db.get_all_lists()[0].id.clone();
    let a = db.create_task(&lid, "a", None, None, None, None);
    let b = db.create_task(&lid, "b", None, None, None, None);
    assert_eq!(a.sort_order, -1);
    assert_eq!(b.sort_order, -2);
    let tasks = db.get_tasks_by_list(&lid);
    assert_eq!(tasks[0].content, "b");
    assert_eq!(tasks[1].content, "a");
}

#[test]
fn completed_tasks_sort_last() {
    let mut db = test_db();
    let lid = db.get_all_lists()[0].id.clone();
    let a = db.create_task(&lid, "done one", None, None, Some(1), None);
    db.create_task(&lid, "open one", None, None, Some(3), None);
    db.toggle_task(&a.id);
    let tasks = db.get_tasks_by_list(&lid);
    assert_eq!(tasks[0].content, "open one");
    assert_eq!(tasks[1].content, "done one");
}

#[test]
fn toggle_twice_restores() {
    let mut db = test_db();
    let lid = db.get_all_lists()[0].id.clone();
    let t = db.create_task(&lid, "x", None, None, None, None);
    db.toggle_task(&t.id);
    db.toggle_task(&t.id);
    let tasks = db.get_all_tasks();
    assert!(!tasks[0].completed);
}

#[test]
fn swap_twice_restores() {
    let mut db = test_db();
    let lid = db.get_all_lists()[0].id.clone();
    let a = db.create_task(&lid, "a", None, None, None, None);
    let b = db.create_task(&lid, "b", None, None, None, None);
    db.swap_sort_order(&a.id, &b.id);
    db.swap_sort_order(&a.id, &b.id);
    let tasks = db.get_tasks_by_list(&lid);
    assert_eq!(tasks[0].id, b.id);
    assert_eq!(tasks[0].sort_order, -2);
    assert_eq!(tasks[1].sort_order, -1);
}

#[test]
fn update_clears_last_ping() {
    let mut db = test_db();
    let lid = db.get_all_lists()[0].id.clone();
    let t = db.create_task(&lid, "x", None, Some(5), None, None);
    db.update_last_ping_at(&t.id, 42);
    assert_eq!(db.get_all_tasks()[0].last_ping_at, Some(42));
    db.update_task(&t.id, "y", None, Some(5), None, None);
    assert_eq!(db.get_all_tasks()[0].last_ping_at, None);
}

#[test]
fn rename_and_lookup() {
    let mut db = test_db();
    let l = db.create_list("Old");
    db.rename_list(&l.id, "New");
    let lists = db.get_all_lists();
    assert_eq!(lists[1].name, "New");
    assert_eq!(db.find_or_create_list("NEW"), l.id);
    assert_eq!(db.get_task_list_id("missing"), None);
}

#[test]
fn pingable_and_list_ids() {
    let mut db = test_db();
    let lid = db.get_all_lists()[0].id.clone();
    let t = db.create_task(&lid, "p", None, Some(10), None, None);
    db.create_task(&lid, "q", None, None, None, None);
    let p = db.get_pingable_tasks();
    assert_eq!(p.len(), 1);
    assert_eq!(p[0].content, "p");
    assert_eq!(db.get_task_list_id(&t.id), Some(lid.clone()));
    assert_eq!(db.list_task_counts(&lid), (2, 2));
    db.toggle_task(&t.id);
    assert_eq!(db.list_task_counts(&lid), (1, 2));
    assert!(db.get_pingable_tasks().is_empty());
}

#[test]
fn all_tasks_by_list_then_order() {
    let mut db = Database::from_rows(
        vec![
            List { id: "b".to_string(), name: "B".to_string() },
            List { id: "a".to_string(), name: "A".to_string() },
        ],
        vec![],
    );
    db.create_task("b", "in b", None, None, None, None);
    db.create_task("a", "in a", None, None, None, None);
    let all = db.get_all_tasks();
    assert_eq!(all[0].content, "in a");
    assert_eq!(all[1].content, "in b");
}

#[test]
fn from_rows_drops_orphans_and_duplicates() {
    let task = |id: &str, list: &str| Task {
        id: id.to_string(),
        list_id: list.to_string(),
        content: id.to_string(),
        completed: false,
        due_at: None,
        ping_interval: None,
        last_ping_at: None,
        priority: None,
        recurrence: None,
        sort_order: 0,
        note: None,
    };
    let db = Database::from_rows(
        vec![List { id: "l".to_string(), name: "L".to_string() }],
        vec![task("t1", "l"), task("t1", "l"), task("t2", "gone")],
    );
    assert_eq!(db.get_all_tasks().len(), 1);
    let empty = Database::from_rows(vec![], vec![]);
    assert_eq!(empty.get_all_lists()[0].name, "Inbox");
}

#[test]
fn next_upcoming_ignores_done_and_past() {
    let mut db = test_db();
    let lid = db.get_all_lists()[0].id.clone();
    let t = db.create_task(&lid, "first", Some(100), None, None, None);
    db.create_task(&lid, "second", Some(200), None, None, None);
    db.create_task(&lid, "past", Some(50), None, None, None);
    assert_eq!(db.next_upcoming_task(60), Some(("first".to_string(), 100)));
    db.toggle_task(&t.id);
    assert_eq!(db.next_upcoming_task(60), Some(("second".to_string(), 200)));
    assert_eq!(db.next_upcoming_task(300), None);
}
