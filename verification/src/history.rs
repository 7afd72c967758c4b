//! Undo: the stores as they were before each change made from the
//! keyboard, and the `u` key, which brings back the last of them.
use vstd::prelude::*;
use vstd::view::View as _;

use crate::app::{App, InputMode, View};
use crate::db::{copy_list, copy_task, Database, List, Task};
use crate::keys::{
    handle_key, handle_mouse, key_handled, key_ok, mouse_handled, mouse_ok, Key, KeyCode, Mouse,
};

verus! {

/// Two lists read the same.
pub open spec fn same_list(a: List, b: List) -> bool {
    a.id@ == b.id@ && a.name@ == b.name@
}

/// Two optional texts read the same.
pub open spec fn same_opt_text(a: Option<String>, b: Option<String>) -> bool {
    match (a, b) {
        (Some(x), Some(y)) => x@ == y@,
        (None, None) => true,
        _ => false,
    }
}

/// Two tasks read the same.
pub open spec fn same_task(a: Task, b: Task) -> bool {
    &&& a.id@ == b.id@
    &&& a.list_id@ == b.list_id@
    &&& a.content@ == b.content@
    &&& a.completed == b.completed
    &&& a.due_at == b.due_at
    &&& a.ping_interval == b.ping_interval
    &&& a.last_ping_at == b.last_ping_at
    &&& a.priority == b.priority
    &&& same_opt_text(a.recurrence, b.recurrence)
    &&& a.sort_order == b.sort_order
    &&& same_opt_text(a.note, b.note)
}

/// Two stores read the same: the same lists and tasks, in the same order.
pub open spec fn same_store(a: Database, b: Database) -> bool {
    &&& a.lists@.len() == b.lists@.len()
    &&& forall|k: int| 0 <= k < a.lists@.len() ==> same_list(#[trigger] a.lists@[k], b.lists@[k])
    &&& a.tasks@.len() == b.tasks@.len()
    &&& forall|k: int| 0 <= k < a.tasks@.len() ==> same_task(#[trigger] a.tasks@[k], b.tasks@[k])
}

fn same_opt_text_exec(a: &Option<String>, b: &Option<String>) -> (r: bool)
    ensures
        r == same_opt_text(*a, *b),
{
    match (a, b) {
        (Some(x), Some(y)) => *x == *y,
        (None, None) => true,
        _ => false,
    }
}

fn same_task_exec(a: &Task, b: &Task) -> (r: bool)
    ensures
        r == same_task(*a, *b),
{
    a.id == b.id && a.list_id == b.list_id && a.content == b.content && a.completed == b.completed
        && a.due_at == b.due_at && a.ping_interval == b.ping_interval && a.last_ping_at
        == b.last_ping_at && a.priority == b.priority && same_opt_text_exec(
        &a.recurrence,
        &b.recurrence,
    ) && a.sort_order == b.sort_order && same_opt_text_exec(&a.note, &b.note)
}

/// Whether the two stores read the same.
pub fn stores_match(a: &Database, b: &Database) -> (r: bool)
    ensures
        r == same_store(*a, *b),
{
    if a.lists.len() != b.lists.len() || a.tasks.len() != b.tasks.len() {
        return false;
    }
    let mut i: usize = 0;
    while i < a.lists.len()
        invariant
            i <= a.lists@.len(),
            a.lists@.len() == b.lists@.len(),
            forall|k: int| 0 <= k < i ==> same_list(#[trigger] a.lists@[k], b.lists@[k]),
        decreases a.lists@.len() - i,
    {
        if !(a.lists[i].id == b.lists[i].id && a.lists[i].name == b.lists[i].name) {
            return false;
        }
        i += 1;
    }
    let mut j: usize = 0;
    while j < a.tasks.len()
        invariant
            j <= a.tasks@.len(),
            a.tasks@.len() == b.tasks@.len(),
            forall|k: int| 0 <= k < j ==> same_task(#[trigger] a.tasks@[k], b.tasks@[k]),
        decreases a.tasks@.len() - j,
    {
        if !same_task_exec(&a.tasks[j], &b.tasks[j]) {
            return false;
        }
        j += 1;
    }
    true
}

/// A copy of the store.
pub fn snapshot(db: &Database) -> (r: Database)
    ensures
        r.lists@ == db.lists@,
        r.tasks@ == db.tasks@,
{
    let mut lists: Vec<List> = Vec::new();
    let mut i: usize = 0;
    while i < db.lists.len()
        invariant
            i <= db.lists@.len(),
            lists@ == db.lists@.take(i as int),
        decreases db.lists@.len() - i,
    {
        lists.push(copy_list(&db.lists[i]));
        assert(db.lists@.take(i + 1) == db.lists@.take(i as int).push(db.lists@[i as int]));
        i += 1;
    }
    let mut tasks: Vec<Task> = Vec::new();
    let mut j: usize = 0;
    while j < db.tasks.len()
        invariant
            j <= db.tasks@.len(),
            tasks@ == db.tasks@.take(j as int),
        decreases db.tasks@.len() - j,
    {
        tasks.push(copy_task(&db.tasks[j]));
        assert(db.tasks@.take(j + 1) == db.tasks@.take(j as int).push(db.tasks@[j as int]));
        j += 1;
    }
    assert(db.lists@.take(db.lists@.len() as int) == db.lists@);
    assert(db.tasks@.take(db.tasks@.len() as int) == db.tasks@);
    Database { lists, tasks }
}

/// `u` in the task list, outside the input line: the key that undoes.
pub open spec fn is_undo_key(a: App, k: Key) -> bool {
    a.view == View::Tasks && a.input_mode == InputMode::Normal && k.code == KeyCode::Char('u')
}

/// How many stores the undo history keeps.
pub const UNDO_LIMIT: usize = 20;

/// The history holds at most `UNDO_LIMIT` stores, each well formed.
pub open spec fn history_wf(h: Seq<Database>) -> bool {
    &&& h.len() <= UNDO_LIMIT
    &&& forall|k: int| 0 <= k < h.len() ==> (#[trigger] h[k]).wf()
}

/// The history before a store joins it: the oldest store leaves a full one.
pub open spec fn kept_history(h: Seq<Database>) -> Seq<Database> {
    if h.len() >= UNDO_LIMIT {
        h.skip(1)
    } else {
        h
    }
}

/// The effect of `u`: the last store recorded comes back and leaves the
/// history; with none recorded nothing changes.
pub open spec fn undone(h0: Seq<Database>, h1: Seq<Database>, a0: App, a1: App) -> bool {
    if h0.len() == 0 {
        h1 == h0 && a1 == a0
    } else {
        let s = h0.last();
        &&& h1 == h0.drop_last()
        &&& a1.db == s
        &&& a1.lists@ == s.lists@
        &&& a1.selected_list == (if a0.selected_list >= s.lists@.len() && s.lists@.len() > 0 {
            (s.lists@.len() - 1) as usize
        } else {
            a0.selected_list
        })
        &&& a1.status_message == a0.status_message
        &&& a1.same_ui(&a0)
        &&& a1.refreshed_from(a0.selected_task)
    }
}

/// The effect of key `k` with the undo history kept: `u` undoes; any other
/// key is handled as `handle_key` does it, and when it changes the store,
/// the store as it was joins the history.
pub open spec fn history_kept(h0: Seq<Database>, h1: Seq<Database>, a0: App, a1: App, k: Key) -> bool {
    if is_undo_key(a0, k) {
        undone(h0, h1, a0, a1)
    } else {
        key_handled(a0, a1, k) && recorded(h0, h1, a0.db, a1.db)
    }
}

/// The history after a change of the store from `before` to `after`: the
/// store as it was joins it (the oldest store leaving a full history),
/// unless the store reads the same.
pub open spec fn recorded(h0: Seq<Database>, h1: Seq<Database>, before: Database, after: Database) -> bool {
    if same_store(before, after) {
        h1 == h0
    } else {
        &&& h1.len() == kept_history(h0).len() + 1
        &&& h1.drop_last() == kept_history(h0)
        &&& h1.last().lists@ == before.lists@
        &&& h1.last().tasks@ == before.tasks@
    }
}

/// Adds `before` to the history, dropping the oldest store of a full one.
fn record(history: &mut Vec<Database>, before: Database)
    requires
        history_wf(old(history)@),
        before.wf(),
    ensures
        history_wf(final(history)@),
        final(history)@ == kept_history(old(history)@).push(before),
        final(history)@.drop_last() == kept_history(old(history)@),
        final(history)@.last() == before,
        final(history)@.len() == kept_history(old(history)@).len() + 1,
{
    let ghost h0 = history@;
    if history.len() >= UNDO_LIMIT {
        history.remove(0);
        assert(history@ =~= h0.skip(1));
    }
    let ghost h1 = history@;
    history.push(before);
    assert(history@.drop_last() =~= h1);
}

/// Handles a key and keeps the undo history: `u` in the task list brings
/// back the store as it was before the last change made from the keyboard;
/// any other key is handled as `handle_key` does it, and when it changes the
/// store, the store as it was is recorded.
pub fn press_key(history: &mut Vec<Database>, app: &mut App, k: Key)
    requires
        old(app).wf(),
        history_wf(old(history)@),
        key_ok(*old(app), k),
    ensures
        final(app).wf(),
        history_wf(final(history)@),
        history_kept(old(history)@, final(history)@, *old(app), *final(app), k),
{
    if app.view == View::Tasks && app.input_mode == InputMode::Normal && k.code == KeyCode::Char('u') {
        let ghost h0 = history@;
        match history.pop() {
            Some(db) => {
                assert(db == h0.last());
                app.restore_store(db);
            },
            None => {},
        }
        assert(undone(h0, history@, *old(app), *app));
        return;
    }
    let ghost a0 = *app;
    let before = snapshot(&app.db);
    handle_key(app, k);
    let same = stores_match(&before, &app.db);
    assert(same == same_store(a0.db, app.db));
    if !same {
        record(history, before);
    }
    assert(!is_undo_key(a0, k));
}

/// Handles a mouse action and keeps the undo history: when the action
/// changes the store (a click on a checkbox), the store as it was is
/// recorded.
pub fn press_mouse(history: &mut Vec<Database>, app: &mut App, m: Mouse, area_y: u16, area_height: u16)
    requires
        old(app).wf(),
        history_wf(old(history)@),
        mouse_ok(*old(app), m, area_y, area_height),
    ensures
        final(app).wf(),
        history_wf(final(history)@),
        mouse_handled(*old(app), *final(app), m, area_y, area_height),
        recorded(old(history)@, final(history)@, old(app).db, final(app).db),
{
    let ghost a0 = *app;
    let before = snapshot(&app.db);
    handle_mouse(app, m, area_y, area_height);
    let same = stores_match(&before, &app.db);
    assert(same == same_store(a0.db, app.db));
    if !same {
        record(history, before);
    }
}

} // verus!
