//! The records of the desktop companion and the rules its commands apply
//! to them: new lists and tasks, partial updates, and toggling completion.
use vstd::prelude::*;

use crate::clock::{in_calendar, now_millis};
use crate::db::new_uuid;
use crate::text::string_of;

verus! {

/// A list as the desktop app stores it.
pub struct List {
    pub id: String,
    pub name: String,
    pub color: String,
    pub reminder: Option<String>,
    pub created_at: i64,
    pub updated_at: i64,
}

/// A task as the desktop app stores it.
pub struct Task {
    pub id: String,
    pub list_id: String,
    pub content: String,
    pub completed: bool,
    pub due_at: Option<i64>,
    pub ping_interval: Option<i64>,
    pub last_ping_at: Option<i64>,
    pub parent_id: Option<String>,
    pub created_at: i64,
    pub updated_at: i64,
}

/// The fields of a new task.
pub struct CreateTaskInput {
    pub list_id: String,
    pub content: String,
    pub due_at: Option<i64>,
    pub ping_interval: Option<i64>,
    pub parent_id: Option<String>,
}

/// A partial update of a task: each given field replaces the task's.
pub struct UpdateTaskInput {
    pub content: Option<String>,
    pub completed: Option<bool>,
    pub due_at: Option<i64>,
    pub ping_interval: Option<i64>,
    pub last_ping_at: Option<i64>,
}

/// A partial update of a list: each given field replaces the list's.
pub struct UpdateListInput {
    pub name: Option<String>,
    pub color: Option<String>,
    pub reminder: Option<String>,
}

/// The colour of a list created without one: `#4a9f6e`.
pub open spec fn default_color() -> Seq<char> {
    seq!['#', '4', 'a', '9', 'f', '6', 'e']
}

/// A new list named `name` with colour `color` (the default when none is
/// given), created and updated now.
pub fn create_list(name: String, color: Option<String>) -> (r: List)
    ensures
        r.name == name,
        r.color@ == (match color {
            Some(c) => c@,
            None => default_color(),
        }),
        r.reminder is None,
        r.created_at == r.updated_at,
        in_calendar(r.created_at as int),
{
    let id = new_uuid();
    let now = now_millis();
    let color = match color {
        Some(c) => c,
        None => string_of(&vec!['#', '4', 'a', '9', 'f', '6', 'e']),
    };
    List { id, name, color, reminder: None, created_at: now, updated_at: now }
}

/// The name of the list the desktop app starts with: `Inbox`.
pub open spec fn starter_name() -> Seq<char> {
    seq!['I', 'n', 'b', 'o', 'x']
}

/// The list to add when the app starts with `list_count` lists: an `Inbox`
/// in the default colour when there are none, nothing otherwise.
pub fn starter_list(list_count: usize) -> (r: Option<List>)
    ensures
        r is Some <==> list_count == 0,
        r matches Some(l) ==> {
            &&& l.name@ == starter_name()
            &&& l.color@ == default_color()
            &&& l.reminder is None
            &&& l.created_at == l.updated_at
            &&& in_calendar(l.created_at as int)
        },
{
    if list_count == 0 {
        let name = string_of(&vec!['I', 'n', 'b', 'o', 'x']);
        Some(create_list(name, None))
    } else {
        None
    }
}

/// `list` with the update applied at time `now`: each given field replaces
/// the list's, and the list counts as updated now.
pub fn apply_list_update(list: List, updates: UpdateListInput, now: i64) -> (r: List)
    ensures
        r.id == list.id,
        r.name == (match updates.name {
            Some(n) => n,
            None => list.name,
        }),
        r.color == (match updates.color {
            Some(c) => c,
            None => list.color,
        }),
        r.reminder == (match updates.reminder {
            Some(x) => Some(x),
            None => list.reminder,
        }),
        r.created_at == list.created_at,
        r.updated_at == now,
{
    let mut l = list;
    match updates.name {
        Some(n) => {
            l.name = n;
        },
        None => {},
    }
    match updates.color {
        Some(c) => {
            l.color = c;
        },
        None => {},
    }
    match updates.reminder {
        Some(x) => {
            l.reminder = Some(x);
        },
        None => {},
    }
    l.updated_at = now;
    l
}

/// The list updated now.
pub fn update_list(list: List, updates: UpdateListInput) -> (r: List)
    ensures
        r.id == list.id,
        r.name == (match updates.name {
            Some(n) => n,
            None => list.name,
        }),
        r.color == (match updates.color {
            Some(c) => c,
            None => list.color,
        }),
        r.reminder == (match updates.reminder {
            Some(x) => Some(x),
            None => list.reminder,
        }),
        r.created_at == list.created_at,
        in_calendar(r.updated_at as int),
{
    let now = now_millis();
    apply_list_update(list, updates, now)
}

/// A new open task from `input`, created and updated now, never pinged.
pub fn create_task(input: CreateTaskInput) -> (r: Task)
    ensures
        r.list_id == input.list_id,
        r.content == input.content,
        !r.completed,
        r.due_at == input.due_at,
        r.ping_interval == input.ping_interval,
        r.last_ping_at is None,
        r.parent_id == input.parent_id,
        r.created_at == r.updated_at,
        in_calendar(r.created_at as int),
{
    let id = new_uuid();
    let now = now_millis();
    Task {
        id,
        list_id: input.list_id,
        content: input.content,
        completed: false,
        due_at: input.due_at,
        ping_interval: input.ping_interval,
        last_ping_at: None,
        parent_id: input.parent_id,
        created_at: now,
        updated_at: now,
    }
}

/// `task` with the update applied at time `now`: each given field replaces
/// the task's (a due time, ping interval or last ping can be set, not
/// cleared), and the task counts as updated now.
pub fn apply_task_update(task: Task, updates: UpdateTaskInput, now: i64) -> (r: Task)
    ensures
        r.id == task.id,
        r.list_id == task.list_id,
        r.content == (match updates.content {
            Some(c) => c,
            None => task.content,
        }),
        r.completed == (match updates.completed {
            Some(c) => c,
            None => task.completed,
        }),
        r.due_at == (if updates.due_at is Some {
            updates.due_at
        } else {
            task.due_at
        }),
        r.ping_interval == (if updates.ping_interval is Some {
            updates.ping_interval
        } else {
            task.ping_interval
        }),
        r.last_ping_at == (if updates.last_ping_at is Some {
            updates.last_ping_at
        } else {
            task.last_ping_at
        }),
        r.parent_id == task.parent_id,
        r.created_at == task.created_at,
        r.updated_at == now,
{
    let mut t = task;
    match updates.content {
        Some(c) => {
            t.content = c;
        },
        None => {},
    }
    match updates.completed {
        Some(c) => {
            t.completed = c;
        },
        None => {},
    }
    if updates.due_at.is_some() {
        t.due_at = updates.due_at;
    }
    if updates.ping_interval.is_some() {
        t.ping_interval = updates.ping_interval;
    }
    if updates.last_ping_at.is_some() {
        t.last_ping_at = updates.last_ping_at;
    }
    t.updated_at = now;
    t
}

/// The task updated now.
pub fn update_task(task: Task, updates: UpdateTaskInput) -> (r: Task)
    ensures
        r.id == task.id,
        r.list_id == task.list_id,
        r.content == (match updates.content {
            Some(c) => c,
            None => task.content,
        }),
        r.completed == (match updates.completed {
            Some(c) => c,
            None => task.completed,
        }),
        r.due_at == (if updates.due_at is Some {
            updates.due_at
        } else {
            task.due_at
        }),
        r.ping_interval == (if updates.ping_interval is Some {
            updates.ping_interval
        } else {
            task.ping_interval
        }),
        r.last_ping_at == (if updates.last_ping_at is Some {
            updates.last_ping_at
        } else {
            task.last_ping_at
        }),
        r.parent_id == task.parent_id,
        r.created_at == task.created_at,
        in_calendar(r.updated_at as int),
{
    let now = now_millis();
    apply_task_update(task, updates, now)
}

/// The stored completion flag after a toggle: `0` becomes `1`, anything
/// else `0`.
pub fn toggled_flag(completed: i32) -> (r: i32)
    ensures
        r == (if completed == 0 {
            1i32
        } else {
            0i32
        }),
{
    if completed == 0 {
        1
    } else {
        0
    }
}

} // verus!
