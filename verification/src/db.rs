//! The task store: lists and tasks with the queries and updates the app
//! runs against them. The store lives in memory; the application loads it
//! from the SQLite file and writes it back.
use vstd::prelude::*;

use crate::clock::{in_calendar, now_millis};
use crate::order::{sort_tasks, sorted_by};
use crate::text::{chars_of, string_of};

verus! {

broadcast use vstd::seq_lib::group_to_multiset_ensures;

#[derive(Debug, Clone)]
pub struct List {
    pub id: String,
    pub name: String,
}

#[derive(Debug, Clone)]
pub struct Task {
    pub id: String,
    pub list_id: String,
    pub content: String,
    pub completed: bool,
    pub due_at: Option<i64>,
    pub ping_interval: Option<i64>,
    pub last_ping_at: Option<i64>,
    pub priority: Option<u8>,
    pub recurrence: Option<String>,
    pub sort_order: i64,
    pub note: Option<String>,
}

/// A copy of an optional text.
pub fn copy_opt_string(o: &Option<String>) -> (r: Option<String>)
    ensures
        r == *o,
{
    match o {
        Some(s) => Some(s.clone()),
        None => None,
    }
}

/// A copy of a list.
pub fn copy_list(l: &List) -> (r: List)
    ensures
        r == *l,
{
    List { id: l.id.clone(), name: l.name.clone() }
}

/// A copy of a task.
pub fn copy_task(t: &Task) -> (r: Task)
    ensures
        r == *t,
{
    Task {
        id: t.id.clone(),
        list_id: t.list_id.clone(),
        content: t.content.clone(),
        completed: t.completed,
        due_at: t.due_at,
        ping_interval: t.ping_interval,
        last_ping_at: t.last_ping_at,
        priority: t.priority,
        recurrence: copy_opt_string(&t.recurrence),
        sort_order: t.sort_order,
        note: copy_opt_string(&t.note),
    }
}

fn opt_str_to_string(o: Option<&str>) -> (r: Option<String>)
    ensures
        match o {
            Some(s) => r matches Some(x) && x@ == s@,
            None => r is None,
        },
{
    match o {
        Some(s) => Some(s.to_owned()),
        None => None,
    }
}

/// A fresh identifier from `uuid::Uuid::new_v4`, in its hyphenated text
/// form. The identifier is random; nothing is stated of it.
#[verifier::external_body]
pub(crate) fn new_uuid() -> (r: String) {
    uuid::Uuid::new_v4().to_string()
}

// ======================= the data directory =======================

/// `r` is `base` with the path component `name` appended: directly, or
/// after one separator (`/`, or `\` on Windows).
pub open spec fn joined(base: Seq<char>, name: Seq<char>, r: Seq<char>) -> bool {
    ||| r == base + name
    ||| r == base + seq!['/'] + name
    ||| r == base + seq!['\\'] + name
}

/// A single relative path component: not empty, without separators or a
/// drive colon.
pub open spec fn plain_component(name: Seq<char>) -> bool {
    &&& name.len() > 0
    &&& forall|k: int|
        0 <= k < name.len() ==> #[trigger] name[k] != '/' && name[k] != '\\' && name[k] != ':'
}

/// `std::path::Path::join` of `base` and the component `name`, as text.
/// For a component without separators or a drive, the documentation has
/// `name` appended to `base`, after a separator unless `base` is empty or
/// already ends with one; the separator is the platform's
/// (`std::path::MAIN_SEPARATOR`: `/`, or `\` on Windows).
#[verifier::external_body]
pub(crate) fn join_path(base: &str, name: &str) -> (r: String)
    requires
        plain_component(name@),
    ensures
        joined(base@, name@, r@),
{
    std::path::Path::new(base).join(name).to_string_lossy().into_owned()
}

/// `dirs::data_dir`: the user's data directory as text, or `None` where the
/// platform has none. It depends on the user and the platform; nothing is
/// stated of it.
#[verifier::external_body]
fn user_data_dir() -> (r: Option<String>) {
    dirs::data_dir().map(|p| p.to_string_lossy().into_owned())
}

/// `Chirp`.
pub open spec fn app_dir_name() -> Seq<char> {
    seq!['C', 'h', 'i', 'r', 'p']
}

/// The base directory, or `.` where there is none.
pub open spec fn base_or_dot(base: Option<Seq<char>>) -> Seq<char> {
    match base {
        Some(b) => b,
        None => seq!['.'],
    }
}

/// The application's data directory under the base directory `base`:
/// `Chirp` in it, or in `.` where there is no base directory.
pub fn data_dir_in(base: Option<&str>) -> (r: String)
    ensures
        joined(
            base_or_dot(
                match base {
                    Some(b) => Some(b@),
                    None => None,
                },
            ),
            app_dir_name(),
            r@,
        ),
{
    let b = match base {
        Some(b) => b.to_owned(),
        None => {
            let dot = vec!['.'];
            assert(dot@ =~= seq!['.']);
            string_of(&dot)
        },
    };
    assert(b@ == base_or_dot(match base {
        Some(x) => Some(x@),
        None => None,
    }));
    proof {
        reveal_strlit("Chirp");
        assert("Chirp"@ =~= app_dir_name());
    }
    join_path(b.as_str(), "Chirp")
}

/// The application's data directory: `Chirp` in the user's data directory,
/// or in `.` where there is none.
pub fn data_dir() -> (r: String)
    ensures
        exists|base: Option<Seq<char>>|
            #[trigger] joined(base_or_dot(base), app_dir_name(), r@),
{
    let base = user_data_dir();
    let r = match &base {
        Some(b) => data_dir_in(Some(b.as_str())),
        None => data_dir_in(None),
    };
    proof {
        let bv: Option<Seq<char>> = match base {
            Some(b) => Some(b@),
            None => None,
        };
        assert(joined(base_or_dot(bv), app_dir_name(), r@));
    }
    r
}

// ======================= selections =======================

/// The tasks of `ts` that satisfy `p`, in their order.
pub open spec fn keep(ts: Seq<Task>, p: spec_fn(Task) -> bool) -> Seq<Task>
    decreases ts.len(),
{
    if ts.len() == 0 {
        Seq::<Task>::empty()
    } else if p(ts.last()) {
        keep(ts.drop_last(), p).push(ts.last())
    } else {
        keep(ts.drop_last(), p)
    }
}

/// The lists of `ls` that satisfy `p`, in their order.
pub open spec fn keep_lists(ls: Seq<List>, p: spec_fn(List) -> bool) -> Seq<List>
    decreases ls.len(),
{
    if ls.len() == 0 {
        Seq::<List>::empty()
    } else if p(ls.last()) {
        keep_lists(ls.drop_last(), p).push(ls.last())
    } else {
        keep_lists(ls.drop_last(), p)
    }
}

/// The task is due at or before `end`.
pub open spec fn due_by(t: Task, end: i64) -> bool {
    t.due_at matches Some(d) && d <= end
}

/// The task is due at or after `start`.
pub open spec fn due_from(t: Task, start: i64) -> bool {
    t.due_at matches Some(d) && d >= start
}

/// Which tasks a query selects.
pub enum Selection {
    /// the tasks of a list
    InList(String),
    /// the tasks outside a list
    NotInList(String),
    /// every task but the one with this id
    NotId(String),
    /// the tasks due at or before a time
    DueBy(i64),
    /// the open tasks due at or before a time
    OpenDueBy(i64),
    /// the open tasks due at or after a time
    OpenDueFrom(i64),
    /// the open tasks with a ping interval
    Pingable,
}

pub open spec fn selects(sel: Selection) -> spec_fn(Task) -> bool {
    match sel {
        Selection::InList(id) => |t: Task| t.list_id@ == id@,
        Selection::NotInList(id) => |t: Task| t.list_id@ != id@,
        Selection::NotId(id) => |t: Task| t.id@ != id@,
        Selection::DueBy(end) => |t: Task| due_by(t, end),
        Selection::OpenDueBy(end) => |t: Task| !t.completed && due_by(t, end),
        Selection::OpenDueFrom(start) => |t: Task|
            !t.completed && due_from(t, start),
        Selection::Pingable => |t: Task| !t.completed && t.ping_interval is Some,
    }
}

fn selects_exec(sel: &Selection, t: &Task) -> (r: bool)
    ensures
        r == selects(*sel)(*t),
{
    match sel {
        Selection::InList(id) => t.list_id == *id,
        Selection::NotInList(id) => t.list_id != *id,
        Selection::NotId(id) => t.id != *id,
        Selection::DueBy(end) => match t.due_at {
            Some(d) => d <= *end,
            None => false,
        },
        Selection::OpenDueBy(end) => !t.completed && match t.due_at {
            Some(d) => d <= *end,
            None => false,
        },
        Selection::OpenDueFrom(start) => !t.completed && match t.due_at {
            Some(d) => d >= *start,
            None => false,
        },
        Selection::Pingable => !t.completed && t.ping_interval.is_some(),
    }
}

pub proof fn lemma_keep_step(ts: Seq<Task>, i: int, p: spec_fn(Task) -> bool)
    requires
        0 <= i < ts.len(),
    ensures
        keep(ts.take(i + 1), p) == (if p(ts[i]) {
            keep(ts.take(i), p).push(ts[i])
        } else {
            keep(ts.take(i), p)
        }),
{
    assert(ts.take(i + 1).drop_last() =~= ts.take(i));
    assert(ts.take(i + 1).last() == ts[i]);
}

pub proof fn lemma_keep_lists_step(ls: Seq<List>, i: int, p: spec_fn(List) -> bool)
    requires
        0 <= i < ls.len(),
    ensures
        keep_lists(ls.take(i + 1), p) == (if p(ls[i]) {
            keep_lists(ls.take(i), p).push(ls[i])
        } else {
            keep_lists(ls.take(i), p)
        }),
{
    assert(ls.take(i + 1).drop_last() =~= ls.take(i));
    assert(ls.take(i + 1).last() == ls[i]);
}

/// Every kept task is a task of `ts` that satisfies `p`.
pub proof fn lemma_keep_sub(ts: Seq<Task>, p: spec_fn(Task) -> bool)
    ensures
        forall|k: int|
            0 <= k < keep(ts, p).len() ==> ts.contains(#[trigger] keep(ts, p)[k]) && p(
                keep(ts, p)[k],
            ),
        keep(ts, p).len() <= ts.len(),
    decreases ts.len(),
{
    if ts.len() > 0 {
        lemma_keep_sub(ts.drop_last(), p);
        assert forall|k: int| 0 <= k < keep(ts, p).len() implies ts.contains(
            #[trigger] keep(ts, p)[k],
        ) && p(keep(ts, p)[k]) by {
            if k < keep(ts.drop_last(), p).len() {
                let t = keep(ts.drop_last(), p)[k];
                assert(ts.drop_last().contains(t));
                let j = choose|j: int| 0 <= j < ts.drop_last().len() && ts.drop_last()[j] == t;
                assert(ts[j] == t);
            } else {
                assert(ts[ts.len() - 1] == ts.last());
            }
        }
    }
}

/// Every task of `ts` that satisfies `p` is kept.
pub proof fn lemma_keep_complete(ts: Seq<Task>, p: spec_fn(Task) -> bool, k: int)
    requires
        0 <= k < ts.len(),
        p(ts[k]),
    ensures
        keep(ts, p).contains(ts[k]),
    decreases ts.len(),
{
    if k == ts.len() - 1 {
        assert(keep(ts, p).last() == ts[k]);
    } else {
        lemma_keep_complete(ts.drop_last(), p, k);
        let j = choose|j: int| 0 <= j < keep(ts.drop_last(), p).len() && keep(ts.drop_last(), p)[j]
            == ts[k];
        if p(ts.last()) {
            assert(keep(ts, p)[j] == ts[k]);
        }
    }
}

/// Kept tasks keep their distinct ids.
pub proof fn lemma_keep_unique(ts: Seq<Task>, p: spec_fn(Task) -> bool)
    requires
        tasks_unique(ts),
    ensures
        tasks_unique(keep(ts, p)),
    decreases ts.len(),
{
    if ts.len() > 0 {
        lemma_keep_unique(ts.drop_last(), p);
        lemma_keep_sub(ts.drop_last(), p);
        if p(ts.last()) {
            let r = keep(ts.drop_last(), p);
            assert forall|a: int, b: int|
                0 <= a < b < r.push(ts.last()).len() implies (#[trigger] r.push(ts.last())[a]).id@
                != (#[trigger] r.push(ts.last())[b]).id@ by {
                if b == r.len() {
                    let t = r[a];
                    assert(ts.drop_last().contains(t));
                    let j = choose|j: int| 0 <= j < ts.drop_last().len() && ts.drop_last()[j] == t;
                    assert(ts[j] == t);
                    assert(ts[ts.len() - 1] == ts.last());
                }
            }
        }
    }
}

pub proof fn lemma_keep_lists_sub(ls: Seq<List>, p: spec_fn(List) -> bool)
    ensures
        forall|k: int|
            0 <= k < keep_lists(ls, p).len() ==> ls.contains(#[trigger] keep_lists(ls, p)[k]) && p(
                keep_lists(ls, p)[k],
            ),
    decreases ls.len(),
{
    if ls.len() > 0 {
        lemma_keep_lists_sub(ls.drop_last(), p);
        assert forall|k: int| 0 <= k < keep_lists(ls, p).len() implies ls.contains(
            #[trigger] keep_lists(ls, p)[k],
        ) && p(keep_lists(ls, p)[k]) by {
            if k < keep_lists(ls.drop_last(), p).len() {
                let t = keep_lists(ls.drop_last(), p)[k];
                assert(ls.drop_last().contains(t));
                let j = choose|j: int| 0 <= j < ls.drop_last().len() && ls.drop_last()[j] == t;
                assert(ls[j] == t);
            } else {
                assert(ls[ls.len() - 1] == ls.last());
            }
        }
    }
}

pub proof fn lemma_keep_lists_complete(ls: Seq<List>, p: spec_fn(List) -> bool, k: int)
    requires
        0 <= k < ls.len(),
        p(ls[k]),
    ensures
        keep_lists(ls, p).contains(ls[k]),
    decreases ls.len(),
{
    if k == ls.len() - 1 {
        assert(keep_lists(ls, p).last() == ls[k]);
    } else {
        lemma_keep_lists_complete(ls.drop_last(), p, k);
        let j = choose|j: int|
            0 <= j < keep_lists(ls.drop_last(), p).len() && keep_lists(ls.drop_last(), p)[j]
                == ls[k];
        if p(ls.last()) {
            assert(keep_lists(ls, p)[j] == ls[k]);
        }
    }
}

pub proof fn lemma_keep_lists_unique(ls: Seq<List>, p: spec_fn(List) -> bool)
    requires
        lists_unique(ls),
    ensures
        lists_unique(keep_lists(ls, p)),
    decreases ls.len(),
{
    if ls.len() > 0 {
        lemma_keep_lists_unique(ls.drop_last(), p);
        lemma_keep_lists_sub(ls.drop_last(), p);
        if p(ls.last()) {
            let r = keep_lists(ls.drop_last(), p);
            assert forall|a: int, b: int|
                0 <= a < b < r.push(ls.last()).len() implies (#[trigger] r.push(ls.last())[a]).id@
                != (#[trigger] r.push(ls.last())[b]).id@ by {
                if b == r.len() {
                    let t = r[a];
                    assert(ls.drop_last().contains(t));
                    let j = choose|j: int| 0 <= j < ls.drop_last().len() && ls.drop_last()[j] == t;
                    assert(ls[j] == t);
                    assert(ls[ls.len() - 1] == ls.last());
                }
            }
        }
    }
}

/// The tasks of `v` that the selection picks, in their order.
pub fn select(v: &Vec<Task>, sel: &Selection) -> (r: Vec<Task>)
    ensures
        r@ == keep(v@, selects(*sel)),
{
    let mut r: Vec<Task> = Vec::new();
    let mut i: usize = 0;
    while i < v.len()
        invariant
            i <= v.len(),
            r@ == keep(v@.take(i as int), selects(*sel)),
        decreases v.len() - i,
    {
        proof {
            lemma_keep_step(v@, i as int, selects(*sel));
        }
        if selects_exec(sel, &v[i]) {
            r.push(copy_task(&v[i]));
        }
        i += 1;
    }
    assert(v@.take(v@.len() as int) =~= v@);
    r
}

// ======================= edits =======================

/// A change applied to the tasks with a given id.
pub enum Edit {
    Toggle,
    Update {
        content: String,
        due_at: Option<i64>,
        ping_interval: Option<i64>,
        priority: Option<u8>,
        recurrence: Option<String>,
    },
    Note(Option<String>),
    LastPing(Option<i64>),
    SortOrder(i64),
}

pub open spec fn edited(e: Edit, t: Task) -> Task {
    match e {
        Edit::Toggle => Task { completed: !t.completed, ..t },
        Edit::Update { content, due_at, ping_interval, priority, recurrence } => Task {
            content,
            due_at,
            ping_interval,
            priority,
            recurrence,
            last_ping_at: None,
            ..t
        },
        Edit::Note(n) => Task { note: n, ..t },
        Edit::LastPing(p) => Task { last_ping_at: p, ..t },
        Edit::SortOrder(o) => Task { sort_order: o, ..t },
    }
}

/// `ts` with every task whose id is `id` edited.
pub open spec fn edit_where(ts: Seq<Task>, id: Seq<char>, e: Edit) -> Seq<Task> {
    Seq::new(ts.len(), |k: int| if ts[k].id@ == id { edited(e, ts[k]) } else { ts[k] })
}

fn apply_edit(e: &Edit, t: &Task) -> (r: Task)
    ensures
        r == edited(*e, *t),
{
    let mut r = copy_task(t);
    match e {
        Edit::Toggle => {
            r.completed = !t.completed;
        },
        Edit::Update { content, due_at, ping_interval, priority, recurrence } => {
            r.content = content.clone();
            r.due_at = *due_at;
            r.ping_interval = *ping_interval;
            r.priority = *priority;
            r.recurrence = copy_opt_string(recurrence);
            r.last_ping_at = None;
        },
        Edit::Note(n) => {
            r.note = copy_opt_string(n);
        },
        Edit::LastPing(p) => {
            r.last_ping_at = *p;
        },
        Edit::SortOrder(o) => {
            r.sort_order = *o;
        },
    }
    r
}

fn edit_tasks(v: &mut Vec<Task>, id: &String, e: &Edit)
    ensures
        final(v)@ == edit_where(old(v)@, id@, *e),
{
    let ghost start = v@;
    let mut i: usize = 0;
    while i < v.len()
        invariant
            i <= v.len(),
            v@.len() == start.len(),
            forall|k: int|
                0 <= k < i ==> #[trigger] v@[k] == (if start[k].id@ == id@ {
                    edited(*e, start[k])
                } else {
                    start[k]
                }),
            forall|k: int| i <= k < v@.len() ==> #[trigger] v@[k] == start[k],
        decreases v.len() - i,
    {
        if v[i].id == *id {
            let t = apply_edit(e, &v[i]);
            v.set(i, t);
        }
        i += 1;
    }
    assert(v@ =~= edit_where(start, id@, *e));
}

/// The text of an optional string.
pub open spec fn opt_view(o: Option<String>) -> Option<Seq<char>> {
    match o {
        Some(s) => Some(s@),
        None => None,
    }
}

/// `new` is `old` with the task `id` given the content, due time, ping
/// interval, priority and recurrence, and its last ping cleared.
pub open spec fn updated_with(
    old: Seq<Task>,
    new: Seq<Task>,
    id: Seq<char>,
    content: Seq<char>,
    due_at: Option<i64>,
    ping_interval: Option<i64>,
    priority: Option<u8>,
    recurrence: Option<Seq<char>>,
) -> bool {
    exists|c: String, rec: Option<String>|
        c@ == content && opt_view(rec) == recurrence && new == edit_where(
            old,
            id,
            Edit::Update { content: c, due_at, ping_interval, priority, recurrence: rec },
        )
}

/// `t` is the task that `create_task` adds to `store` with these values.
pub open spec fn created_task(
    store: Seq<Task>,
    t: Task,
    list_id: Seq<char>,
    content: Seq<char>,
    due_at: Option<i64>,
    ping_interval: Option<i64>,
    priority: Option<u8>,
    recurrence: Option<Seq<char>>,
) -> bool {
    &&& !task_exists(store, t.id@)
    &&& t.list_id@ == list_id
    &&& t.content@ == content
    &&& !t.completed
    &&& t.due_at == due_at
    &&& t.ping_interval == ping_interval
    &&& t.last_ping_at is None
    &&& t.priority == priority
    &&& opt_view(t.recurrence) == recurrence
    &&& t.sort_order == next_order(store, list_id)
    &&& t.note is None
}

/// The sort order that `swap_sort_order` reads for task `id`: its sort
/// order, or 0 when there is no such task.
pub open spec fn order_read(ts: Seq<Task>, id: Seq<char>, v: i64) -> bool {
    &&& task_exists(ts, id) ==> exists|k: int|
        0 <= k < ts.len() && (#[trigger] ts[k]).id@ == id && v == ts[k].sort_order
    &&& !task_exists(ts, id) ==> v == 0
}

/// `new` is `old` with the sort orders of tasks `id_a` and `id_b` exchanged.
pub open spec fn swapped_orders(old: Seq<Task>, new: Seq<Task>, id_a: Seq<char>, id_b: Seq<char>) -> bool {
    exists|a: i64, b: i64|
        #![trigger order_read(old, id_a, a), order_read(old, id_b, b)]
        order_read(old, id_a, a) && order_read(old, id_b, b) && new == edit_where(
            edit_where(old, id_a, Edit::SortOrder(b)),
            id_b,
            Edit::SortOrder(a),
        )
}

// ======================= the store =======================

pub open spec fn lists_unique(ls: Seq<List>) -> bool {
    forall|a: int, b: int| 0 <= a < b < ls.len() ==> (#[trigger] ls[a]).id@ != (#[trigger] ls[b]).id@
}

pub open spec fn tasks_unique(ts: Seq<Task>) -> bool {
    forall|a: int, b: int| 0 <= a < b < ts.len() ==> (#[trigger] ts[a]).id@ != (#[trigger] ts[b]).id@
}

pub open spec fn list_exists(ls: Seq<List>, id: Seq<char>) -> bool {
    exists|k: int| 0 <= k < ls.len() && (#[trigger] ls[k]).id@ == id
}

pub open spec fn task_exists(ts: Seq<Task>, id: Seq<char>) -> bool {
    exists|k: int| 0 <= k < ts.len() && (#[trigger] ts[k]).id@ == id
}

/// Case-insensitive equality of names, folding ASCII letters only (SQLite's
/// `NOCASE`).
pub open spec fn fold_ascii(c: char) -> char {
    if 65 <= (c as u32) && (c as u32) <= 90 {
        ((c as u32) + 32) as char
    } else {
        c
    }
}

pub open spec fn same_name_nocase(a: Seq<char>, b: Seq<char>) -> bool {
    a.len() == b.len() && forall|k: int| 0 <= k < a.len() ==> fold_ascii(#[trigger] a[k]) == fold_ascii(
        b[k],
    )
}

/// The first list whose name equals `name` up to ASCII case.
pub open spec fn first_named(ls: Seq<List>, name: Seq<char>, i: int) -> Option<int>
    decreases ls.len() - i,
{
    if i < 0 || i >= ls.len() {
        None
    } else if same_name_nocase(ls[i].name@, name) {
        Some(i)
    } else {
        first_named(ls, name, i + 1)
    }
}

/// `new` is `old` after looking up the list named `name` (up to ASCII
/// case) and creating it when missing; `id` is the list's id.
pub open spec fn found_or_created(old: Seq<List>, new: Seq<List>, name: Seq<char>, id: Seq<char>) -> bool {
    match first_named(old, name, 0) {
        Some(k) => id == old[k].id@ && new == old,
        None => {
            &&& !list_exists(old, id)
            &&& new.len() == old.len() + 1
            &&& new.drop_last() == old
            &&& new.last().id@ == id
            &&& new.last().name@ == name
        },
    }
}

/// A list found by `first_named` has a matching name.
pub proof fn lemma_first_named_matches(ls: Seq<List>, name: Seq<char>, i: int)
    ensures
        first_named(ls, name, i) matches Some(k) ==> i <= k < ls.len() && 0 <= k && same_name_nocase(
            ls[k].name@,
            name,
        ),
    decreases ls.len() - i,
{
    if 0 <= i < ls.len() && !same_name_nocase(ls[i].name@, name) {
        lemma_first_named_matches(ls, name, i + 1);
    }
}

/// Every name matches itself.
pub proof fn lemma_same_name_refl(a: Seq<char>)
    ensures
        same_name_nocase(a, a),
{
}

/// The task is open and in list `list_id`.
pub open spec fn open_in(list_id: Seq<char>) -> spec_fn(Task) -> bool {
    |t: Task| t.list_id@ == list_id && !t.completed
}

/// The sort order given to a new task: one less than the smallest sort order
/// among the open tasks of its list, or -1 when the list has none (and -1
/// too when that smallest value is `i64::MIN`, where SQLite's integer
/// arithmetic leaves the integers).
pub open spec fn next_order(ts: Seq<Task>, list_id: Seq<char>) -> i64 {
    let open_tasks = keep(ts, open_in(list_id));
    if open_tasks.len() == 0 {
        -1i64
    } else {
        let m = min_order(open_tasks);
        if m == i64::MIN {
            -1i64
        } else {
            (m - 1) as i64
        }
    }
}

/// The smallest sort order in a nonempty sequence of tasks.
pub open spec fn min_order(ts: Seq<Task>) -> i64
    decreases ts.len(),
{
    if ts.len() <= 1 {
        if ts.len() == 1 {
            ts[0].sort_order
        } else {
            0
        }
    } else {
        let m = min_order(ts.drop_last());
        if ts.last().sort_order < m {
            ts.last().sort_order
        } else {
            m
        }
    }
}

pub proof fn lemma_min_order(ts: Seq<Task>)
    requires
        ts.len() > 0,
    ensures
        forall|k: int| 0 <= k < ts.len() ==> min_order(ts) <= (#[trigger] ts[k]).sort_order,
        exists|k: int| 0 <= k < ts.len() && min_order(ts) == (#[trigger] ts[k]).sort_order,
    decreases ts.len(),
{
    if ts.len() == 1 {
        assert(min_order(ts) == ts[0].sort_order);
    } else {
        lemma_min_order(ts.drop_last());
        let k = choose|k: int|
            0 <= k < ts.drop_last().len() && min_order(ts.drop_last()) == (
            #[trigger] ts.drop_last()[k]).sort_order;
        assert(ts[k] == ts.drop_last()[k]);
        assert(ts[ts.len() - 1] == ts.last());
        if ts.last().sort_order < min_order(ts.drop_last()) {
            assert(min_order(ts) == ts[ts.len() - 1].sort_order);
        } else {
            assert(min_order(ts) == ts[k].sort_order);
        }
        assert forall|j: int| 0 <= j < ts.len() implies min_order(ts) <= (#[trigger] ts[j]).sort_order by {
            if j < ts.len() - 1 {
                assert(ts[j] == ts.drop_last()[j]);
            }
        }
    }
}

/// Lists and tasks.
pub struct Database {
    pub lists: Vec<List>,
    pub tasks: Vec<Task>,
}

impl Database {
    /// List ids and task ids are distinct, and every task's list exists.
    pub open spec fn wf(&self) -> bool {
        &&& lists_unique(self.lists@)
        &&& tasks_unique(self.tasks@)
        &&& forall|k: int|
            0 <= k < self.tasks@.len() ==> list_exists(self.lists@, (#[trigger] self.tasks@[k]).list_id@)
    }

    /// An empty store with the default `Inbox` list.
    pub fn in_memory() -> (r: Database)
        ensures
            r.wf(),
            r.tasks@.len() == 0,
            r.lists@.len() == 1,
            r.lists@[0].name@ == seq!['I', 'n', 'b', 'o', 'x'],
    {
        let mut db = Database { lists: Vec::new(), tasks: Vec::new() };
        db.ensure_default_list();
        db
    }

    /// A store of loaded rows. A list or task whose id occurred before and a
    /// task whose list is missing are left out; a store without lists gets
    /// the default `Inbox` list.
    pub fn from_rows(lists: Vec<List>, tasks: Vec<Task>) -> (r: Database)
        ensures
            r.wf(),
            forall|k: int| 0 <= k < r.lists@.len() ==> lists@.contains(#[trigger] r.lists@[k]) || (
            lists@.len() == 0 && r.lists@[k].name@ == seq!['I', 'n', 'b', 'o', 'x']),
            forall|k: int| 0 <= k < r.tasks@.len() ==> tasks@.contains(#[trigger] r.tasks@[k]),
            lists_unique(lists@) && tasks_unique(tasks@) && (forall|k: int|
                0 <= k < tasks@.len() ==> list_exists(lists@, (#[trigger] tasks@[k]).list_id@))
                && lists@.len() > 0 ==> r.lists@ == lists@ && r.tasks@ == tasks@,
    {
        let mut out_lists: Vec<List> = Vec::new();
        let mut i: usize = 0;
        while i < lists.len()
            invariant
                i <= lists.len(),
                lists_unique(out_lists@),
                forall|k: int| 0 <= k < out_lists@.len() ==> lists@.contains(#[trigger] out_lists@[k]),
                lists_unique(lists@) ==> out_lists@ == lists@.take(i as int),
                i > 0 ==> out_lists@.len() > 0,
            decreases lists.len() - i,
        {
            let l = &lists[i];
            if !Self::has_list_in(&out_lists, &l.id) {
                proof {
                    assert(lists@.contains(lists@[i as int]));
                }
                out_lists.push(copy_list(l));
            } else {
                proof {
                    if lists_unique(lists@) {
                        let k = choose|k: int|
                            0 <= k < out_lists@.len() && (#[trigger] out_lists@[k]).id@
                                == l.id@;
                        assert(out_lists@[k] == lists@[k]);
                    }
                }
            }
            proof {
                if lists_unique(lists@) {
                    assert(lists@.take(i + 1) == lists@.take(i as int).push(lists@[i as int]));
                }
            }
            i += 1;
        }
        let mut out_tasks: Vec<Task> = Vec::new();
        let mut j: usize = 0;
        while j < tasks.len()
            invariant
                j <= tasks.len(),
                tasks_unique(out_tasks@),
                forall|k: int| 0 <= k < out_tasks@.len() ==> tasks@.contains(#[trigger] out_tasks@[k]),
                forall|k: int|
                    0 <= k < out_tasks@.len() ==> list_exists(
                        out_lists@,
                        (#[trigger] out_tasks@[k]).list_id@,
                    ),
                lists_unique(out_lists@),
                (tasks_unique(tasks@) && forall|k: int|
                    0 <= k < tasks@.len() ==> list_exists(out_lists@, (#[trigger] tasks@[k]).list_id@))
                    ==> out_tasks@ == tasks@.take(j as int),
            decreases tasks.len() - j,
        {
            let t = &tasks[j];
            if !Self::has_task_in(&out_tasks, &t.id) && Self::has_list_in(&out_lists, &t.list_id) {
                proof {
                    assert(tasks@.contains(tasks@[j as int]));
                }
                out_tasks.push(copy_task(t));
            } else {
                proof {
                    if tasks_unique(tasks@) && forall|k: int|
                        0 <= k < tasks@.len() ==> list_exists(
                            out_lists@,
                            (#[trigger] tasks@[k]).list_id@,
                        ) {
                        assert(list_exists(out_lists@, tasks@[j as int].list_id@));
                        if Self::has_task_in_spec(out_tasks@, t.id@) {
                            let k = choose|k: int|
                                0 <= k < out_tasks@.len() && (#[trigger] out_tasks@[k]).id@
                                    == t.id@;
                            assert(out_tasks@[k] == tasks@[k]);
                        }
                    }
                }
            }
            proof {
                if tasks_unique(tasks@) {
                    assert(tasks@.take(j + 1) == tasks@.take(j as int).push(tasks@[j as int]));
                }
            }
            j += 1;
        }
        proof {
            assert(lists@.take(lists@.len() as int) == lists@);
            assert(tasks@.take(tasks@.len() as int) == tasks@);
            if lists_unique(lists@) && tasks_unique(tasks@) && (forall|k: int|
                0 <= k < tasks@.len() ==> list_exists(lists@, (#[trigger] tasks@[k]).list_id@)) {
                assert(out_lists@ == lists@);
            }
        }
        let mut db = Database { lists: out_lists, tasks: out_tasks };
        db.ensure_default_list();
        db
    }

    pub open spec fn has_task_in_spec(ts: Seq<Task>, id: Seq<char>) -> bool {
        task_exists(ts, id)
    }

    fn has_list_in(ls: &Vec<List>, id: &String) -> (r: bool)
        ensures
            r == list_exists(ls@, id@),
    {
        let mut i: usize = 0;
        while i < ls.len()
            invariant
                i <= ls.len(),
                forall|k: int| 0 <= k < i ==> (#[trigger] ls@[k]).id@ != id@,
            decreases ls.len() - i,
        {
            if ls[i].id == *id {
                return true;
            }
            i += 1;
        }
        false
    }

    fn has_task_in(ts: &Vec<Task>, id: &String) -> (r: bool)
        ensures
            r == task_exists(ts@, id@),
    {
        let mut i: usize = 0;
        while i < ts.len()
            invariant
                i <= ts.len(),
                forall|k: int| 0 <= k < i ==> (#[trigger] ts@[k]).id@ != id@,
            decreases ts.len() - i,
        {
            if ts[i].id == *id {
                return true;
            }
            i += 1;
        }
        false
    }

    /// Adds the `Inbox` list when there is no list.
    fn ensure_default_list(&mut self)
        requires
            lists_unique(old(self).lists@),
            tasks_unique(old(self).tasks@),
            forall|k: int|
                0 <= k < old(self).tasks@.len() ==> list_exists(
                    old(self).lists@,
                    (#[trigger] old(self).tasks@[k]).list_id@,
                ),
        ensures
            final(self).wf(),
            final(self).tasks@ == old(self).tasks@,
            old(self).lists@.len() > 0 ==> final(self).lists@ == old(self).lists@,
            old(self).lists@.len() == 0 ==> final(self).lists@.len() == 1 && final(self).lists@[0].name@
                == seq!['I', 'n', 'b', 'o', 'x'],
    {
        if self.lists.len() == 0 {
            let id = new_uuid();
            let name = string_of(&vec!['I', 'n', 'b', 'o', 'x']);
            self.lists.push(List { id, name });
            assert(self.tasks@.len() == 0 || list_exists(self.lists@, self.tasks@[0].list_id@));
        }
    }

    /// An identifier that no list has.
    fn fresh_list_id(&self) -> (r: String)
        ensures
            !list_exists(self.lists@, r@),
    {
        let id = new_uuid();
        if !Self::has_list_in(&self.lists, &id) {
            return id;
        }
        let mut longest: Vec<char> = Vec::new();
        let mut i: usize = 0;
        while i < self.lists.len()
            invariant
                i <= self.lists.len(),
                forall|k: int| 0 <= k < i ==> (#[trigger] self.lists@[k]).id@.len() <= longest@.len(),
            decreases self.lists.len() - i,
        {
            let v = chars_of(self.lists[i].id.as_str());
            if v.len() > longest.len() {
                longest = v;
            }
            i += 1;
        }
        longest.push('-');
        string_of(&longest)
    }

    /// An identifier that no task has.
    fn fresh_task_id(&self) -> (r: String)
        ensures
            !task_exists(self.tasks@, r@),
    {
        let id = new_uuid();
        if !Self::has_task_in(&self.tasks, &id) {
            return id;
        }
        let mut longest: Vec<char> = Vec::new();
        let mut i: usize = 0;
        while i < self.tasks.len()
            invariant
                i <= self.tasks.len(),
                forall|k: int| 0 <= k < i ==> (#[trigger] self.tasks@[k]).id@.len() <= longest@.len(),
            decreases self.tasks.len() - i,
        {
            let v = chars_of(self.tasks[i].id.as_str());
            if v.len() > longest.len() {
                longest = v;
            }
            i += 1;
        }
        longest.push('-');
        string_of(&longest)
    }

    // === Lists ===

    /// All lists, in the order they were created.
    pub fn get_all_lists(&self) -> (r: Vec<List>)
        ensures
            r@ == self.lists@,
    {
        let mut r: Vec<List> = Vec::new();
        let mut i: usize = 0;
        while i < self.lists.len()
            invariant
                i <= self.lists.len(),
                r@ == self.lists@.take(i as int),
            decreases self.lists.len() - i,
        {
            r.push(copy_list(&self.lists[i]));
            assert(self.lists@.take(i + 1) == self.lists@.take(i as int).push(self.lists@[i as int]));
            i += 1;
        }
        assert(self.lists@.take(self.lists@.len() as int) == self.lists@);
        r
    }

    /// Adds a list named `name` under a fresh id and returns it.
    pub fn create_list(&mut self, name: &str) -> (r: List)
        requires
            old(self).wf(),
        ensures
            final(self).wf(),
            r.name@ == name@,
            !list_exists(old(self).lists@, r.id@),
            final(self).lists@ == old(self).lists@.push(r),
            final(self).tasks@ == old(self).tasks@,
    {
        let id = self.fresh_list_id();
        let l = List { id: id.clone(), name: name.to_owned() };
        self.lists.push(copy_list(&l));
        proof {
            assert forall|k: int| 0 <= k < self.tasks@.len() implies list_exists(
                self.lists@,
                (#[trigger] self.tasks@[k]).list_id@,
            ) by {
                let j = choose|j: int|
                    0 <= j < old(self).lists@.len() && (#[trigger] old(self).lists@[j]).id@
                        == self.tasks@[k].list_id@;
                assert(self.lists@[j] == old(self).lists@[j]);
            }
        }
        l
    }

    pub(crate) fn first_named_exec(&self, name: &str) -> (r: Option<usize>)
        ensures
            match r {
                Some(i) => first_named(self.lists@, name@, 0) == Some(i as int) && i < self.lists@.len(),
                None => first_named(self.lists@, name@, 0) is None,
            },
    {
        let nv = chars_of(name);
        let mut i: usize = 0;
        while i < self.lists.len()
            invariant
                i <= self.lists.len(),
                nv@ == name@,
                first_named(self.lists@, name@, 0) == first_named(self.lists@, name@, i as int),
            decreases self.lists.len() - i,
        {
            let lv = chars_of(self.lists[i].name.as_str());
            if same_name_nocase_exec(&lv, &nv) {
                return Some(i);
            }
            i += 1;
        }
        None
    }

    /// The id of the first list named `name` up to ASCII case, creating the
    /// list when there is none.
    pub fn find_or_create_list(&mut self, name: &str) -> (r: String)
        requires
            old(self).wf(),
        ensures
            final(self).wf(),
            final(self).tasks@ == old(self).tasks@,
            found_or_created(old(self).lists@, final(self).lists@, name@, r@),
            list_exists(final(self).lists@, r@),
    {
        match self.first_named_exec(name) {
            Some(i) => {
                assert(list_exists(self.lists@, self.lists@[i as int].id@));
                self.lists[i].id.clone()
            },
            None => {
                let l = self.create_list(name);
                assert(self.lists@.last() == l);
                assert(list_exists(self.lists@, l.id@)) by {
                    assert(self.lists@[self.lists@.len() - 1] == l);
                }
                assert(self.lists@.drop_last() =~= old(self).lists@);
                l.id
            },
        }
    }

    /// Renames the list with id `id`.
    pub fn rename_list(&mut self, id: &str, name: &str)
        requires
            old(self).wf(),
        ensures
            final(self).wf(),
            final(self).tasks@ == old(self).tasks@,
            final(self).lists@.len() == old(self).lists@.len(),
            forall|k: int|
                0 <= k < final(self).lists@.len() ==> #[trigger] final(self).lists@[k] == (if old(self).lists@[k].id@ == id@ {
                    List { id: old(self).lists@[k].id, name: final(self).lists@[k].name }
                } else {
                    old(self).lists@[k]
                }),
            forall|k: int|
                0 <= k < final(self).lists@.len() && old(self).lists@[k].id@ == id@ ==> (#[trigger] final(self).lists@[k]).name@ == name@,
    {
        let ghost start = self.lists@;
        let idv = id.to_owned();
        let mut i: usize = 0;
        while i < self.lists.len()
            invariant
                i <= self.lists.len(),
                self.lists@.len() == start.len(),
                forall|k: int|
                    0 <= k < i ==> #[trigger] self.lists@[k] == (if start[k].id@ == id@ {
                        List { id: start[k].id, name: self.lists@[k].name }
                    } else {
                        start[k]
                    }),
                forall|k: int|
                    0 <= k < i && start[k].id@ == id@ ==> (#[trigger] self.lists@[k]).name@ == name@,
                forall|k: int| i <= k < self.lists@.len() ==> #[trigger] self.lists@[k] == start[k],
                idv@ == id@,
                self.tasks@ == old(self).tasks@,
                start == old(self).lists@,
            decreases self.lists.len() - i,
        {
            if self.lists[i].id == idv {
                let l = List { id: self.lists[i].id.clone(), name: name.to_owned() };
                self.lists.set(i, l);
            }
            i += 1;
        }
        proof {
            assert forall|k: int| 0 <= k < self.tasks@.len() implies list_exists(
                self.lists@,
                (#[trigger] self.tasks@[k]).list_id@,
            ) by {
                let j = choose|j: int|
                    0 <= j < start.len() && (#[trigger] start[j]).id@ == self.tasks@[k].list_id@;
                assert(self.lists@[j].id@ == start[j].id@);
            }
        }
    }

    /// Deletes the list with id `id` and every task in it.
    pub fn delete_list(&mut self, id: &str)
        requires
            old(self).wf(),
        ensures
            final(self).wf(),
            final(self).lists@ == keep_lists(old(self).lists@, |l: List| l.id@ != id@),
            final(self).tasks@ == keep(old(self).tasks@, |t: Task| t.list_id@ != id@),
    {
        let idv = id.to_owned();
        let sel = Selection::NotInList(idv);
        let kept = select(&self.tasks, &sel);
        assert(selects(sel) == (|t: Task| t.list_id@ != id@));
        let ghost old_lists = self.lists@;
        let mut ls: Vec<List> = Vec::new();
        let mut i: usize = 0;
        let idv2 = id.to_owned();
        while i < self.lists.len()
            invariant
                i <= self.lists.len(),
                self.lists@ == old_lists,
                idv2@ == id@,
                ls@ == keep_lists(old_lists.take(i as int), |l: List| l.id@ != id@),
            decreases self.lists.len() - i,
        {
            proof {
                lemma_keep_lists_step(old_lists, i as int, |l: List| l.id@ != id@);
            }
            if self.lists[i].id != idv2 {
                ls.push(copy_list(&self.lists[i]));
            }
            i += 1;
        }
        assert(old_lists.take(old_lists.len() as int) =~= old_lists);
        let ghost old_tasks = self.tasks@;
        self.lists = ls;
        self.tasks = kept;
        proof {
            let pl = |l: List| l.id@ != id@;
            let pt = |t: Task| t.list_id@ != id@;
            lemma_keep_lists_unique(old_lists, pl);
            lemma_keep_unique(old_tasks, pt);
            lemma_keep_sub(old_tasks, pt);
            assert forall|k: int| 0 <= k < self.tasks@.len() implies list_exists(
                self.lists@,
                (#[trigger] self.tasks@[k]).list_id@,
            ) by {
                let t = self.tasks@[k];
                assert(old_tasks.contains(t));
                let j = choose|j: int| 0 <= j < old_tasks.len() && old_tasks[j] == t;
                assert(list_exists(old_lists, old_tasks[j].list_id@));
                let m = choose|m: int|
                    0 <= m < old_lists.len() && (#[trigger] old_lists[m]).id@ == t.list_id@;
                lemma_keep_lists_complete(old_lists, pl, m);
                let n = choose|n: int|
                    0 <= n < keep_lists(old_lists, pl).len() && keep_lists(old_lists, pl)[n]
                        == old_lists[m];
                assert(self.lists@[n].id@ == t.list_id@);
            }
        }
    }

    // === Tasks ===

    /// The sort order a new task of list `list_id` gets.
    fn next_sort_order(&self, list_id: &str) -> (r: i64)
        ensures
            r == next_order(self.tasks@, list_id@),
    {
        let ghost p = open_in(list_id@);
        let lid = list_id.to_owned();
        let mut found = false;
        let mut m: i64 = 0;
        let mut i: usize = 0;
        while i < self.tasks.len()
            invariant
                i <= self.tasks.len(),
                lid@ == list_id@,
                p == open_in(list_id@),
                found == (keep(self.tasks@.take(i as int), p).len() > 0),
                found ==> m == min_order(keep(self.tasks@.take(i as int), p)),
            decreases self.tasks.len() - i,
        {
            proof {
                lemma_keep_step(self.tasks@, i as int, p);
            }
            let t = &self.tasks[i];
            assert(*t == self.tasks@[i as int]);
            let ghost prev = keep(self.tasks@.take(i as int), p);
            if t.list_id == lid && !t.completed {
                assert(p(*t));
                if !found || t.sort_order < m {
                    m = t.sort_order;
                }
                found = true;
                proof {
                    let cur = keep(self.tasks@.take(i + 1), p);
                    assert(cur == prev.push(*t));
                    assert(cur.drop_last() =~= prev);
                    assert(cur.last() == *t);
                    if prev.len() == 0 {
                        assert(cur.len() == 1);
                        assert(cur[0] == *t);
                    }
                }
            } else {
                assert(!p(*t));
            }
            i += 1;
        }
        assert(self.tasks@.take(self.tasks@.len() as int) =~= self.tasks@);
        if !found {
            -1
        } else if m == i64::MIN {
            -1
        } else {
            m - 1
        }
    }

    /// All tasks, by list id, then open before done, then priority, then
    /// sort order.
    pub fn get_all_tasks(&self) -> (r: Vec<Task>)
        ensures
            sorted_by(1, r@),
            r@.to_multiset() == self.tasks@.to_multiset(),
    {
        let mut all: Vec<Task> = Vec::new();
        let mut i: usize = 0;
        while i < self.tasks.len()
            invariant
                i <= self.tasks.len(),
                all@ == self.tasks@.take(i as int),
            decreases self.tasks.len() - i,
        {
            all.push(copy_task(&self.tasks[i]));
            assert(self.tasks@.take(i + 1) == self.tasks@.take(i as int).push(self.tasks@[i as int]));
            i += 1;
        }
        assert(self.tasks@.take(self.tasks@.len() as int) == self.tasks@);
        sort_tasks(1, all)
    }

    /// The tasks of a list: open before done, then by priority (none last),
    /// then by sort order.
    pub fn get_tasks_by_list(&self, list_id: &str) -> (r: Vec<Task>)
        ensures
            sorted_by(0, r@),
            r@.to_multiset() == keep(self.tasks@, |t: Task| t.list_id@ == list_id@).to_multiset(),
    {
        let sel = Selection::InList(list_id.to_owned());
        let v = select(&self.tasks, &sel);
        assert(selects(sel) == (|t: Task| t.list_id@ == list_id@));
        sort_tasks(0, v)
    }

    /// The tasks due at or before `end_of_today_ms`: open before done, then by
    /// priority, then by due time.
    pub fn get_today_tasks(&self, end_of_today_ms: i64) -> (r: Vec<Task>)
        ensures
            sorted_by(2, r@),
            r@.to_multiset() == keep(
                self.tasks@,
                |t: Task| due_by(t, end_of_today_ms),
            ).to_multiset(),
    {
        let sel = Selection::DueBy(end_of_today_ms);
        let v = select(&self.tasks, &sel);
        assert(selects(sel) == (|t: Task| due_by(t, end_of_today_ms)));
        sort_tasks(2, v)
    }

    /// The numbers of open tasks and of all tasks in list `list_id`.
    pub fn list_task_counts(&self, list_id: &str) -> (r: (usize, usize))
        ensures
            r.0 == keep(self.tasks@, |t: Task| t.list_id@ == list_id@ && !t.completed).len(),
            r.1 == keep(self.tasks@, |t: Task| t.list_id@ == list_id@).len(),
    {
        let ghost po = |t: Task| t.list_id@ == list_id@ && !t.completed;
        let ghost pa = |t: Task| t.list_id@ == list_id@;
        let lid = list_id.to_owned();
        let mut open: usize = 0;
        let mut all: usize = 0;
        let mut i: usize = 0;
        while i < self.tasks.len()
            invariant
                i <= self.tasks.len(),
                lid@ == list_id@,
                po == (|t: Task| t.list_id@ == list_id@ && !t.completed),
                pa == (|t: Task| t.list_id@ == list_id@),
                open == keep(self.tasks@.take(i as int), po).len(),
                all == keep(self.tasks@.take(i as int), pa).len(),
                open <= i,
                all <= i,
            decreases self.tasks.len() - i,
        {
            proof {
                lemma_keep_step(self.tasks@, i as int, po);
                lemma_keep_step(self.tasks@, i as int, pa);
            }
            if self.tasks[i].list_id == lid {
                all += 1;
                if !self.tasks[i].completed {
                    open += 1;
                }
            }
            i += 1;
        }
        assert(self.tasks@.take(self.tasks@.len() as int) =~= self.tasks@);
        (open, all)
    }

    /// How many open tasks are due at or before `end_ms`.
    pub fn count_due_before(&self, end_ms: i64) -> (r: usize)
        ensures
            r == keep(self.tasks@, |t: Task| !t.completed && due_by(t, end_ms)).len(),
    {
        let sel = Selection::OpenDueBy(end_ms);
        let v = select(&self.tasks, &sel);
        assert(selects(sel) == (|t: Task| !t.completed && due_by(t, end_ms)));
        v.len()
    }

    /// The content and due time of an open task due at or after `now_ms`
    /// with the earliest due time.
    pub fn next_upcoming_task(&self, now_ms: i64) -> (r: Option<(String, i64)>)
        ensures
            ({
                let c = keep(
                    self.tasks@,
                    |t: Task| !t.completed && due_from(t, now_ms),
                );
                &&& (r is None <==> c.len() == 0)
                &&& (r matches Some(x) ==> exists|k: int|
                    0 <= k < c.len() && (#[trigger] c[k]).content@ == x.0@ && c[k].due_at == Some(x.1)
                        && forall|j: int|
                        0 <= j < c.len() ==> due_from(#[trigger] c[j], x.1))
            }),
    {
        let sel = Selection::OpenDueFrom(now_ms);
        let c = select(&self.tasks, &sel);
        let ghost p = |t: Task| !t.completed && due_from(t, now_ms);
        assert(selects(sel) == p);
        proof {
            lemma_keep_sub(self.tasks@, p);
        }
        if c.len() == 0 {
            return None;
        }
        let mut best: usize = 0;
        let mut i: usize = 1;
        proof {
            assert(p(c@[0]));
        }
        while i < c.len()
            invariant
                p == (|t: Task| !t.completed && due_from(t, now_ms)),
                c@ == keep(self.tasks@, p),
                1 <= i <= c.len(),
                best < c.len(),
                forall|k: int| 0 <= k < c@.len() ==> p(#[trigger] c@[k]),
                c@[best as int].due_at is Some,
                forall|j: int| 0 <= j < i ==> due_from(#[trigger] c@[j], c@[best as int].due_at->0),
            decreases c.len() - i,
        {
            assert(p(c@[i as int]));
            let di = match c[i].due_at {
                Some(d) => d,
                None => 0,
            };
            let db = match c[best].due_at {
                Some(d) => d,
                None => 0,
            };
            let ghost old_best = best;
            if di < db {
                best = i;
                proof {
                    assert forall|j: int| 0 <= j < i + 1 implies due_from(
                        #[trigger] c@[j],
                        c@[best as int].due_at->0,
                    ) by {
                        if j < i {
                            assert(due_from(c@[j], c@[old_best as int].due_at->0));
                        } else {
                            assert(p(c@[j]));
                        }
                    }
                }
            } else {
                proof {
                    assert(due_from(c@[i as int], c@[best as int].due_at->0));
                }
            }
            i += 1;
        }
        let due = match c[best].due_at {
            Some(d) => d,
            None => 0,
        };
        assert(p(c@[best as int]));
        Some((c[best].content.clone(), due))
    }

    /// Adds an open task to list `list_id` under a fresh id, placed before the
    /// list's other open tasks of its priority, and returns it.
    pub fn create_task(
        &mut self,
        list_id: &str,
        content: &str,
        due_at: Option<i64>,
        ping_interval: Option<i64>,
        priority: Option<u8>,
        recurrence: Option<&str>,
    ) -> (r: Task)
        requires
            old(self).wf(),
            list_exists(old(self).lists@, list_id@),
        ensures
            final(self).wf(),
            final(self).lists@ == old(self).lists@,
            final(self).tasks@ == old(self).tasks@.push(r),
            created_task(
                old(self).tasks@,
                r,
                list_id@,
                content@,
                due_at,
                ping_interval,
                priority,
                match recurrence {
                    Some(s) => Some(s@),
                    None => None,
                },
            ),
    {
        let id = self.fresh_task_id();
        let sort_order = self.next_sort_order(list_id);
        let t = Task {
            id,
            list_id: list_id.to_owned(),
            content: content.to_owned(),
            completed: false,
            due_at,
            ping_interval,
            last_ping_at: None,
            priority,
            recurrence: opt_str_to_string(recurrence),
            sort_order,
            note: None,
        };
        self.tasks.push(copy_task(&t));
        proof {
            assert forall|a: int, b: int|
                0 <= a < b < self.tasks@.len() implies (#[trigger] self.tasks@[a]).id@ != (
            #[trigger] self.tasks@[b]).id@ by {
                if b == self.tasks@.len() - 1 {
                    assert(self.tasks@[a] == old(self).tasks@[a]);
                }
            }
            assert forall|k: int| 0 <= k < self.tasks@.len() implies list_exists(
                self.lists@,
                (#[trigger] self.tasks@[k]).list_id@,
            ) by {
                if k < self.tasks@.len() - 1 {
                    assert(self.tasks@[k] == old(self).tasks@[k]);
                }
            }
        }
        t
    }

    fn edit(&mut self, id: &str, e: Edit)
        requires
            old(self).wf(),
        ensures
            final(self).wf(),
            final(self).lists@ == old(self).lists@,
            final(self).tasks@ == edit_where(old(self).tasks@, id@, e),
    {
        let idv = id.to_owned();
        edit_tasks(&mut self.tasks, &idv, &e);
        proof {
            assert forall|a: int, b: int|
                0 <= a < b < self.tasks@.len() implies (#[trigger] self.tasks@[a]).id@ != (
            #[trigger] self.tasks@[b]).id@ by {
                assert(self.tasks@[a].id == old(self).tasks@[a].id);
                assert(self.tasks@[b].id == old(self).tasks@[b].id);
            }
            assert forall|k: int| 0 <= k < self.tasks@.len() implies list_exists(
                self.lists@,
                (#[trigger] self.tasks@[k]).list_id@,
            ) by {
                assert(self.tasks@[k].list_id == old(self).tasks@[k].list_id);
            }
        }
    }

    /// Replaces the content, due time, ping interval, priority and
    /// recurrence of task `id`, and clears its last ping.
    pub fn update_task(
        &mut self,
        id: &str,
        content: &str,
        due_at: Option<i64>,
        ping_interval: Option<i64>,
        priority: Option<u8>,
        recurrence: Option<&str>,
    )
        requires
            old(self).wf(),
        ensures
            final(self).wf(),
            final(self).lists@ == old(self).lists@,
            updated_with(
                old(self).tasks@,
                final(self).tasks@,
                id@,
                content@,
                due_at,
                ping_interval,
                priority,
                match recurrence {
                    Some(s) => Some(s@),
                    None => None,
                },
            ),
    {
        let c = content.to_owned();
        let rec = opt_str_to_string(recurrence);
        let e = Edit::Update { content: c, due_at, ping_interval, priority, recurrence: rec };
        self.edit(id, e);
    }

    /// Sets or clears the note of task `id`.
    pub fn update_task_note(&mut self, id: &str, note: Option<&str>)
        requires
            old(self).wf(),
        ensures
            final(self).wf(),
            final(self).lists@ == old(self).lists@,
            exists|n: Option<String>|
                (match note {
                    Some(s) => n matches Some(x) && x@ == s@,
                    None => n is None,
                }) && final(self).tasks@ == edit_where(old(self).tasks@, id@, Edit::Note(n)),
    {
        let n = opt_str_to_string(note);
        self.edit(id, Edit::Note(n));
    }

    /// Flips whether task `id` is done.
    pub fn toggle_task(&mut self, id: &str)
        requires
            old(self).wf(),
        ensures
            final(self).wf(),
            final(self).lists@ == old(self).lists@,
            final(self).tasks@ == edit_where(old(self).tasks@, id@, Edit::Toggle),
    {
        self.edit(id, Edit::Toggle);
    }

    /// Deletes task `id`.
    pub fn delete_task(&mut self, id: &str)
        requires
            old(self).wf(),
        ensures
            final(self).wf(),
            final(self).lists@ == old(self).lists@,
            final(self).tasks@ == keep(old(self).tasks@, |t: Task| t.id@ != id@),
    {
        let sel = Selection::NotId(id.to_owned());
        let kept = select(&self.tasks, &sel);
        assert(selects(sel) == (|t: Task| t.id@ != id@));
        let ghost old_tasks = self.tasks@;
        self.tasks = kept;
        proof {
            let pt = |t: Task| t.id@ != id@;
            lemma_keep_unique(old_tasks, pt);
            lemma_keep_sub(old_tasks, pt);
            assert forall|k: int| 0 <= k < self.tasks@.len() implies list_exists(
                self.lists@,
                (#[trigger] self.tasks@[k]).list_id@,
            ) by {
                let t = self.tasks@[k];
                assert(old_tasks.contains(t));
                let j = choose|j: int| 0 <= j < old_tasks.len() && old_tasks[j] == t;
                assert(list_exists(self.lists@, old_tasks[j].list_id@));
            }
        }
    }

    fn sort_order_of(&self, id: &str) -> (r: i64)
        ensures
            task_exists(self.tasks@, id@) ==> exists|k: int|
                0 <= k < self.tasks@.len() && (#[trigger] self.tasks@[k]).id@ == id@ && r
                    == self.tasks@[k].sort_order,
            !task_exists(self.tasks@, id@) ==> r == 0,
    {
        let idv = id.to_owned();
        let mut i: usize = 0;
        while i < self.tasks.len()
            invariant
                i <= self.tasks.len(),
                idv@ == id@,
                forall|k: int| 0 <= k < i ==> (#[trigger] self.tasks@[k]).id@ != id@,
            decreases self.tasks.len() - i,
        {
            if self.tasks[i].id == idv {
                return self.tasks[i].sort_order;
            }
            i += 1;
        }
        0
    }

    /// Exchanges the sort orders of tasks `id_a` and `id_b` (a missing task
    /// counts as sort order 0).
    pub fn swap_sort_order(&mut self, id_a: &str, id_b: &str)
        requires
            old(self).wf(),
        ensures
            final(self).wf(),
            final(self).lists@ == old(self).lists@,
            swapped_orders(old(self).tasks@, final(self).tasks@, id_a@, id_b@),
    {
        let a = self.sort_order_of(id_a);
        let b = self.sort_order_of(id_b);
        assert(order_read(self.tasks@, id_a@, a));
        assert(order_read(self.tasks@, id_b@, b));
        self.edit(id_a, Edit::SortOrder(b));
        self.edit(id_b, Edit::SortOrder(a));
    }

    /// Restarts the ping countdown of task `id` from now.
    pub fn snooze_task(&mut self, id: &str)
        requires
            old(self).wf(),
        ensures
            final(self).wf(),
            final(self).lists@ == old(self).lists@,
            exists|now: i64|
                #[trigger] in_calendar(now as int) && final(self).tasks@ == edit_where(
                    old(self).tasks@,
                    id@,
                    Edit::LastPing(Some(now)),
                ),
    {
        let now = now_millis();
        self.edit(id, Edit::LastPing(Some(now)));
    }

    /// The open tasks that have a ping interval.
    pub fn get_pingable_tasks(&self) -> (r: Vec<Task>)
        ensures
            r@ == keep(self.tasks@, |t: Task| !t.completed && t.ping_interval is Some),
    {
        let sel = Selection::Pingable;
        let r = select(&self.tasks, &sel);
        assert(selects(sel) == (|t: Task| !t.completed && t.ping_interval is Some));
        r
    }

    /// Records that task `id` pinged at `timestamp`.
    pub fn update_last_ping_at(&mut self, id: &str, timestamp: i64)
        requires
            old(self).wf(),
        ensures
            final(self).wf(),
            final(self).lists@ == old(self).lists@,
            final(self).tasks@ == edit_where(old(self).tasks@, id@, Edit::LastPing(Some(timestamp))),
    {
        self.edit(id, Edit::LastPing(Some(timestamp)));
    }

    /// The list of task `task_id`.
    pub fn get_task_list_id(&self, task_id: &str) -> (r: Option<String>)
        ensures
            r is None <==> !task_exists(self.tasks@, task_id@),
            r matches Some(l) ==> exists|k: int|
                0 <= k < self.tasks@.len() && (#[trigger] self.tasks@[k]).id@ == task_id@ && l@
                    == self.tasks@[k].list_id@,
    {
        let idv = task_id.to_owned();
        let mut i: usize = 0;
        while i < self.tasks.len()
            invariant
                i <= self.tasks.len(),
                idv@ == task_id@,
                forall|k: int| 0 <= k < i ==> (#[trigger] self.tasks@[k]).id@ != task_id@,
            decreases self.tasks.len() - i,
        {
            if self.tasks[i].id == idv {
                return Some(self.tasks[i].list_id.clone());
            }
            i += 1;
        }
        None
    }
}

fn same_name_nocase_exec(a: &Vec<char>, b: &Vec<char>) -> (r: bool)
    ensures
        r == same_name_nocase(a@, b@),
{
    if a.len() != b.len() {
        return false;
    }
    let mut i: usize = 0;
    while i < a.len()
        invariant
            i <= a.len(),
            a.len() == b.len(),
            forall|k: int| 0 <= k < i ==> fold_ascii(#[trigger] a@[k]) == fold_ascii(b@[k]),
        decreases a.len() - i,
    {
        if fold_ascii_exec(a[i]) != fold_ascii_exec(b[i]) {
            return false;
        }
        i += 1;
    }
    true
}

fn fold_ascii_exec(c: char) -> (r: char)
    ensures
        r == fold_ascii(c),
{
    let v = c as u32;
    if 65 <= v && v <= 90 {
        ((v + 32) as u8) as char
    } else {
        c
    }
}

} // verus!
