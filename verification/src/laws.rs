//! Properties of the library as a whole: what a read gives back of a write,
//! what undoes what, and what every operation keeps.
use vstd::prelude::*;
use vstd::view::View as _;

use crate::app::{
    char_inserted, cursor_index, deleted_before_cursor, done_of, note_entry, note_of, noted, open_of,
    cycle_target, search_result, selectable, shown_view, submitted, visible_is, App, View,
    VisibleEntry,
};
use crate::db::{
    edit_where, edited, first_named, found_or_created, keep, lemma_keep_complete, lemma_keep_sub,
    list_exists, lists_unique, min_order, next_order, order_read, same_name_nocase,
    swapped_orders, task_exists, tasks_unique, updated_with, Database, Edit, List, Task,
};
use crate::editing::{byte_len, char_at_byte};
use crate::grammar::{first_from, pat, whole_word, Token};
use crate::history::{history_kept, is_undo_key, same_store};
use crate::keys::Key;
use crate::pings::{interval_ms, ping_step, pingable, pinged, PingStep};
use crate::text::{
    boundary, ci_eq, collapse_from, collapse_ws, decimal, is_word_char, digit_char, digit_end, digit_val, digits_value, int_text, is_digit,
    is_ws, lemma_ws_end_bounds, lemma_ws_start_bounds, trim, ws_end, ws_start,
};

verus! {

// ======================= the store =======================

/// Toggling a task twice leaves the tasks as they were.
pub proof fn law_toggle_twice(ts: Seq<Task>, id: Seq<char>)
    ensures
        edit_where(edit_where(ts, id, Edit::Toggle), id, Edit::Toggle) == ts,
{
    let once = edit_where(ts, id, Edit::Toggle);
    let twice = edit_where(once, id, Edit::Toggle);
    assert forall|k: int| 0 <= k < ts.len() implies twice[k] == ts[k] by {
        if ts[k].id@ == id {
            assert(once[k] == edited(Edit::Toggle, ts[k]));
        }
    }
    assert(twice =~= ts);
}

/// Deleting a list deletes every task in it and keeps every other task.
pub proof fn law_delete_list_cascades(old: Seq<Task>, new: Seq<Task>, id: Seq<char>)
    requires
        new == keep(old, |t: Task| t.list_id@ != id),
    ensures
        forall|k: int| 0 <= k < new.len() ==> (#[trigger] new[k]).list_id@ != id,
        forall|k: int| 0 <= k < old.len() && (#[trigger] old[k]).list_id@ != id ==> new.contains(old[k]),
{
    let p = |t: Task| t.list_id@ != id;
    lemma_keep_sub(old, p);
    assert forall|k: int| 0 <= k < old.len() && (#[trigger] old[k]).list_id@ != id implies new.contains(
        old[k],
    ) by {
        lemma_keep_complete(old, p, k);
    }
}

/// A task added to a list is among the tasks read back from that list.
pub proof fn law_created_task_is_listed(old: Seq<Task>, new: Seq<Task>, t: Task, list_id: Seq<char>)
    requires
        new == old.push(t),
        t.list_id@ == list_id,
    ensures
        keep(new, |x: Task| x.list_id@ == list_id).contains(t),
{
    lemma_keep_complete(new, |x: Task| x.list_id@ == list_id, old.len() as int);
}

/// An update of an existing task is what reading the task back gives: its
/// content, due time, ping interval, priority and recurrence are the new
/// ones and its last ping is cleared; the other tasks are unchanged.
pub proof fn law_update_read_back(
    old: Seq<Task>,
    new: Seq<Task>,
    id: Seq<char>,
    content: Seq<char>,
    due_at: Option<i64>,
    ping_interval: Option<i64>,
    priority: Option<u8>,
    recurrence: Option<Seq<char>>,
)
    requires
        updated_with(old, new, id, content, due_at, ping_interval, priority, recurrence),
    ensures
        new.len() == old.len(),
        forall|k: int|
            0 <= k < new.len() && old[k].id@ == id ==> {
                &&& (#[trigger] new[k]).id == old[k].id
                &&& new[k].content@ == content
                &&& new[k].due_at == due_at
                &&& new[k].ping_interval == ping_interval
                &&& new[k].priority == priority
                &&& crate::db::opt_view(new[k].recurrence) == recurrence
                &&& new[k].last_ping_at is None
                &&& new[k].completed == old[k].completed
                &&& new[k].note == old[k].note
            },
        forall|k: int| 0 <= k < new.len() && old[k].id@ != id ==> #[trigger] new[k] == old[k],
{
}

/// Setting a task's note is what reading the task back gives.
pub proof fn law_note_read_back(old: Seq<Task>, new: Seq<Task>, id: Seq<char>, note: Option<String>)
    requires
        new == edit_where(old, id, Edit::Note(note)),
    ensures
        forall|k: int| 0 <= k < new.len() && old[k].id@ == id ==> (#[trigger] new[k]).note == note,
        forall|k: int| 0 <= k < new.len() && old[k].id@ != id ==> #[trigger] new[k] == old[k],
{
}

/// Submitting `note <text>` with a task selected gives that task the note
/// `<text>`; no other task changes.
pub proof fn law_note_entry_attaches(old: App, new: App)
    requires
        old.wf(),
        old.view == View::Tasks,
        !old.search_mode,
        note_entry(old, trim(old.input@)),
        submitted(old, new),
    ensures
        forall|k: int|
            0 <= k < new.db.tasks@.len() && old.db.tasks@[k].id@ == old.tasks@[old.selected_index()->0].id@
                ==> ((#[trigger] new.db.tasks@[k]).note matches Some(n) && n@ == note_of(trim(old.input@))->0),
        forall|k: int|
            0 <= k < new.db.tasks@.len() && old.db.tasks@[k].id@ != old.tasks@[old.selected_index()->0].id@
                ==> #[trigger] new.db.tasks@[k] == old.db.tasks@[k],
{
    let text = trim(old.input@);
    let id = old.tasks@[old.selected_index()->0].id@;
    assert(noted(old, new, text));
    let s = choose|s: String|
        s@ == note_of(text)->0 && new.db.tasks@ == #[trigger] edit_where(old.db.tasks@, id, Edit::Note(Some(s)));
    law_note_read_back(old.db.tasks@, new.db.tasks@, id, Some(s));
}

/// A new task's sort order is below that of every open task of its list:
/// new tasks come first in their priority group (when no open task of the
/// list has the smallest sort order, `i64::MIN`, below which none is left).
pub proof fn law_new_task_first(ts: Seq<Task>, list_id: Seq<char>)
    requires
        forall|k: int|
            0 <= k < ts.len() && (#[trigger] ts[k]).list_id@ == list_id && !ts[k].completed
                ==> ts[k].sort_order > i64::MIN,
    ensures
        forall|k: int|
            0 <= k < ts.len() && (#[trigger] ts[k]).list_id@ == list_id && !ts[k].completed
                ==> next_order(ts, list_id) < ts[k].sort_order,
{
    let p = crate::db::open_in(list_id);
    let open = keep(ts, p);
    lemma_keep_sub(ts, p);
    assert forall|k: int|
        0 <= k < ts.len() && (#[trigger] ts[k]).list_id@ == list_id && !ts[k].completed
            implies next_order(ts, list_id) < ts[k].sort_order by {
        lemma_keep_complete(ts, p, k);
        let j = choose|j: int| 0 <= j < open.len() && open[j] == ts[k];
        crate::db::lemma_min_order(open);
        assert(min_order(open) <= open[j].sort_order);
        let m = choose|m: int| 0 <= m < open.len() && min_order(open) == (#[trigger] open[m]).sort_order;
        assert(ts.contains(open[m]));
        let i = choose|i: int| 0 <= i < ts.len() && ts[i] == open[m];
        assert(p(open[m]));
        assert(ts[i].sort_order > i64::MIN);
        assert(min_order(open) > i64::MIN);
        assert(open.len() > 0);
        assert(next_order(ts, list_id) == (min_order(open) - 1) as i64);
    }
}

/// The only task with id `id`, when ids are unique.
proof fn lemma_unique_index(ts: Seq<Task>, id: Seq<char>, a: int, b: int)
    requires
        tasks_unique(ts),
        0 <= a < ts.len(),
        0 <= b < ts.len(),
        ts[a].id@ == id,
        ts[b].id@ == id,
    ensures
        a == b,
{
    if a < b {
        assert(ts[a].id@ != ts[b].id@);
    } else if b < a {
        assert(ts[b].id@ != ts[a].id@);
    }
}

/// Exchanging the sort orders of two existing tasks twice restores them.
pub proof fn law_swap_twice(old: Seq<Task>, mid: Seq<Task>, new: Seq<Task>, a: Seq<char>, b: Seq<char>)
    requires
        tasks_unique(old),
        task_exists(old, a),
        task_exists(old, b),
        swapped_orders(old, mid, a, b),
        swapped_orders(mid, new, a, b),
    ensures
        new == old,
{
    let (va, vb) = choose|va: i64, vb: i64|
        order_read(old, a, va) && order_read(old, b, vb) && mid == edit_where(
            edit_where(old, a, Edit::SortOrder(vb)),
            b,
            Edit::SortOrder(va),
        );
    let (wa, wb) = choose|wa: i64, wb: i64|
        order_read(mid, a, wa) && order_read(mid, b, wb) && new == edit_where(
            edit_where(mid, a, Edit::SortOrder(wb)),
            b,
            Edit::SortOrder(wa),
        );
    let ka = choose|k: int| 0 <= k < old.len() && (#[trigger] old[k]).id@ == a && va == old[k].sort_order;
    let kb = choose|k: int| 0 <= k < old.len() && (#[trigger] old[k]).id@ == b && vb == old[k].sort_order;
    assert(mid.len() == old.len());
    assert(forall|k: int| 0 <= k < mid.len() ==> (#[trigger] mid[k]).id == old[k].id);
    assert(tasks_unique(mid));
    assert(mid[ka].id@ == a);
    assert(mid[kb].id@ == b);
    let ja = choose|k: int| 0 <= k < mid.len() && (#[trigger] mid[k]).id@ == a && wa == mid[k].sort_order;
    let jb = choose|k: int| 0 <= k < mid.len() && (#[trigger] mid[k]).id@ == b && wb == mid[k].sort_order;
    lemma_unique_index(mid, a, ja, ka);
    lemma_unique_index(mid, b, jb, kb);
    if a == b {
        lemma_unique_index(old, a, ka, kb);
    }
    assert forall|k: int| 0 <= k < old.len() implies new[k] == old[k] by {
        if old[k].id@ == a && old[k].id@ == b {
            lemma_unique_index(old, a, k, ka);
        } else if old[k].id@ == a {
            lemma_unique_index(old, a, k, ka);
        } else if old[k].id@ == b {
            lemma_unique_index(old, b, k, kb);
        }
    }
    assert(new =~= old);
}

/// Names equal up to ASCII case match the same lists.
proof fn lemma_same_name_trans(a: Seq<char>, b: Seq<char>, c: Seq<char>)
    requires
        same_name_nocase(a, b),
        same_name_nocase(b, c),
    ensures
        same_name_nocase(a, c),
{
    assert forall|k: int| 0 <= k < a.len() implies crate::db::fold_ascii(#[trigger] a[k]) == crate::db::fold_ascii(c[k]) by {
        assert(crate::db::fold_ascii(b[k]) == crate::db::fold_ascii(c[k]));
    }
}

proof fn lemma_same_name_sym(a: Seq<char>, b: Seq<char>)
    requires
        same_name_nocase(a, b),
    ensures
        same_name_nocase(b, a),
{
    assert forall|k: int| 0 <= k < b.len() implies crate::db::fold_ascii(#[trigger] b[k]) == crate::db::fold_ascii(a[k]) by {
        assert(crate::db::fold_ascii(a[k]) == crate::db::fold_ascii(b[k]));
    }
}

/// `first_named` finds the first list, from `i`, whose name matches.
proof fn lemma_first_named(ls: Seq<List>, n: Seq<char>, i: int)
    requires
        0 <= i,
    ensures
        match first_named(ls, n, i) {
            Some(k) => i <= k < ls.len() && same_name_nocase(ls[k].name@, n) && forall|j: int|
                i <= j < k ==> !same_name_nocase(#[trigger] ls[j].name@, n),
            None => forall|j: int| i <= j < ls.len() ==> !same_name_nocase(#[trigger] ls[j].name@, n),
        },
    decreases ls.len() - i,
{
    if i < ls.len() && !same_name_nocase(ls[i].name@, n) {
        lemma_first_named(ls, n, i + 1);
    }
}

/// Looking up a list by a name and then by a name equal up to ASCII case
/// gives the same list, and creates at most one list.
pub proof fn law_find_or_create_idempotent(
    l0: Seq<List>,
    l1: Seq<List>,
    l2: Seq<List>,
    n1: Seq<char>,
    n2: Seq<char>,
    id1: Seq<char>,
    id2: Seq<char>,
)
    requires
        found_or_created(l0, l1, n1, id1),
        found_or_created(l1, l2, n2, id2),
        same_name_nocase(n1, n2),
    ensures
        id1 == id2,
        l2 == l1,
{
    lemma_first_named(l0, n1, 0);
    lemma_first_named(l1, n2, 0);
    lemma_same_name_sym(n1, n2);
    match first_named(l0, n1, 0) {
        Some(k) => {
            assert(l1 == l0);
            lemma_same_name_trans(l0[k].name@, n1, n2);
            match first_named(l1, n2, 0) {
                Some(k2) => {
                    if k2 < k {
                        lemma_same_name_trans(l0[k2].name@, n2, n1);
                    } else if k < k2 {
                        assert(!same_name_nocase(l0[k].name@, n2));
                    }
                },
                None => {
                    assert(!same_name_nocase(l1[k].name@, n2));
                },
            }
        },
        None => {
            let last = l1.len() - 1;
            assert(l1[last].name@ == n1);
            match first_named(l1, n2, 0) {
                Some(k2) => {
                    if k2 < last {
                        assert(l1[k2] == l0[k2]) by {
                            assert(l1.drop_last()[k2] == l1[k2]);
                        }
                        lemma_same_name_trans(l0[k2].name@, n2, n1);
                        assert(false);
                    }
                    assert(k2 == last);
                    assert(l1.last() == l1[last]);
                },
                None => {
                    assert(!same_name_nocase(l1[last].name@, n2));
                    assert(false);
                },
            }
        },
    }
}

// ======================= the application =======================

/// Deleting the character before the cursor undoes typing one.
pub proof fn law_backspace_undoes_typing(a0: App, a1: App, a2: App, c: char)
    requires
        a0.wf(),
        a1.wf(),
        char_inserted(a0, a1, c),
        deleted_before_cursor(a1, a2),
    ensures
        a2.input@ == a0.input@,
        a2.cursor_pos == a0.cursor_pos,
{
    let s = a0.input@;
    crate::editing::lemma_char_at_byte_sound(s, a0.cursor_pos as int);
    let k = cursor_index(a0);
    crate::editing::lemma_width(c);
    assert(a1.cursor_pos > 0);
    let t = a1.input@;
    assert(t.take(k + 1) =~= s.take(k).push(c));
    crate::editing::lemma_byte_len_push(s.take(k), c);
    crate::editing::lemma_char_at_byte_complete(t, k + 1);
    assert(cursor_index(a1) == k + 1);
    assert(t[k] == c);
    assert(t.remove(k) =~= s);
}

/// The tasks that can be selected are exactly the task rows, in order.
pub open spec fn task_rows(r: Seq<VisibleEntry>) -> Seq<usize>
    decreases r.len(),
{
    if r.len() == 0 {
        Seq::empty()
    } else {
        match r.last() {
            VisibleEntry::Task(i) => task_rows(r.drop_last()).push(i),
            VisibleEntry::Separator(_) => task_rows(r.drop_last()),
        }
    }
}

proof fn lemma_task_rows_concat(a: Seq<VisibleEntry>, b: Seq<VisibleEntry>)
    ensures
        task_rows(a + b) == task_rows(a) + task_rows(b),
    decreases b.len(),
{
    if b.len() == 0 {
        assert(a + b =~= a);
        assert(task_rows(a) + task_rows(b) =~= task_rows(a));
    } else {
        lemma_task_rows_concat(a, b.drop_last());
        assert((a + b).drop_last() =~= a + b.drop_last());
        assert((a + b).last() == b.last());
        match b.last() {
            VisibleEntry::Task(i) => {
                assert(task_rows(a) + task_rows(b) =~= (task_rows(a) + task_rows(b.drop_last())).push(i));
            },
            VisibleEntry::Separator(_) => {},
        }
    }
}

proof fn lemma_task_rows_of_tasks(r: Seq<VisibleEntry>, idx: Seq<usize>)
    requires
        r.len() == idx.len(),
        forall|k: int| 0 <= k < idx.len() ==> r[k] == VisibleEntry::Task(idx[k]),
    ensures
        task_rows(r) == idx,
    decreases r.len(),
{
    if r.len() > 0 {
        lemma_task_rows_of_tasks(r.drop_last(), idx.drop_last());
        assert(r.last() == VisibleEntry::Task(idx.last()));
        assert(idx.drop_last().push(idx.last()) =~= idx);
    }
}

/// The selectable tasks are the task rows of the list shown, in order.
pub proof fn law_selectable_are_task_rows(a: App, r: Seq<VisibleEntry>)
    requires
        visible_is(a, r),
    ensures
        task_rows(r) == selectable(a.tasks@, a.filtered_indices@, a.show_completed),
{
    let o = open_of(a.tasks@, a.filtered_indices@);
    let d = done_of(a.tasks@, a.filtered_indices@);
    let ro = r.take(o.len() as int);
    lemma_task_rows_of_tasks(ro, o);
    if a.show_completed && d.len() > 0 {
        let rs = r.subrange(o.len() as int, (o.len() + 1) as int);
        let rd = r.skip((o.len() + 1) as int);
        assert(r =~= ro + rs + rd);
        lemma_task_rows_of_tasks(rd, d);
        lemma_task_rows_concat(ro + rs, rd);
        lemma_task_rows_concat(ro, rs);
        assert(rs.drop_last() =~= Seq::<VisibleEntry>::empty());
        assert(rs.last() == r[o.len() as int]);
        assert(task_rows(rs.drop_last()) =~= Seq::<usize>::empty());
        assert(task_rows(rs) =~= Seq::<usize>::empty());
        assert(task_rows(ro) + task_rows(rs) =~= task_rows(ro));
    } else {
        assert(r =~= ro);
    }
}

/// Opening and then closing the today view (or closing and reopening it)
/// comes back to the view and list shown before, over the same store.
pub proof fn law_today_twice(a0: App, a1: App, a2: App)
    requires
        shown_view(a0, a1, !a0.viewing_today, a0.selected_list),
        shown_view(a1, a2, !a1.viewing_today, a1.selected_list),
    ensures
        a2.viewing_today == a0.viewing_today,
        a2.selected_list == a0.selected_list,
        a2.db == a0.db,
        a2.lists == a0.lists,
        a2.refreshed_from(0),
{
}

/// Cycling forward and then backward comes back to the view shown before:
/// the same list, or the today view (when there is a list and the current
/// one exists).
pub proof fn law_cycle_back_and_forth(a0: App, a1: App, a2: App)
    requires
        a0.lists@.len() > 0,
        a0.viewing_today || a0.selected_list < a0.lists@.len(),
        shown_view(a0, a1, cycle_target(a0, true).0, cycle_target(a0, true).1),
        shown_view(a1, a2, cycle_target(a1, false).0, cycle_target(a1, false).1),
    ensures
        a2.viewing_today == a0.viewing_today,
        !a0.viewing_today ==> a2.selected_list == a0.selected_list,
        a2.db == a0.db,
        a2.lists == a0.lists,
{
    let n = a0.lists@.len();
    assert(a1.lists@.len() == n);
    assert(n == a0.lists.len());
    if a0.viewing_today {
        assert(cycle_target(a0, true) == (false, 0usize));
        assert(!a1.viewing_today && a1.selected_list == 0);
        assert(cycle_target(a1, false).0);
    } else if a0.selected_list + 1 < n {
        assert(a1.selected_list == a0.selected_list + 1);
        assert(!a1.viewing_today);
        assert(cycle_target(a1, false) == (false, a0.selected_list));
    } else {
        assert(a1.viewing_today && a1.selected_list == a0.selected_list);
        assert(cycle_target(a1, false) == (false, (n - 1) as usize));
    }
}

/// Undo brings back the store as it was before the last change made from
/// the keyboard: a key that changes the store (such as deleting a task),
/// then `u`, restores the store's lists and tasks, and the history as well
/// unless it was full (then its oldest store has gone).
pub proof fn law_undo_restores(
    h0: Seq<Database>,
    h1: Seq<Database>,
    h2: Seq<Database>,
    a0: App,
    a1: App,
    a2: App,
    k: Key,
    u: Key,
)
    requires
        !is_undo_key(a0, k),
        history_kept(h0, h1, a0, a1, k),
        !same_store(a0.db, a1.db),
        is_undo_key(a1, u),
        history_kept(h1, h2, a1, a2, u),
    ensures
        a2.db.lists@ == a0.db.lists@,
        a2.db.tasks@ == a0.db.tasks@,
        h2 == crate::history::kept_history(h0),
        h0.len() < crate::history::UNDO_LIMIT ==> h2 == h0,
{
}

/// After reloading, the selection is a selectable task whenever there is
/// one.
pub proof fn law_selection_in_range(a: App, sel: usize)
    requires
        a.refreshed_from(sel),
    ensures
        a.selectable_spec().len() > 0 ==> a.selected_task < a.selectable_spec().len(),
        a.selectable_spec().len() == 0 ==> a.selected_task == 0,
{
}

/// A task reminded or starting its countdown at `now` is not reminded
/// again at the same moment.
pub proof fn law_no_repeat_ping(t: Task, now: i64)
    requires
        pingable(t),
        !(ping_step(t, now) is Skip),
    ensures
        ping_step(pinged(t, now), now) is Skip,
{
}

/// The interface's ping check does what the daemon's does: within ten
/// seconds of its last check it leaves the application alone and shows
/// nothing; otherwise it resets the time of the last check to `now` and
/// leaves the store as the daemon's check of the same store at the same
/// moment does, with as many reminders, each the reminder of the same task.
pub proof fn law_app_ping_as_daemon(
    a0: App,
    a1: App,
    now: i64,
    r: Seq<crate::pings::Reminder>,
    d1: Database,
    r2: Seq<crate::pings::Reminder>,
)
    requires
        crate::app::app_pings_checked(a0, a1, now, r),
        crate::pings::pings_checked(a0.db, d1, now, r2),
    ensures
        a0.last_ping_check <= now && now - a0.last_ping_check < 10000 ==> a1 == a0 && r.len() == 0,
        !(a0.last_ping_check <= now && now - a0.last_ping_check < 10000) ==> {
            &&& a1.last_ping_check == now
            &&& a1.db.lists@ == d1.lists@
            &&& a1.db.tasks@ == d1.tasks@
            &&& r.len() == r2.len()
            &&& forall|k: int|
                0 <= k < r.len() ==> {
                    let t = crate::pings::reminded(a0.db.tasks@, now)[k];
                    &&& crate::pings::reminder_for(t, now, #[trigger] r[k])
                    &&& crate::pings::reminder_for(t, now, r2[k])
                }
        },
{
}

/// The search result is fully determined: two lists that both satisfy it
/// are equal.
pub proof fn law_search_result_unique(tasks: Seq<Task>, pattern: Seq<char>, r1: Seq<usize>, r2: Seq<usize>)
    requires
        search_result(tasks, pattern, r1),
        search_result(tasks, pattern, r2),
    ensures
        r1 == r2,
    decreases r1.len() + r2.len(),
{
    lemma_sorted_unique_prefix(tasks, pattern, r1, r2);
}

/// Both lists are strictly ordered by `ranks_before` over the same elements,
/// so they agree position by position.
proof fn lemma_sorted_unique_prefix(tasks: Seq<Task>, pattern: Seq<char>, r1: Seq<usize>, r2: Seq<usize>)
    requires
        search_result(tasks, pattern, r1),
        search_result(tasks, pattern, r2),
    ensures
        r1 == r2,
{
    // every element of one is an element of the other
    assert forall|k: int| 0 <= k < r1.len() implies r2.contains(#[trigger] r1[k]) by {
        assert(crate::app::score_of(tasks, pattern, r1[k] as int) is Some);
    }
    assert forall|k: int| 0 <= k < r2.len() implies r1.contains(#[trigger] r2[k]) by {
        assert(crate::app::score_of(tasks, pattern, r2[k] as int) is Some);
    }
    // the position of an element is the number of elements before it
    assert forall|k: int| 0 <= k < r1.len() && k < r2.len() implies r1[k] == r2[k] by {
        lemma_rank_position(tasks, pattern, r1, r2, k);
    }
    lemma_same_len(tasks, pattern, r1, r2);
    assert(r1 =~= r2);
}

proof fn lemma_ranks_total(tasks: Seq<Task>, pattern: Seq<char>, x: int, y: int)
    requires
        x != y,
    ensures
        crate::app::ranks_before(tasks, pattern, x, y) || crate::app::ranks_before(tasks, pattern, y, x),
        !(crate::app::ranks_before(tasks, pattern, x, y) && crate::app::ranks_before(tasks, pattern, y, x)),
{
}

/// In a strictly ordered list, an element precedes exactly the elements
/// after it.
proof fn lemma_rank_position(tasks: Seq<Task>, pattern: Seq<char>, r1: Seq<usize>, r2: Seq<usize>, k: int)
    requires
        search_result(tasks, pattern, r1),
        search_result(tasks, pattern, r2),
        0 <= k < r1.len(),
        k < r2.len(),
    ensures
        r1[k] == r2[k],
    decreases k,
{
    assert forall|j: int| 0 <= j < k implies r1[j] == r2[j] by {
        lemma_rank_position(tasks, pattern, r1, r2, j);
    }
    if r1[k] != r2[k] {
        let x = r1[k];
        let y = r2[k];
        assert(r2.contains(x));
        assert(r1.contains(y));
        let jx = choose|j: int| 0 <= j < r2.len() && r2[j] == x;
        let jy = choose|j: int| 0 <= j < r1.len() && r1[j] == y;
        // x is not among r2's first k elements, which are r1's first k
        if jx < k {
            assert(r1[jx] == x);
            assert(crate::app::ranks_before(tasks, pattern, r1[jx] as int, r1[k] as int));
            lemma_ranks_total(tasks, pattern, x as int, x as int + 1);
            assert(false);
        }
        if jy < k {
            assert(r2[jy] == y);
            assert(crate::app::ranks_before(tasks, pattern, r2[jy] as int, r2[k] as int));
            assert(false);
        }
        lemma_ranks_total(tasks, pattern, x as int, y as int);
        if jx > k {
            assert(crate::app::ranks_before(tasks, pattern, y as int, x as int));
        }
        if jy > k {
            assert(crate::app::ranks_before(tasks, pattern, x as int, y as int));
        }
    }
}

proof fn lemma_same_len(tasks: Seq<Task>, pattern: Seq<char>, r1: Seq<usize>, r2: Seq<usize>)
    requires
        search_result(tasks, pattern, r1),
        search_result(tasks, pattern, r2),
    ensures
        r1.len() == r2.len(),
{
    if r1.len() < r2.len() {
        let k = r1.len() as int;
        let x = r2[k];
        assert(r1.contains(x));
        let j = choose|j: int| 0 <= j < r1.len() && r1[j] == x;
        lemma_rank_position(tasks, pattern, r1, r2, j);
        assert(r2[j] == x);
        assert(crate::app::ranks_before(tasks, pattern, r2[j] as int, r2[k] as int));
    } else if r2.len() < r1.len() {
        let k = r2.len() as int;
        let x = r1[k];
        assert(r2.contains(x));
        let j = choose|j: int| 0 <= j < r2.len() && r2[j] == x;
        lemma_rank_position(tasks, pattern, r1, r2, j);
        assert(r1[j] == x);
        assert(crate::app::ranks_before(tasks, pattern, r1[j] as int, r1[k] as int));
    }
}

// ======================= numerals =======================

proof fn lemma_digit_char(d: nat)
    requires
        d < 10,
    ensures
        is_digit(digit_char(d)),
        digit_val(digit_char(d)) == d,
        !is_ws(digit_char(d)),
        digit_char(d) != '+',
{
    assert(((48 + d) as char) as u32 == 48 + d);
}

/// The value of digits depends only on the digits.
proof fn lemma_digits_value_ext(s: Seq<char>, t: Seq<char>, j: int)
    requires
        0 <= j <= s.len(),
        j <= t.len(),
        forall|k: int| 0 <= k < j ==> s[k] == t[k],
    ensures
        digits_value(s, 0, j) == digits_value(t, 0, j),
    decreases j,
{
    if j > 0 {
        lemma_digits_value_ext(s, t, j - 1);
    }
}

/// A decimal numeral is made of digits whose value is the number.
pub proof fn lemma_decimal(n: nat)
    ensures
        decimal(n).len() > 0,
        forall|k: int| 0 <= k < decimal(n).len() ==> is_digit(#[trigger] decimal(n)[k]),
        digits_value(decimal(n), 0, decimal(n).len() as int) == n,
    decreases n,
{
    if n < 10 {
        lemma_digit_char(n);
        assert(digits_value(decimal(n), 0, 0) == 0);
    } else {
        lemma_decimal(n / 10);
        lemma_digit_char(n % 10);
        let s = decimal(n / 10);
        let t = decimal(n);
        assert(t == s.push(digit_char(n % 10)));
        lemma_digits_value_ext(s, t, s.len() as int);
        assert forall|k: int| 0 <= k < t.len() implies is_digit(#[trigger] t[k]) by {
            if k < s.len() {
                assert(t[k] == s[k]);
            }
        }
    }
}

/// The run of digits from `i` ends at `k` when `s[i..k]` are digits and
/// `s[k]` is not.
proof fn lemma_digit_end_at(s: Seq<char>, i: int, k: int)
    requires
        0 <= i <= k <= s.len(),
        forall|j: int| i <= j < k ==> is_digit(#[trigger] s[j]),
        k < s.len() ==> !is_digit(s[k]),
    ensures
        digit_end(s, i) == k,
    decreases k - i,
{
    if i < k {
        lemma_digit_end_at(s, i + 1, k);
    }
}

/// Trimming text that starts and ends with no whitespace changes nothing.
proof fn lemma_trim_none(s: Seq<char>)
    requires
        s.len() > 0,
        !is_ws(s[0]),
        !is_ws(s[s.len() - 1]),
    ensures
        trim(s) == s,
{
    assert(ws_end(s, 0) == 0);
    assert(ws_start(s, s.len() as int) == s.len());
    assert(s.subrange(0, s.len() as int) =~= s);
}

/// The PID written as a decimal numeral is the PID read back.
pub proof fn law_pid_roundtrip(n: u32)
    ensures
        crate::daemon::pid_value(decimal(n as nat)) == Some(n),
{
    let s = decimal(n as nat);
    lemma_decimal(n as nat);
    lemma_digit_not_ws(s[0]);
    lemma_digit_not_ws(s[s.len() - 1]);
    lemma_trim_none(s);
    assert(s[0] != '+') by {
        assert(is_digit(s[0]));
    }
    assert(crate::daemon::pid_digits(trim(s)) == s);
}

proof fn lemma_digit_not_ws(c: char)
    requires
        is_digit(c),
    ensures
        !is_ws(c),
        c != '+',
{
}

/// The text of a ping interval is one the reader takes without overflow,
/// and reads back as the interval, for intervals that are whole minutes
/// below an hour or whole hours (the text of other intervals, such as
/// `1h30m`, is not one the reader accepts).
pub proof fn law_ping_text_roundtrip(m: i64)
    requires
        m >= 0,
        m < 60 || m % 60 == 0,
    ensures
        crate::parser::ping_str_ok(crate::parser::ping_interval_text(m as int)),
        crate::parser::ping_str_value(crate::parser::ping_interval_text(m as int)) == Some(m),
{
    let (num, unit) = if m < 60 {
        (m as nat, 'm')
    } else {
        ((m / 60) as nat, 'h')
    };
    let d = decimal(num);
    let s = d.push(unit);
    assert(crate::parser::ping_interval_text(m as int) == s) by {
        if m < 60 {
            assert(int_text(m as int) == decimal(m as nat));
            assert(d + seq!['m'] =~= s);
        } else {
            assert(int_text(m / 60) == decimal((m / 60) as nat));
            assert(d + seq!['h'] =~= s);
        }
    }
    lemma_decimal(num);
    lemma_digit_not_ws(d[0]);
    assert(s[0] == d[0]);
    assert(!is_ws(s[s.len() - 1]));
    lemma_trim_none(s);
    assert forall|j: int| 0 <= j < d.len() implies is_digit(#[trigger] s[j]) by {
        assert(s[j] == d[j]);
    }
    lemma_digit_end_at(s, 0, d.len() as int);
    assert(ws_end(s, d.len() as int) == d.len());
    lemma_digits_value_ext(d, s, d.len() as int);
    assert(crate::text::ci_eq(s[d.len() as int], unit));
    if m < 60 {
        assert(crate::text::ci_at(s, d.len() as int, seq!['m']));
    } else {
        assert(!crate::text::ci_at(s, d.len() as int, seq!['m']));
        assert(crate::text::ci_at(s, d.len() as int, seq!['h']));
    }
}

// ======================= the content of an entry =======================

/// `c` has no whitespace at either end, its only whitespace is the plain
/// space, and no two spaces follow each other.
pub open spec fn tidy(c: Seq<char>) -> bool {
    &&& c.len() > 0 ==> !is_ws(c[0]) && !is_ws(c[c.len() - 1])
    &&& forall|k: int| 0 <= k < c.len() && is_ws(#[trigger] c[k]) ==> c[k] == ' '
    &&& forall|k: int| 0 <= k < c.len() - 1 && is_ws(#[trigger] c[k]) ==> !is_ws(c[k + 1])
}

proof fn lemma_collapse_from(s: Seq<char>, i: int, in_ws: bool)
    requires
        0 <= i,
    ensures
        ({
            let r = collapse_from(s, i, in_ws);
            &&& forall|k: int| 0 <= k < r.len() && is_ws(#[trigger] r[k]) ==> r[k] == ' '
            &&& forall|k: int| 0 <= k < r.len() - 1 && is_ws(#[trigger] r[k]) ==> !is_ws(r[k + 1])
            &&& in_ws ==> (r.len() == 0 || !is_ws(r[0]))
        }),
    decreases s.len() - i,
{
    if i >= s.len() {
    } else if is_ws(s[i]) {
        lemma_collapse_from(s, i + 1, true);
        if !in_ws {
            let rest = collapse_from(s, i + 1, true);
            let r = seq![' '] + rest;
            assert(collapse_from(s, i, in_ws) == r);
            assert forall|k: int| 0 <= k < r.len() && is_ws(#[trigger] r[k]) implies r[k] == ' ' by {
                if k > 0 {
                    assert(r[k] == rest[k - 1]);
                }
            }
            assert forall|k: int| 0 <= k < r.len() - 1 && is_ws(#[trigger] r[k]) implies !is_ws(r[k + 1]) by {
                assert(r[k + 1] == rest[k]);
                if k > 0 {
                    assert(r[k] == rest[k - 1]);
                }
            }
        }
    } else {
        lemma_collapse_from(s, i + 1, false);
        let rest = collapse_from(s, i + 1, false);
        let r = seq![s[i]] + rest;
        assert(collapse_from(s, i, in_ws) == r);
        assert forall|k: int| 0 <= k < r.len() && is_ws(#[trigger] r[k]) implies r[k] == ' ' by {
            if k > 0 {
                assert(r[k] == rest[k - 1]);
            }
        }
        assert forall|k: int| 0 <= k < r.len() - 1 && is_ws(#[trigger] r[k]) implies !is_ws(r[k + 1]) by {
            assert(r[k + 1] == rest[k]);
            if k > 0 {
                assert(r[k] == rest[k - 1]);
            }
        }
    }
}

/// Trimming a text whose whitespace is single spaces gives a tidy text.
proof fn lemma_trim_tidy(t: Seq<char>)
    requires
        forall|k: int| 0 <= k < t.len() && is_ws(#[trigger] t[k]) ==> t[k] == ' ',
        forall|k: int| 0 <= k < t.len() - 1 && is_ws(#[trigger] t[k]) ==> !is_ws(t[k + 1]),
    ensures
        tidy(trim(t)),
{
    let n = t.len() as int;
    let a = ws_end(t, 0);
    lemma_ws_end_bounds(t, 0);
    if a < n {
        let b = ws_start(t, n);
        lemma_ws_start_bounds(t, n);
        assert(b > a) by {
            if b <= a {
                assert(is_ws(t[a]));
            }
        }
        let c = t.subrange(a, b);
        assert(trim(t) == c);
        assert(!is_ws(c[0]));
        assert(c[c.len() - 1] == t[b - 1]);
        assert forall|k: int| 0 <= k < c.len() && is_ws(#[trigger] c[k]) implies c[k] == ' ' by {
            assert(c[k] == t[a + k]);
        }
        assert forall|k: int| 0 <= k < c.len() - 1 && is_ws(#[trigger] c[k]) implies !is_ws(c[k + 1]) by {
            assert(c[k] == t[a + k]);
            assert(c[k + 1] == t[a + k + 1]);
        }
    }
}

/// The content of every entry is tidy: trimmed, with single spaces between
/// its words and no other whitespace.
pub proof fn law_content_tidy(input: Seq<char>)
    ensures
        tidy(crate::parser::parsed_content(input)),
{
    let s = crate::parser::text_after_ping(input);
    lemma_collapse_from(s, 0, false);
    lemma_trim_tidy(collapse_ws(s));
}

// ======================= rebuilt entries =======================

proof fn lemma_first_none(id: int, s: Seq<char>, i: int, j: int)
    requires
        0 <= i <= j <= s.len(),
        first_from(id, s, i) is None,
    ensures
        pat(id, s, j) is None,
    decreases j - i,
{
    if i < j {
        lemma_first_none(id, s, i + 1, j);
    }
}

proof fn lemma_first_at(id: int, s: Seq<char>, i: int, j: int)
    requires
        0 <= i <= j <= s.len(),
        forall|k: int| i <= k < j ==> #[trigger] pat(id, s, k) is None,
    ensures
        first_from(id, s, i) == first_from(id, s, j),
    decreases j - i,
{
    if i < j {
        lemma_first_at(id, s, i + 1, j);
    }
}

/// Appending a text that starts with a non-word character leaves the word
/// boundaries up to the end of `c` as they were.
proof fn lemma_boundary_prefix(c: Seq<char>, t: Seq<char>, i: int)
    requires
        t.len() > 0,
        !is_word_char(t[0]),
        0 <= i <= c.len(),
    ensures
        boundary(c + t, i) == boundary(c, i),
{
    let s = c + t;
    if i < c.len() {
        assert(s[i] == c[i]);
    } else {
        assert(s[i] == t[0]);
    }
    if i > 0 {
        assert(s[i - 1] == c[i - 1]);
    }
}

/// No priority match starts within `c` once a text beginning with a space is
/// appended, when `c` has none.
#[verifier::spinoff_prover]
#[verifier::rlimit(100)]
proof fn lemma_no_priority_in_prefix(c: Seq<char>, t: Seq<char>, i: int)
    requires
        t.len() > 0,
        t[0] == ' ',
        0 <= i <= c.len(),
        pat(0, c, i) is None,
    ensures
        pat(0, c + t, i) is None,
{
    let s = c + t;
    lemma_boundary_prefix(c, t, i);
    if i < c.len() {
        assert(s[i] == c[i]);
    } else {
        assert(s[i] == ' ');
    }
    if i + 1 < c.len() {
        assert(s[i + 1] == c[i + 1]);
        lemma_boundary_prefix(c, t, i + 2);
    } else if i + 1 == c.len() {
        assert(s[i + 1] == ' ');
    }
}

/// No recurrence word starts within `c` once a text beginning with a space
/// is appended, when `c` has none.
#[verifier::spinoff_prover]
#[verifier::rlimit(100)]
proof fn lemma_no_recurrence_in_prefix(c: Seq<char>, t: Seq<char>, i: int)
    requires
        t.len() > 0,
        t[0] == ' ',
        0 <= i <= c.len(),
        pat(1, c, i) is None,
    ensures
        pat(1, c + t, i) is None,
{
    let s = c + t;
    lemma_boundary_prefix(c, t, i);
    lemma_word_in_prefix(c, t, i, seq!['d', 'a', 'i', 'l', 'y']);
    lemma_word_in_prefix(c, t, i, seq!['w', 'e', 'e', 'k', 'l', 'y']);
    lemma_word_in_prefix(c, t, i, seq!['m', 'o', 'n', 't', 'h', 'l', 'y']);
}

#[verifier::spinoff_prover]
#[verifier::rlimit(100)]
proof fn lemma_word_in_prefix(c: Seq<char>, t: Seq<char>, i: int, kw: Seq<char>)
    requires
        t.len() > 0,
        t[0] == ' ',
        0 <= i <= c.len(),
        kw.len() > 0,
        forall|j: int| 0 <= j < kw.len() ==> 97 <= (#[trigger] kw[j] as u32) <= 122,
    ensures
        whole_word(c + t, i, kw) ==> whole_word(c, i, kw),
{
    let s = c + t;
    if whole_word(s, i, kw) {
        if i + kw.len() > c.len() {
            let j = c.len() - i;
            assert(s[i + j] == ' ');
            assert(ci_eq(s[i + j], kw[j]));
            assert(97 <= (kw[j] as u32) <= 122);
            assert(false);
        }
        assert forall|j: int| 0 <= j < kw.len() implies ci_eq(#[trigger] c[i + j], kw[j]) by {
            assert(s[i + j] == c[i + j]);
        }
        lemma_boundary_prefix(c, t, i);
        lemma_boundary_prefix(c, t, i + kw.len());
    }
}

proof fn lemma_first_token(id: int, s: Seq<char>, i: int)
    requires
        id == 0 || id == 1,
    ensures
        first_from(id, s, i) matches Some(m) ==> (if id == 0 {
            m.2 is Priority
        } else {
            m.2 is Recurrence
        }),
    decreases s.len() + 1 - i,
{
    if 0 <= i <= s.len() && pat(id, s, i) is None {
        lemma_first_token(id, s, i + 1);
    }
}

/// Trimming `c` followed by spaces gives `c` back.
proof fn lemma_trim_spaces(c: Seq<char>, g: Seq<char>)
    requires
        c.len() > 0,
        !is_ws(c[0]),
        !is_ws(c[c.len() - 1]),
        forall|k: int| 0 <= k < g.len() ==> #[trigger] g[k] == ' ',
    ensures
        trim(c + g) == c,
{
    let u = c + g;
    assert(u[0] == c[0]);
    assert(ws_end(u, 0) == 0);
    lemma_ws_start_bounds(u, u.len() as int);
    let b = ws_start(u, u.len() as int);
    assert forall|k: int| c.len() <= k < u.len() implies is_ws(#[trigger] u[k]) by {
        assert(u[k] == g[k - c.len()]);
    }
    lemma_ws_start_from(u, u.len() as int, c.len() as int);
    assert(u.subrange(0, c.len() as int) =~= c);
}

proof fn lemma_ws_start_from(u: Seq<char>, j: int, m: int)
    requires
        0 < m <= j <= u.len(),
        !is_ws(u[m - 1]),
        forall|k: int| m <= k < u.len() ==> is_ws(#[trigger] u[k]),
    ensures
        ws_start(u, j) == m,
    decreases j - m,
{
    if j > m {
        assert(is_ws(u[j - 1]));
        lemma_ws_start_from(u, j - 1, m);
    }
}

/// What a content that parses to itself, with no priority and no
/// recurrence, shows of the stages: it is its own trim, no priority or
/// recurrence pattern matches it, and the due-date stage sees it whole.
proof fn lemma_plain_content(c: Seq<char>)
    requires
        c.len() > 0,
        crate::parser::parsed_content(c) == c,
        crate::parser::parsed_priority(c) is None,
        crate::parser::parsed_recurrence(c) is None,
    ensures
        trim(c) == c,
        !is_ws(c[0]),
        !is_ws(c[c.len() - 1]),
        forall|j: int| 0 <= j <= c.len() ==> #[trigger] pat(0, c, j) is None,
        forall|j: int| 0 <= j <= c.len() ==> #[trigger] pat(1, c, j) is None,
        crate::parser::text_before_time(c) == c,
{
    law_content_tidy(c);
    lemma_trim_none(c);
    lemma_first_token(0, c, 0);
    lemma_first_token(1, c, 0);
    assert(crate::grammar::find(0, c) is None);
    assert(crate::grammar::find(1, c) is None);
    assert forall|j: int| 0 <= j <= c.len() implies #[trigger] pat(0, c, j) is None by {
        lemma_first_none(0, c, 0, j);
    }
    assert forall|j: int| 0 <= j <= c.len() implies #[trigger] pat(1, c, j) is None by {
        lemma_first_none(1, c, 0, j);
    }
}

/// The priority part of a rebuilt entry: ` p1`, ` p2` or ` p3`.
pub open spec fn priority_text(pr: Option<u8>) -> Seq<char> {
    match pr {
        Some(p) => seq![' ', 'p'] + decimal(p as nat),
        None => Seq::<char>::empty(),
    }
}

/// The recurrence word of a rebuilt entry, as text.
pub open spec fn recurrence_word(rec: Option<u8>) -> Option<Seq<char>> {
    match rec {
        Some(k) => Some(crate::parser::recurrence_name(k)),
        None => None,
    }
}

/// The recurrence part of a rebuilt entry: ` daily`, ` weekly` or
/// ` monthly`.
pub open spec fn recurrence_text(rec: Option<u8>) -> Seq<char> {
    match rec {
        Some(k) => seq![' '] + crate::parser::recurrence_name(k),
        None => Seq::<char>::empty(),
    }
}

proof fn lemma_name_letters(k: u8)
    requires
        k <= 2,
    ensures
        ({
            let w = crate::parser::recurrence_name(k);
            &&& 5 <= w.len() <= 7
            &&& forall|j: int| 0 <= j < w.len() ==> 97 <= (#[trigger] w[j] as u32) <= 122 && w[j] != 'p'
        }),
{
    let w = crate::parser::recurrence_name(k);
    assert forall|j: int| 0 <= j < w.len() implies 97 <= (#[trigger] w[j] as u32) <= 122 && w[j] != 'p' by {
        if k == 0 {
            assert(w == seq!['d', 'a', 'i', 'l', 'y']);
        } else if k == 1 {
            assert(w == seq!['w', 'e', 'e', 'k', 'l', 'y']);
        } else {
            assert(w == seq!['m', 'o', 'n', 't', 'h', 'l', 'y']);
        }
    }
}

/// The priority match of a rebuilt entry sits right after the content.
#[verifier::spinoff_prover]
#[verifier::rlimit(100)]
proof fn lemma_priority_found(c: Seq<char>, p: u8, rt: Seq<char>)
    requires
        c.len() > 0,
        forall|j: int| 0 <= j <= c.len() ==> #[trigger] pat(0, c, j) is None,
        1 <= p <= 3,
        rt.len() > 0 ==> rt[0] == ' ',
    ensures
        crate::grammar::find(0, c + priority_text(Some(p)) + rt) == Some(
            ((c.len() + 1) as int, (c.len() + 3) as int, Token::Priority(p)),
        ),
{
    let pt = priority_text(Some(p));
    let u = c + pt + rt;
    let n = c.len() as int;
    let d = digit_char(p as nat);
    assert(decimal(p as nat) == seq![d]);
    assert(u =~= c + (pt + rt));
    assert forall|k: int| 0 <= k <= n implies #[trigger] pat(0, u, k) is None by {
        lemma_no_priority_in_prefix(c, pt + rt, k);
    }
    lemma_first_at(0, u, 0, n + 1);
    assert(u[n] == ' ');
    assert(u[n + 1] == 'p');
    assert(u[n + 2] == d);
    assert((d as u32) == 48 + p);
    assert(boundary(u, n + 1));
    if rt.len() > 0 {
        assert(u[n + 3] == ' ');
    }
    assert(boundary(u, n + 3));
    assert(pat(0, u, n + 1) == Some((n + 3, Token::Priority(p))));
}

/// No priority match in a rebuilt entry without a priority.
#[verifier::spinoff_prover]
#[verifier::rlimit(100)]
proof fn lemma_priority_absent(c: Seq<char>, k: u8)
    requires
        c.len() > 0,
        forall|j: int| 0 <= j <= c.len() ==> #[trigger] pat(0, c, j) is None,
        k <= 2,
    ensures
        crate::grammar::find(0, c + recurrence_text(Some(k))) is None,
{
    let rt = recurrence_text(Some(k));
    let u = c + rt;
    let n = c.len() as int;
    lemma_name_letters(k);
    assert forall|j: int| 0 <= j <= u.len() implies #[trigger] pat(0, u, j) is None by {
        if j <= n {
            lemma_no_priority_in_prefix(c, rt, j);
        } else if j + 1 < u.len() {
            assert(u[j] == rt[j - n]);
            assert(rt[j - n] == crate::parser::recurrence_name(k)[j - n - 1]);
        }
    }
    lemma_first_at(0, u, 0, u.len() as int);
    assert(first_from(0, u, u.len() + 1 as int) is None);
}

/// The priority stage on a rebuilt entry with a priority takes it out.
#[verifier::spinoff_prover]
proof fn lemma_priority_stage_some(c: Seq<char>, p: u8, rt: Seq<char>)
    requires
        c.len() > 0,
        forall|j: int| 0 <= j <= c.len() ==> #[trigger] pat(0, c, j) is None,
        1 <= p <= 3,
        rt.len() > 0 ==> rt[0] == ' ',
    ensures
        crate::parser::stage_priority(c + priority_text(Some(p)) + rt) == (trim(c + seq![' '] + rt), Some(p)),
{
    let u = c + priority_text(Some(p)) + rt;
    let n = c.len() as int;
    lemma_priority_found(c, p, rt);
    assert(decimal(p as nat) == seq![digit_char(p as nat)]);
    assert(u.subrange(0, n + 1) + u.subrange(n + 3, u.len() as int) =~= c + seq![' '] + rt);
}

/// The priority stage on a rebuilt entry without a priority leaves it.
#[verifier::spinoff_prover]
proof fn lemma_priority_stage_none(c: Seq<char>, rec: Option<u8>)
    requires
        c.len() > 0,
        forall|j: int| 0 <= j <= c.len() ==> #[trigger] pat(0, c, j) is None,
        rec matches Some(k) ==> k <= 2,
    ensures
        crate::parser::stage_priority(c + priority_text(None) + recurrence_text(rec)) == (
            c + recurrence_text(rec),
            None::<u8>,
        ),
{
    let rt = recurrence_text(rec);
    let u = c + priority_text(None) + rt;
    let n = c.len() as int;
    assert(u =~= c + rt);
    match rec {
        Some(k) => lemma_priority_absent(c, k),
        None => {
            assert(c + rt =~= c);
            lemma_first_at(0, c, 0, n);
            assert(first_from(0, c, n + 1) is None);
        },
    }
}

/// The priority stage on a rebuilt entry `c + priority + recurrence`: it
/// takes out the priority part, leaving `c`, spaces and the recurrence word.
proof fn lemma_priority_stage(c: Seq<char>, pr: Option<u8>, rec: Option<u8>)
    requires
        c.len() > 0,
        !is_ws(c[0]),
        !is_ws(c[c.len() - 1]),
        forall|j: int| 0 <= j <= c.len() ==> #[trigger] pat(0, c, j) is None,
        pr matches Some(p) ==> 1 <= p <= 3,
        rec matches Some(k) ==> k <= 2,
    ensures
        crate::parser::stage_priority(c + priority_text(pr) + recurrence_text(rec)) == (match pr {
            Some(p) => (trim(c + seq![' '] + recurrence_text(rec)), Some(p)),
            None => (c + recurrence_text(rec), None::<u8>),
        }),
{
    match pr {
        Some(p) => lemma_priority_stage_some(c, p, recurrence_text(rec)),
        None => lemma_priority_stage_none(c, rec),
    }
}

/// A recurrence word at the end of `v`, after a space, is matched there.
#[verifier::spinoff_prover]
#[verifier::rlimit(100)]
proof fn lemma_word_at_end(v: Seq<char>, j0: int, k: u8)
    requires
        k <= 2,
        1 <= j0,
        v[j0 - 1] == ' ',
        v.len() == j0 + crate::parser::recurrence_name(k).len(),
        v.subrange(j0, v.len() as int) == crate::parser::recurrence_name(k),
    ensures
        pat(1, v, j0) == Some((v.len() as int, Token::Recurrence(k))),
{
    let w = crate::parser::recurrence_name(k);
    lemma_name_letters(k);
    assert forall|j: int| 0 <= j < w.len() implies v[j0 + j] == w[j] by {
        assert(v.subrange(j0, v.len() as int)[j] == v[j0 + j]);
    }
    assert(boundary(v, j0));
    assert(boundary(v, j0 + w.len()));
    assert(crate::text::ci_at(v, j0, w)) by {
        assert forall|j: int| 0 <= j < w.len() implies ci_eq(#[trigger] v[j0 + j], w[j]) by {
            assert(v[j0 + j] == w[j]);
        }
    }
    if k == 1 {
        assert(!ci_eq(v[j0], 'd'));
    } else if k == 2 {
        assert(!ci_eq(v[j0], 'd'));
        assert(!ci_eq(v[j0], 'w'));
    }
}

/// No recurrence word starts before the spaces `g` end.
#[verifier::spinoff_prover]
#[verifier::rlimit(100)]
proof fn lemma_no_word_before(c: Seq<char>, g: Seq<char>, w: Seq<char>, j: int)
    requires
        forall|i: int| 0 <= i <= c.len() ==> #[trigger] pat(1, c, i) is None,
        1 <= g.len(),
        forall|i: int| 0 <= i < g.len() ==> #[trigger] g[i] == ' ',
        0 <= j < c.len() + g.len(),
    ensures
        pat(1, c + g + w, j) is None,
{
    let v = c + g + w;
    let n = c.len() as int;
    assert(v =~= c + (g + w));
    assert((g + w)[0] == ' ');
    if j <= n {
        lemma_no_recurrence_in_prefix(c, g + w, j);
    } else {
        assert(v[j] == g[j - n]);
        assert(!ci_eq(v[j], 'd'));
        assert(!ci_eq(v[j], 'w'));
        assert(!ci_eq(v[j], 'm'));
    }
}

/// The recurrence stage on `c`, spaces `g` (one or two) and a recurrence
/// word: it takes out the word, leaving `c`.
#[verifier::spinoff_prover]
#[verifier::rlimit(100)]
proof fn lemma_recurrence_stage(c: Seq<char>, g: Seq<char>, k: u8)
    requires
        c.len() > 0,
        !is_ws(c[0]),
        !is_ws(c[c.len() - 1]),
        forall|j: int| 0 <= j <= c.len() ==> #[trigger] pat(1, c, j) is None,
        1 <= g.len() <= 2,
        forall|j: int| 0 <= j < g.len() ==> #[trigger] g[j] == ' ',
        k <= 2,
    ensures
        crate::parser::stage_recurrence(c + g + crate::parser::recurrence_name(k)) == (c, Some(k)),
{
    let w = crate::parser::recurrence_name(k);
    let v = c + g + w;
    let j0: int = (c.len() + g.len()) as int;
    assert forall|j: int| 0 <= j < j0 implies #[trigger] pat(1, v, j) is None by {
        lemma_no_word_before(c, g, w, j);
    }
    lemma_first_at(1, v, 0, j0);
    assert(v[j0 - 1] == g[g.len() - 1]);
    assert(v.subrange(j0, v.len() as int) =~= w);
    lemma_word_at_end(v, j0, k);
    assert(crate::grammar::find(1, v) == Some((j0, v.len() as int, Token::Recurrence(k))));
    assert(v.subrange(0, j0) + v.subrange(v.len() as int, v.len() as int) =~= c + g);
    lemma_trim_spaces(c, g);
}

/// A rebuilt entry is its own trim.
proof fn lemma_rebuilt_trim(c: Seq<char>, pr: Option<u8>, rec: Option<u8>)
    requires
        c.len() > 0,
        !is_ws(c[0]),
        !is_ws(c[c.len() - 1]),
        pr matches Some(p) ==> 1 <= p <= 3,
        rec matches Some(k) ==> k <= 2,
    ensures
        trim(c + priority_text(pr) + recurrence_text(rec)) == c + priority_text(pr) + recurrence_text(rec),
{
    let pt = priority_text(pr);
    let rt = recurrence_text(rec);
    let s = c + pt + rt;
    if let Some(k) = rec {
        lemma_name_letters(k);
    }
    if let Some(p) = pr {
        assert(decimal(p as nat) == seq![digit_char(p as nat)]);
    }
    assert(s[0] == c[0]);
    if rt.len() > 0 {
        assert(s[s.len() - 1] == rt[rt.len() - 1]);
    } else if pt.len() > 0 {
        assert(s[s.len() - 1] == pt[pt.len() - 1]);
    } else {
        assert(s[s.len() - 1] == c[c.len() - 1]);
    }
    lemma_trim_none(s);
}

/// The rebuilt entry's facts about `c` that the stages use.
pub open spec fn plain_text(c: Seq<char>) -> bool {
    &&& c.len() > 0
    &&& !is_ws(c[0])
    &&& !is_ws(c[c.len() - 1])
    &&& forall|j: int| 0 <= j <= c.len() ==> #[trigger] pat(0, c, j) is None
    &&& forall|j: int| 0 <= j <= c.len() ==> #[trigger] pat(1, c, j) is None
    &&& crate::parser::stage_recurrence(c) == (c, None::<u8>)
}

#[verifier::spinoff_prover]
#[verifier::rlimit(100)]
proof fn lemma_stages_both(c: Seq<char>, p: u8, k: u8)
    requires
        plain_text(c),
        1 <= p <= 3,
        k <= 2,
    ensures
        crate::parser::stage_priority(c + priority_text(Some(p)) + recurrence_text(Some(k))).1 == Some(p),
        crate::parser::stage_recurrence(
            crate::parser::stage_priority(c + priority_text(Some(p)) + recurrence_text(Some(k))).0,
        ) == (c, Some(k)),
{
    let rt = recurrence_text(Some(k));
    lemma_priority_stage(c, Some(p), Some(k));
    lemma_name_letters(k);
    let u = c + seq![' '] + rt;
    assert(u[0] == c[0]);
    assert(u[u.len() - 1] == rt[rt.len() - 1]);
    lemma_trim_none(u);
    assert(u =~= c + seq![' ', ' '] + crate::parser::recurrence_name(k));
    lemma_recurrence_stage(c, seq![' ', ' '], k);
}

#[verifier::spinoff_prover]
#[verifier::rlimit(100)]
proof fn lemma_stages_priority(c: Seq<char>, p: u8)
    requires
        plain_text(c),
        1 <= p <= 3,
    ensures
        crate::parser::stage_priority(c + priority_text(Some(p)) + recurrence_text(None)).1 == Some(p),
        crate::parser::stage_recurrence(
            crate::parser::stage_priority(c + priority_text(Some(p)) + recurrence_text(None)).0,
        ) == (c, None::<u8>),
{
    lemma_priority_stage(c, Some(p), None);
    assert(c + seq![' '] + recurrence_text(None) =~= c + seq![' ']);
    lemma_trim_spaces(c, seq![' ']);
}

#[verifier::spinoff_prover]
#[verifier::rlimit(100)]
proof fn lemma_stages_recurrence(c: Seq<char>, k: u8)
    requires
        plain_text(c),
        k <= 2,
    ensures
        crate::parser::stage_priority(c + priority_text(None) + recurrence_text(Some(k))).1 == None::<u8>,
        crate::parser::stage_recurrence(
            crate::parser::stage_priority(c + priority_text(None) + recurrence_text(Some(k))).0,
        ) == (c, Some(k)),
{
    lemma_priority_stage(c, None, Some(k));
    assert(c + recurrence_text(Some(k)) =~= c + seq![' '] + crate::parser::recurrence_name(k));
    lemma_recurrence_stage(c, seq![' '], k);
}

#[verifier::spinoff_prover]
#[verifier::rlimit(100)]
proof fn lemma_stages_none(c: Seq<char>)
    requires
        plain_text(c),
    ensures
        crate::parser::stage_priority(c + priority_text(None) + recurrence_text(None)).1 == None::<u8>,
        crate::parser::stage_recurrence(
            crate::parser::stage_priority(c + priority_text(None) + recurrence_text(None)).0,
        ) == (c, None::<u8>),
{
    lemma_priority_stage(c, None, None);
    assert(c + recurrence_text(None) =~= c);
}

/// An entry rebuilt from a content, a priority and a recurrence, without a
/// due time or a ping interval, reads back as them: for a non-empty content
/// that reads back as itself with no priority and no recurrence, the text
/// `content`, then ` pN`, then the recurrence word (as
/// `reconstruct_task_input` writes it) gives the content, the priority and
/// the recurrence, and the same due date and ping interval as the content
/// alone.
#[verifier::spinoff_prover]
#[verifier::rlimit(100)]
pub proof fn law_rebuilt_entry_reads_back(c: Seq<char>, pr: Option<u8>, rec: Option<u8>)
    requires
        c.len() > 0,
        crate::parser::parsed_content(c) == c,
        crate::parser::parsed_priority(c) is None,
        crate::parser::parsed_recurrence(c) is None,
        pr matches Some(p) ==> 1 <= p <= 3,
        rec matches Some(k) ==> k <= 2,
    ensures
        ({
            let s = crate::parser::task_input_text(c, None, None, pr, recurrence_word(rec));
            &&& crate::parser::parsed_content(s) == c
            &&& crate::parser::parsed_priority(s) == pr
            &&& crate::parser::parsed_recurrence(s) == rec
            &&& crate::parser::parsed_due(s) == crate::parser::parsed_due(c)
            &&& crate::parser::parsed_ping(s) == crate::parser::parsed_ping(c)
        }),
{
    let s = crate::parser::task_input_text(c, None, None, pr, recurrence_word(rec));
    lemma_rebuilt_front(c, pr, rec);
    lemma_same_before_time(s, c);
}

/// Texts that reach the due-date stage alike parse alike from there on.
#[verifier::spinoff_prover]
#[verifier::rlimit(100)]
proof fn lemma_same_before_time(a: Seq<char>, b: Seq<char>)
    requires
        crate::parser::text_before_time(a) == crate::parser::text_before_time(b),
    ensures
        crate::parser::parsed_due(a) == crate::parser::parsed_due(b),
        crate::parser::parsed_ping(a) == crate::parser::parsed_ping(b),
        crate::parser::parsed_content(a) == crate::parser::parsed_content(b),
{
    assert(crate::parser::text_before_ping(a) == crate::parser::text_before_ping(b));
    assert(crate::parser::text_after_ping(a) == crate::parser::text_after_ping(b));
}

/// The priority and recurrence stages of a rebuilt entry.
#[verifier::spinoff_prover]
#[verifier::rlimit(100)]
proof fn lemma_rebuilt_front(c: Seq<char>, pr: Option<u8>, rec: Option<u8>)
    requires
        c.len() > 0,
        crate::parser::parsed_content(c) == c,
        crate::parser::parsed_priority(c) is None,
        crate::parser::parsed_recurrence(c) is None,
        pr matches Some(p) ==> 1 <= p <= 3,
        rec matches Some(k) ==> k <= 2,
    ensures
        ({
            let s = crate::parser::task_input_text(c, None, None, pr, recurrence_word(rec));
            &&& crate::parser::parsed_priority(s) == pr
            &&& crate::parser::parsed_recurrence(s) == rec
            &&& crate::parser::text_before_time(s) == c
            &&& crate::parser::text_before_time(c) == c
        }),
{
    let s = crate::parser::task_input_text(c, None, None, pr, recurrence_word(rec));
    lemma_plain_content(c);
    assert(s =~= c + priority_text(pr) + recurrence_text(rec));
    assert(crate::parser::stage_priority(c) == (c, None::<u8>));
    assert(crate::parser::stage_recurrence(c) == (c, None::<u8>));
    lemma_rebuilt_trim(c, pr, rec);
    assert(plain_text(c));
    match (pr, rec) {
        (Some(p), Some(k)) => lemma_stages_both(c, p, k),
        (Some(p), None) => lemma_stages_priority(c, p),
        (None, Some(k)) => lemma_stages_recurrence(c, k),
        (None, None) => lemma_stages_none(c),
    }
}

// ======================= what each operation is for =======================

/// An entry `in N m` (or `min`, `minutes`, ...) is due `N` minutes after
/// the moment of parsing, and an entry `in N h` (or `hr`, `hours`, ...) `N`
/// hours after it: sixty times as far. Where that moment would leave the
/// calendar chrono represents, there is no due time.
#[verifier::spinoff_prover]
pub proof fn law_in_amount_is_after_now(
    input: Seq<char>,
    now: crate::clock::LocalNow,
    due_at: Option<i64>,
    amount: u64,
    minutes: bool,
)
    requires
        now.wf(),
        amount <= 1_000_000,
        crate::parser::parsed_due(input) == Some(crate::grammar::TimeToken::In { amount, minutes }),
        crate::parser::due_outcome(input, now, due_at),
    ensures
        ({
            let later = if minutes {
                now.millis + amount * 60_000
            } else {
                now.millis + amount * 60 * 60_000
            };
            &&& crate::clock::in_calendar(later) ==> due_at == Some(later as i64)
            &&& !crate::clock::in_calendar(later) ==> due_at is None
        }),
{
    lemma_in_plan(amount, minutes, now);
}

/// The plan of `in N unit`: an offset of `N` units.
#[verifier::spinoff_prover]
proof fn lemma_in_plan(amount: u64, minutes: bool, now: crate::clock::LocalNow)
    requires
        amount <= 1_000_000,
    ensures
        crate::parser::due_plan(crate::grammar::TimeToken::In { amount, minutes }, now) == (
        crate::parser::DuePlan::Offset {
            millis: (if minutes {
                amount * 60_000
            } else {
                amount * 60 * 60_000
            }) as i64,
        }),
{
}

/// A task that is open, has a ping interval of `p > 0` minutes, has never
/// been pinged and whose due time lies at least `p` minutes in the past is
/// reminded, and the check records `now` as its last ping.
pub proof fn law_overdue_task_is_pinged(t: Task, now: i64, p: i64, due: i64)
    requires
        !t.completed,
        t.ping_interval == Some(p),
        p > 0,
        t.last_ping_at is None,
        t.due_at == Some(due),
        now - due >= p * 60_000,
    ensures
        ping_step(t, now) is Remind,
        pinged(t, now).last_ping_at == Some(now),
{
}

/// A pinged task is reminded again exactly when `p` minutes have passed
/// since its last ping; a task due in the future that was never pinged is
/// not reminded yet; one with neither starts counting now.
pub proof fn law_ping_waits_one_interval(t: Task, now: i64, p: i64)
    requires
        !t.completed,
        t.ping_interval == Some(p),
        p > 0,
    ensures
        t.last_ping_at matches Some(last) ==> (ping_step(t, now) is Remind <==> now - last >= p * 60_000),
        t.last_ping_at matches Some(last) ==> (ping_step(t, now) is Skip <==> now - last < p * 60_000),
        (t.last_ping_at is None && (t.due_at matches Some(d) && now < d)) ==> ping_step(t, now) is Skip,
        (t.last_ping_at is None && t.due_at is None) ==> ping_step(t, now) is Start
            && pinged(t, now).last_ping_at == Some(now),
{
}

/// The countdown of a task pinged at `last` with an interval of `i`
/// minutes counts to `last + i` minutes: it reads `now!` exactly when that
/// moment has come, and while between one minute and an hour remains it
/// shows the whole minutes left.
pub proof fn law_countdown_counts_to_next_ping(last: i64, i: i64, due_at: Option<i64>, now: int)
    ensures
        crate::parser::countdown_text(Some(last), Some(i), due_at, now) == Some(seq!['n', 'o', 'w', '!'])
            <==> now >= last + i * 60_000,
        (60_000 <= last + i * 60_000 - now < 3_600_000) ==> crate::parser::countdown_text(
            Some(last),
            Some(i),
            due_at,
            now,
        ) == Some(decimal(((last + i * 60_000 - now) / 60_000) as nat) + seq!['m']),
{
    let rem = last + i * 60_000 - now;
    if rem > 0 {
        let m = rem / 60_000;
        let t = crate::parser::remaining_text(rem);
        if m >= 60 {
            assert(t.last() == 'm');
        } else {
            assert(t.last() == 'm');
        }
        assert(t != seq!['n', 'o', 'w', '!']) by {
            assert(t.last() != seq!['n', 'o', 'w', '!'].last());
        }
    }
}

/// In the today view, open tasks come before completed ones, and among
/// tasks alike in completion and priority, an earlier due time comes first.
pub proof fn law_today_by_due_time(s: Seq<Task>, i: int, j: int)
    requires
        crate::order::sorted_by(2, s),
        0 <= i < j < s.len(),
    ensures
        s[i].completed ==> s[j].completed,
        (s[i].completed == s[j].completed && s[i].priority == s[j].priority) ==> (
        s[i].due_at matches Some(a) ==> (s[j].due_at matches Some(b) ==> a <= b)),
{
}

/// An imported record keeps its recurrence when it is `daily`, `weekly` or
/// `monthly`, and drops any other.
pub proof fn law_import_keeps_recurrence(rec: crate::import::ImportTask, t: Task, lists: Seq<List>)
    requires
        crate::import::imported(rec, t, lists),
    ensures
        rec.recurrence matches Some(x) ==> ((x@ == seq!['d', 'a', 'i', 'l', 'y'] || x@ == seq![
            'w',
            'e',
            'e',
            'k',
            'l',
            'y',
        ] || x@ == seq!['m', 'o', 'n', 't', 'h', 'l', 'y']) ==> (t.recurrence matches Some(y) && y@ == x@)),
        rec.recurrence matches Some(x) ==> (!(x@ == seq!['d', 'a', 'i', 'l', 'y'] || x@ == seq![
            'w',
            'e',
            'e',
            'k',
            'l',
            'y',
        ] || x@ == seq!['m', 'o', 'n', 't', 'h', 'l', 'y']) ==> t.recurrence is None),
        rec.recurrence is None ==> t.recurrence is None,
{
}

/// The due-date words that name a day give that day at the hour they say,
/// 9:00 when they say none: `tomorrow` is the next day, `next week` seven
/// days on, a day name the next such weekday (one to seven days on), and
/// `H pm` is `H + 12` o'clock (`12 pm` noon, `12 am` midnight).
pub proof fn law_day_words(now: crate::clock::LocalNow, day: u32, hour: u32, minute: Option<u32>)
    requires
        now.wf(),
        day < 7,
    ensures
        crate::parser::due_plan(crate::grammar::TimeToken::Tomorrow, now) == (crate::parser::DuePlan::OnDay {
            days: 1,
            hour: 9,
            minute: 0,
        }),
        crate::parser::due_plan(crate::grammar::TimeToken::NextWeek, now) == (crate::parser::DuePlan::OnDay {
            days: 7,
            hour: 9,
            minute: 0,
        }),
        crate::parser::due_plan(crate::grammar::TimeToken::Day { day }, now) matches crate::parser::DuePlan::OnDay {
            days,
            hour: h,
            minute: m,
        } && 1 <= days <= 7 && (now.weekday + days) % 7 == day && h == 9 && m == 0,
        1 <= hour <= 11 ==> (crate::parser::due_plan(
            crate::grammar::TimeToken::TomorrowAt { hour, minute, pm: Some(true) },
            now,
        ) matches crate::parser::DuePlan::OnDay { days: 1, hour: h, minute: m } && h == hour + 12 && m == (
        match minute {
            Some(v) => v,
            None => 0,
        })),
        crate::parser::due_plan(crate::grammar::TimeToken::TodayAt { hour: 12, minute, pm: Some(true) }, now)
            matches crate::parser::DuePlan::OnDay { days: 0, hour: 12, .. },
        crate::parser::due_plan(crate::grammar::TimeToken::TodayAt { hour: 12, minute, pm: Some(false) }, now)
            matches crate::parser::DuePlan::OnDay { days: 0, hour: 0, .. },
{
}

/// A recurrence without a due date is first due at 9:00 a day (daily), a
/// week (weekly) or thirty days (monthly) on.
pub proof fn law_recurrence_first_due()
    ensures
        crate::parser::default_plan(0) == (crate::parser::DuePlan::OnDay { days: 1, hour: 9, minute: 0 }),
        crate::parser::default_plan(1) == (crate::parser::DuePlan::OnDay { days: 7, hour: 9, minute: 0 }),
        crate::parser::default_plan(2) == (crate::parser::DuePlan::OnDay { days: 30, hour: 9, minute: 0 }),
{
}

/// A task never pinged counts from its due time once that has passed:
/// before it, the countdown reads `at due`; after it, `now!` exactly when
/// `i` minutes have passed since the due time. Without an interval there
/// is no countdown.
pub proof fn law_countdown_from_due(i: i64, d: i64, now: int)
    ensures
        now < d ==> crate::parser::countdown_text(None, Some(i), Some(d), now) == Some(seq!['a', 't', ' ', 'd', 'u', 'e']),
        now >= d ==> (crate::parser::countdown_text(None, Some(i), Some(d), now) == Some(seq!['n', 'o', 'w', '!'])
            <==> now >= d + i * 60_000),
        crate::parser::countdown_text(None, Some(i), None, now) is None,
        forall|l: Option<i64>, due: Option<i64>| #[trigger] crate::parser::countdown_text(l, None, due, now) is None,
{
    let rem = d + i * 60_000 - now;
    if now >= d && rem > 0 {
        let t = crate::parser::remaining_text(rem);
        assert(t.last() == 'm');
        assert(t != seq!['n', 'o', 'w', '!']) by {
            assert(t.last() != seq!['n', 'o', 'w', '!'].last());
        }
    }
}

/// In the today view, among tasks alike in completion, a higher priority
/// (a smaller level) comes first; a task without one sorts as level 4.
pub proof fn law_today_by_priority(s: Seq<Task>, i: int, j: int)
    requires
        crate::order::sorted_by(2, s),
        0 <= i < j < s.len(),
        s[i].completed == s[j].completed,
    ensures
        s[i].priority is None ==> (s[j].priority matches Some(b) ==> b >= 4),
        s[i].priority matches Some(a) ==> (s[j].priority matches Some(b) ==> a <= b),
{
}

/// Within a list, open tasks come before completed ones; among tasks alike
/// in completion, a higher priority comes first (a task without one sorts
/// as level 4), and among those alike in priority too, a smaller sort
/// order.
pub proof fn law_list_order(s: Seq<Task>, i: int, j: int)
    requires
        crate::order::sorted_by(0, s),
        0 <= i < j < s.len(),
    ensures
        s[i].completed ==> s[j].completed,
        s[i].completed == s[j].completed ==> (s[i].priority is None ==> (s[j].priority matches Some(b) ==> b
            >= 4)),
        s[i].completed == s[j].completed ==> (s[i].priority matches Some(a) ==> (s[j].priority matches Some(
            b,
        ) ==> a <= b)),
        (s[i].completed == s[j].completed && s[i].priority == s[j].priority) ==> s[i].sort_order
            <= s[j].sort_order,
{
}

/// An imported record keeps a priority of 1, 2 or 3 and drops any other.
pub proof fn law_import_keeps_priority(rec: crate::import::ImportTask, t: Task, lists: Seq<List>)
    requires
        crate::import::imported(rec, t, lists),
    ensures
        rec.priority matches Some(p) ==> (1 <= p <= 3 ==> t.priority == Some(p)),
        rec.priority matches Some(p) ==> (!(1 <= p <= 3) ==> t.priority is None),
        rec.priority is None ==> t.priority is None,
        t.content@ == rec.content@,
        !t.completed,
{
}

/// A reminder names the task: past its due time the text is the content
/// and ` (overdue)`, and it is urgent exactly for a priority-1 task that is
/// overdue; a task without a due time is reminded by its content alone.
pub proof fn law_reminder_text(t: Task, now: i64, r: crate::pings::Reminder)
    requires
        crate::pings::reminder_for(t, now, r),
    ensures
        (t.due_at matches Some(d) && d < now) ==> r.body@ == t.content@ + seq![
            ' ',
            '(',
            'o',
            'v',
            'e',
            'r',
            'd',
            'u',
            'e',
            ')',
        ],
        t.due_at is None ==> r.body@ == t.content@ && !r.urgent,
        r.urgent <==> (t.priority == Some(1u8) && (t.due_at matches Some(d) && d < now)),
        (t.due_at matches Some(d) && d >= now) ==> r.body@.take(t.content@.len() as int) == t.content@,
{
    if let Some(d) = t.due_at {
        if d >= now {
            let b = r.body@;
            assert(b.take(t.content@.len() as int) =~= t.content@);
        }
    }
}

} // verus!
