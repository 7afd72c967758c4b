//! Ping reminders: which open tasks with a ping interval are due for a
//! reminder, what the reminder says, and the bookkeeping of the last ping.
//! The application and the daemon run the same check; showing the
//! reminders is theirs.
use vstd::prelude::*;

use crate::clock::in_local_range;
use crate::db::{
    copy_task, keep, lemma_keep_complete, lemma_keep_step, lemma_keep_sub, tasks_unique, Database,
    Task,
};
use crate::parser::{due_date_text, format_due_date};
use crate::text::{chars_of, push_all, push_vec, string_of};

verus! {

/// What a check does with one task.
pub enum PingStep {
    /// nothing yet
    Skip,
    /// the countdown starts now: the current time is recorded as its last
    /// ping, without a reminder
    Start,
    /// a reminder is due; the current time becomes its last ping
    Remind,
}

/// A reminder to show.
pub struct Reminder {
    pub body: String,
    /// a priority-1 task past its due time
    pub urgent: bool,
}

/// The ping interval in milliseconds (0 without one).
pub open spec fn interval_ms(t: Task) -> int {
    match t.ping_interval {
        Some(p) => p * 60000,
        None => 0,
    }
}

/// The step for task `t` at time `now`: counted from its last ping, or
/// from its due time once that has passed; a task without either starts
/// counting now.
pub open spec fn ping_step(t: Task, now: i64) -> PingStep {
    if interval_ms(t) <= 0 {
        PingStep::Skip
    } else {
        match t.last_ping_at {
            Some(last) => if now - last >= interval_ms(t) {
                PingStep::Remind
            } else {
                PingStep::Skip
            },
            None => match t.due_at {
                Some(due) => if now >= due && now - due >= interval_ms(t) {
                    PingStep::Remind
                } else {
                    PingStep::Skip
                },
                None => PingStep::Start,
            },
        }
    }
}

/// The arithmetic of the check stays within `i64` for `t`, and the local
/// time of a due time that the reminder shows is one chrono represents in
/// every time zone.
pub open spec fn ping_fits(t: Task, now: i64) -> bool {
    &&& i64::MIN <= interval_ms(t) <= i64::MAX
    &&& interval_ms(t) > 0 ==> match t.last_ping_at {
        Some(last) => i64::MIN <= now - last <= i64::MAX,
        None => true,
    }
    &&& t.due_at matches Some(d) ==> in_local_range(d as int) && i64::MIN <= now - d <= i64::MAX
}

/// The open tasks with a ping interval.
pub open spec fn pingable(t: Task) -> bool {
    !t.completed && t.ping_interval is Some
}

/// Every task the check looks at fits.
pub open spec fn pings_fit(ts: Seq<Task>, now: i64) -> bool {
    forall|k: int| 0 <= k < ts.len() && pingable(#[trigger] ts[k]) ==> ping_fits(ts[k], now)
}

/// `t` after the check: its last ping is now unless it was skipped.
pub open spec fn pinged(t: Task, now: i64) -> Task {
    if pingable(t) && !(ping_step(t, now) is Skip) {
        Task { last_ping_at: Some(now), ..t }
    } else {
        t
    }
}

pub open spec fn overdue_label() -> Seq<char> {
    seq![' ', '(', 'o', 'v', 'e', 'r', 'd', 'u', 'e', ')']
}

pub open spec fn due_label() -> Seq<char> {
    seq![' ', '(', 'd', 'u', 'e', ' ']
}

/// `r` is the reminder for `t` at `now`: the task's content, with
/// `(overdue)` or `(due …)` when it has a due time; urgent for a priority-1
/// task that is overdue.
pub open spec fn reminder_for(t: Task, now: i64, r: Reminder) -> bool {
    &&& r.urgent == (t.priority == Some(1u8) && (t.due_at matches Some(d) && d < now))
    &&& match t.due_at {
        Some(d) => if d < now {
            r.body@ == t.content@ + overdue_label()
        } else {
            exists|a: bool, b: bool, w: Seq<char>, x: Seq<char>|
                r.body@ == t.content@ + due_label() + #[trigger] due_date_text(a, b, w, x) + seq![')']
        },
        None => r.body@ == t.content@,
    }
}

/// The effect of a ping check at `now` on the store `before`, giving `after`
/// and the reminders `r`: each pinged task has its last ping updated, and
/// the reminders are those of the tasks due for one, in store order.
pub open spec fn pings_checked(before: Database, after: Database, now: i64, r: Seq<Reminder>) -> bool {
    &&& after.lists@ == before.lists@
    &&& after.tasks@ == Seq::new(before.tasks@.len(), |k: int| pinged(before.tasks@[k], now))
    &&& r.len() == reminded(before.tasks@, now).len()
    &&& forall|k: int| 0 <= k < r.len() ==> reminder_for(reminded(before.tasks@, now)[k], now, #[trigger] r[k])
}

/// The tasks that get a reminder, in store order.
pub open spec fn reminded(ts: Seq<Task>, now: i64) -> Seq<Task> {
    keep(ts, |t: Task| pingable(t) && ping_step(t, now) is Remind)
}

/// Executable `pings_fit`.
pub fn pings_fit_exec(ts: &Vec<Task>, now: i64) -> (r: bool)
    ensures
        r == pings_fit(ts@, now),
{
    let mut i: usize = 0;
    while i < ts.len()
        invariant
            i <= ts.len(),
            forall|k: int| 0 <= k < i && pingable(#[trigger] ts@[k]) ==> ping_fits(ts@[k], now),
        decreases ts.len() - i,
    {
        let t = &ts[i];
        if !t.completed && t.ping_interval.is_some() {
            let p: i128 = match t.ping_interval {
                Some(p) => p as i128,
                None => 0,
            };
            let ms: i128 = p * 60000;
            if ms < i64::MIN as i128 || ms > i64::MAX as i128 {
                return false;
            }
            if ms > 0 {
                match t.last_ping_at {
                    Some(last) => {
                        let gap: i128 = now as i128 - last as i128;
                        if gap < i64::MIN as i128 || gap > i64::MAX as i128 {
                            return false;
                        }
                    },
                    None => {},
                }
            }
            match t.due_at {
                Some(d) => {
                    if d < crate::clock::MIN_LOCAL_MILLIS || d > crate::clock::MAX_LOCAL_MILLIS {
                        return false;
                    }
                    let gap: i128 = now as i128 - d as i128;
                    if gap < i64::MIN as i128 || gap > i64::MAX as i128 {
                        return false;
                    }
                },
                None => {},
            }
        }
        i += 1;
    }
    true
}

/// Executable `ping_step`.
pub fn ping_step_of(t: &Task, now: i64) -> (r: PingStep)
    requires
        ping_fits(*t, now),
    ensures
        r == ping_step(*t, now),
{
    let interval: i64 = match t.ping_interval {
        Some(p) => p * 60 * 1000,
        None => 0,
    };
    if interval <= 0 {
        return PingStep::Skip;
    }
    match t.last_ping_at {
        Some(last) => if now - last >= interval {
            PingStep::Remind
        } else {
            PingStep::Skip
        },
        None => match t.due_at {
            Some(due) => {
                if now >= due {
                    if now - due >= interval {
                        PingStep::Remind
                    } else {
                        PingStep::Skip
                    }
                } else {
                    PingStep::Skip
                }
            },
            None => PingStep::Start,
        },
    }
}

/// The reminder for `t` at `now`.
pub fn reminder_of(t: &Task, now: i64) -> (r: Reminder)
    requires
        t.due_at matches Some(d) ==> in_local_range(d as int),
    ensures
        reminder_for(*t, now, r),
{
    let mut body = chars_of(t.content.as_str());
    let overdue = match t.due_at {
        Some(d) => d < now,
        None => false,
    };
    match t.due_at {
        Some(d) => {
            if d < now {
                push_all(&mut body, &[' ', '(', 'o', 'v', 'e', 'r', 'd', 'u', 'e', ')']);
            } else {
                push_all(&mut body, &[' ', '(', 'd', 'u', 'e', ' ']);
                let when = format_due_date(d);
                let wv = chars_of(when.as_str());
                let ghost head = body@;
                push_vec(&mut body, &wv);
                body.push(')');
                proof {
                    let (a, b, w, x) = choose|a: bool, b: bool, w: Seq<char>, x: Seq<char>|
                        when@ == due_date_text(a, b, w, x);
                    assert(body@ == t.content@ + due_label() + due_date_text(a, b, w, x) + seq![')']);
                }
            }
        },
        None => {},
    }
    let urgent = match t.priority {
        Some(p) => p == 1 && overdue,
        None => false,
    };
    Reminder { body: string_of(&body), urgent }
}

/// Runs one check over the store at time `now`: each open task with a ping
/// interval that is due for a reminder gets one, and it and each task that
/// starts counting get `now` as their last ping. Returns the reminders, in
/// store order.
pub fn check_pings(db: &mut Database, now: i64) -> (r: Vec<Reminder>)
    requires
        old(db).wf(),
        pings_fit(old(db).tasks@, now),
    ensures
        final(db).wf(),
        pings_checked(*old(db), *final(db), now, r@),
{
    let ghost orig = db.tasks@;
    let ghost pp = |t: Task| !t.completed && t.ping_interval is Some;
    let ghost rp = |t: Task| pingable(t) && ping_step(t, now) is Remind;
    let tasks = db.get_pingable_tasks();
    proof {
        assert(pp == (|t: Task| !t.completed && t.ping_interval is Some));
        lemma_keep_sub(orig, pp);
    }
    let mut out: Vec<Reminder> = Vec::new();
    let ghost mut touched: Set<Seq<char>> = Set::empty();
    let mut i: usize = 0;
    while i < tasks.len()
        invariant
            i <= tasks.len(),
            tasks@ == keep(orig, pp),
            pp == (|t: Task| !t.completed && t.ping_interval is Some),
            rp == (|t: Task| pingable(t) && ping_step(t, now) is Remind),
            forall|k: int|
                0 <= k < tasks@.len() ==> orig.contains(#[trigger] tasks@[k]) && pp(tasks@[k]),
            db.wf(),
            tasks_unique(orig),
            pings_fit(orig, now),
            db.lists@ == old(db).lists@,
            orig == old(db).tasks@,
            db.tasks@ == Seq::new(
                orig.len(),
                |k: int|
                    if touched.contains(orig[k].id@) {
                        Task { last_ping_at: Some(now), ..orig[k] }
                    } else {
                        orig[k]
                    },
            ),
            forall|id: Seq<char>|
                #[trigger] touched.contains(id) ==> exists|j: int|
                    0 <= j < i && (#[trigger] tasks@[j]).id@ == id && !(ping_step(tasks@[j], now) is Skip),
            forall|j: int|
                0 <= j < i && !(ping_step(#[trigger] tasks@[j], now) is Skip) ==> touched.contains(
                    tasks@[j].id@,
                ),
            out@.len() == keep(tasks@.take(i as int), rp).len(),
            forall|k: int|
                0 <= k < out@.len() ==> reminder_for(keep(tasks@.take(i as int), rp)[k], now, #[trigger] out@[k]),
        decreases tasks.len() - i,
    {
        let t = copy_task(&tasks[i]);
        proof {
            assert(orig.contains(tasks@[i as int]));
            let m = choose|m: int| 0 <= m < orig.len() && orig[m] == tasks@[i as int];
            assert(pingable(orig[m]));
            assert(ping_fits(orig[m], now));
            lemma_keep_step(tasks@, i as int, rp);
        }
        let step = ping_step_of(&t, now);
        let ghost before = db.tasks@;
        match step {
            PingStep::Skip => {},
            PingStep::Start => {
                db.update_last_ping_at(t.id.as_str(), now);
            },
            PingStep::Remind => {
                let rm = reminder_of(&t, now);
                out.push(rm);
                db.update_last_ping_at(t.id.as_str(), now);
            },
        }
        proof {
            let ghost new_touched = if step is Skip {
                touched
            } else {
                touched.insert(t.id@)
            };
            assert(db.tasks@ =~= Seq::new(
                orig.len(),
                |k: int|
                    if new_touched.contains(orig[k].id@) {
                        Task { last_ping_at: Some(now), ..orig[k] }
                    } else {
                        orig[k]
                    },
            ));
            touched = new_touched;
            assert forall|k: int|
                0 <= k < out@.len() implies reminder_for(
                keep(tasks@.take(i + 1), rp)[k],
                now,
                #[trigger] out@[k],
            ) by {
                if k < keep(tasks@.take(i as int), rp).len() {
                    assert(keep(tasks@.take(i + 1), rp)[k] == keep(tasks@.take(i as int), rp)[k]);
                }
            }
        }
        i += 1;
    }
    proof {
        assert(tasks@.take(tasks@.len() as int) =~= tasks@);
        assert(keep(tasks@, rp) == reminded(orig, now)) by {
            lemma_keep_of_keep(orig, pp, rp);
            assert(rp == (|t: Task| pingable(t) && ping_step(t, now) is Remind));
        }
        assert forall|k: int| 0 <= k < orig.len() implies #[trigger] db.tasks@[k] == pinged(orig[k], now) by {
            let t = orig[k];
            if touched.contains(t.id@) {
                let j = choose|j: int|
                    0 <= j < tasks@.len() && (#[trigger] tasks@[j]).id@ == t.id@ && !(ping_step(tasks@[j], now) is Skip);
                assert(orig.contains(tasks@[j]));
                let m = choose|m: int| 0 <= m < orig.len() && orig[m] == tasks@[j];
                assert(m == k);
            } else if pingable(t) {
                lemma_keep_complete(orig, pp, k);
                let j = choose|j: int| 0 <= j < tasks@.len() && tasks@[j] == t;
                assert(ping_step(tasks@[j], now) is Skip);
            }
        }
        assert(db.tasks@ =~= Seq::new(orig.len(), |k: int| pinged(orig[k], now)));
    }
    out
}

/// Keeping the tasks that pass `q` among those that pass `p` keeps those
/// that pass both, when `q` implies `p`.
pub proof fn lemma_keep_of_keep(ts: Seq<Task>, p: spec_fn(Task) -> bool, q: spec_fn(Task) -> bool)
    requires
        forall|t: Task| #[trigger] q(t) ==> p(t),
    ensures
        keep(keep(ts, p), q) == keep(ts, q),
    decreases ts.len(),
{
    if ts.len() > 0 {
        lemma_keep_of_keep(ts.drop_last(), p, q);
        if p(ts.last()) {
            assert(keep(ts, p).drop_last() =~= keep(ts.drop_last(), p));
        }
    }
}

} // verus!
