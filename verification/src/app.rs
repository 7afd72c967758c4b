//! The state of the terminal application and every action a key or a
//! click performs on it: the visible task list, search, the input line and
//! the edits it sends to the store.
use vstd::prelude::*;
use vstd::view::View as _;

use crate::cli::list_name_of;
use crate::clock::{in_calendar, local_millis_at, local_now, now_millis, LocalNow, MAX_MILLIS};
use crate::db::{
    copy_task, created_task, due_by, edit_where, first_named, keep, keep_lists, list_exists, opt_view, swapped_orders,
    task_exists, updated_with, Database, Edit, List, Task,
};
use crate::editing::{
    byte_len, char_at_byte, char_index, char_width, last_ws, last_ws_exec, lemma_byte_len_split,
    lemma_byte_len_take, lemma_char_at_byte_complete, lemma_char_at_byte_sound, lemma_last_ws,
    lemma_width, width, ws_start_exec,
};
use crate::order::sorted_by;
use crate::parser::{
    accepts_entry, due_date_text, due_words_text, format_due_date, format_ping_interval,
    next_recurrence_due, parse_task_input, parsed_as, ping_interval_text, reconstruct_task_input,
    recurrence_step, task_input_text, ParsedTask,
};
use crate::text::{
    chars_of, decimal, is_ws, push_all, push_decimal, string_of, trim, trim_chars, ws_start,
};

verus! {

broadcast use vstd::seq_lib::group_to_multiset_ensures;

/// What the screen shows besides the task list.
#[derive(Debug, Clone, Copy, PartialEq, Eq, Structural)]
pub enum View {
    Tasks,
    NewList,
    RenameList,
    ConfirmDeleteList,
    ConfirmDeleteTask,
    Help,
}

/// Whether keys move around or type into the input line.
#[derive(Debug, Clone, Copy, PartialEq, Eq, Structural)]
pub enum InputMode {
    Normal,
    Insert,
}

/// A row of the task list: a task (by its index in `App::tasks`) or the
/// heading above the completed tasks.
#[derive(Debug, Clone)]
pub enum VisibleEntry {
    Task(usize),
    Separator(String),
}

/// The application state.
pub struct App {
    pub db: Database,
    pub lists: Vec<List>,
    pub tasks: Vec<Task>,
    pub filtered_indices: Vec<usize>,
    pub selected_list: usize,
    pub selected_task: usize,
    pub scroll_offset: usize,
    pub input: String,
    /// a byte offset into `input`
    pub cursor_pos: usize,
    pub input_mode: InputMode,
    pub view: View,
    pub show_completed: bool,
    pub search_mode: bool,
    pub editing_task_id: Option<String>,
    pub should_quit: bool,
    pub status_message: Option<String>,
    /// the task whose details are shown below the list
    pub expanded_task_id: Option<String>,
    /// the tasks shown are those due by the end of today, from every list
    pub viewing_today: bool,
    /// the last millisecond of the day whose tasks the today view shows
    pub today_end: i64,
    /// when the last ping check ran, in milliseconds since the epoch
    pub last_ping_check: i64,
}

// ======================= what is shown =======================

/// The indices of `f` that name open tasks, in order.
pub open spec fn open_of(tasks: Seq<Task>, f: Seq<usize>) -> Seq<usize>
    decreases f.len(),
{
    if f.len() == 0 {
        Seq::<usize>::empty()
    } else if (f.last() as int) < tasks.len() && !tasks[f.last() as int].completed {
        open_of(tasks, f.drop_last()).push(f.last())
    } else {
        open_of(tasks, f.drop_last())
    }
}

/// The indices of `f` that name completed tasks, in order.
pub open spec fn done_of(tasks: Seq<Task>, f: Seq<usize>) -> Seq<usize>
    decreases f.len(),
{
    if f.len() == 0 {
        Seq::<usize>::empty()
    } else if (f.last() as int) < tasks.len() && tasks[f.last() as int].completed {
        done_of(tasks, f.drop_last()).push(f.last())
    } else {
        done_of(tasks, f.drop_last())
    }
}

/// The tasks that can be selected, in screen order: open ones first, then
/// the completed ones when they are shown.
pub open spec fn selectable(tasks: Seq<Task>, f: Seq<usize>, show_completed: bool) -> Seq<usize> {
    if show_completed {
        open_of(tasks, f) + done_of(tasks, f)
    } else {
        open_of(tasks, f)
    }
}

/// `completed (N)`.
pub open spec fn separator_label(n: nat) -> Seq<char> {
    seq!['c', 'o', 'm', 'p', 'l', 'e', 't', 'e', 'd', ' ', '('] + decimal(n) + seq![')']
}

/// The selection moved into `0..count` (0 when nothing can be selected).
pub open spec fn clamped(sel: usize, count: nat) -> usize {
    if count == 0 {
        0
    } else if sel >= count {
        (count - 1) as usize
    } else {
        sel
    }
}

/// The tasks due at or before `end`, from every list, as the today view
/// lists them: open before done, then by priority, then by due time.
pub open spec fn today_tasks(store: Seq<Task>, end: i64, r: Seq<Task>) -> bool {
    &&& sorted_by(2, r)
    &&& r.to_multiset() == keep(store, |t: Task| due_by(t, end)).to_multiset()
}

/// The tasks of a list as the store lists them.
pub open spec fn list_tasks(store: Seq<Task>, list_id: Seq<char>, r: Seq<Task>) -> bool {
    &&& sorted_by(0, r)
    &&& r.to_multiset() == keep(store, |t: Task| t.list_id@ == list_id).to_multiset()
}

// ======================= search =======================

/// What `SkimMatcherV2::default().fuzzy_match(choice, pattern)` returns.
pub uninterp spec fn skim_score(choice: Seq<char>, pattern: Seq<char>) -> Option<i64>;

/// `fuzzy_matcher::skim::SkimMatcherV2::default()` and
/// `FuzzyMatcher::fuzzy_match`: the score of `pattern` as a fuzzy match
/// within `choice`, or `None` when it does not match. The score is a
/// function of the two texts, which the contract names; nothing more of it
/// is stated.
#[verifier::external_body]
fn fuzzy_score(choice: &str, pattern: &str) -> (r: Option<i64>)
    ensures
        r == skim_score(choice@, pattern@),
{
    fuzzy_matcher::FuzzyMatcher::fuzzy_match(
        &fuzzy_matcher::skim::SkimMatcherV2::default(),
        choice,
        pattern,
    )
}

pub open spec fn score_of(tasks: Seq<Task>, pattern: Seq<char>, i: int) -> Option<i64> {
    skim_score(tasks[i].content@, pattern)
}

/// Task `a` is listed before task `b`: higher score first, ties in the
/// order of the tasks.
pub open spec fn ranks_before(tasks: Seq<Task>, pattern: Seq<char>, a: int, b: int) -> bool {
    let sa = score_of(tasks, pattern, a)->0;
    let sb = score_of(tasks, pattern, b)->0;
    sa > sb || (sa == sb && a < b)
}

/// `r` lists exactly the tasks that match `pattern`, best score first.
pub open spec fn search_result(tasks: Seq<Task>, pattern: Seq<char>, r: Seq<usize>) -> bool {
    &&& forall|k: int|
        0 <= k < r.len() ==> (#[trigger] r[k] as int) < tasks.len() && score_of(
            tasks,
            pattern,
            r[k] as int,
        ) is Some
    &&& forall|i: int|
        0 <= i < tasks.len() && (#[trigger] score_of(tasks, pattern, i)) is Some ==> r.contains(
            i as usize,
        )
    &&& forall|a: int, b: int|
        0 <= a < b < r.len() ==> ranks_before(tasks, pattern, #[trigger] r[a] as int, #[trigger] r[b] as int)
}

/// The indices shown: the search result while searching with a nonempty
/// input, otherwise every task in order.
pub open spec fn filter_shows(tasks: Seq<Task>, search: bool, input: Seq<char>, r: Seq<usize>) -> bool {
    if search && input.len() > 0 {
        search_result(tasks, input, r)
    } else {
        r == Seq::new(tasks.len(), |i: int| i as usize)
    }
}

// ======================= the state =======================

impl App {
    /// The screen's lists are the store's, and the cursor sits between two
    /// characters of the input.
    pub open spec fn wf(&self) -> bool {
        &&& self.db.wf()
        &&& self.lists@ == self.db.lists@
        &&& char_at_byte(self.input@, self.cursor_pos as int) is Some
    }

    pub open spec fn current_list_spec(&self) -> Option<List> {
        if self.selected_list < self.lists@.len() {
            Some(self.lists@[self.selected_list as int])
        } else {
            None
        }
    }

    /// `tasks` holds the tasks of the current list as the store lists them,
    /// or in the today view the tasks due by the end of the day.
    pub open spec fn tasks_loaded(&self) -> bool {
        if self.viewing_today {
            today_tasks(self.db.tasks@, self.today_end, self.tasks@)
        } else {
            match self.current_list_spec() {
                Some(l) => list_tasks(self.db.tasks@, l.id@, self.tasks@),
                None => self.tasks@.len() == 0,
            }
        }
    }

    pub open spec fn selectable_spec(&self) -> Seq<usize> {
        selectable(self.tasks@, self.filtered_indices@, self.show_completed)
    }

    /// `tasks` reloaded, the filter applied and the selection clamped, from
    /// a selection of `sel`.
    pub open spec fn refreshed_from(&self, sel: usize) -> bool {
        &&& self.tasks_loaded()
        &&& filter_shows(self.tasks@, self.search_mode, self.input@, self.filtered_indices@)
        &&& self.selected_task == clamped(sel, self.selectable_spec().len())
    }

    /// The fields that only the input line and the dialogs change.
    pub open spec fn same_ui(&self, other: &App) -> bool {
        &&& self.input == other.input
        &&& self.cursor_pos == other.cursor_pos
        &&& self.input_mode == other.input_mode
        &&& self.view == other.view
        &&& self.show_completed == other.show_completed
        &&& self.search_mode == other.search_mode
        &&& self.editing_task_id == other.editing_task_id
        &&& self.should_quit == other.should_quit
        &&& self.scroll_offset == other.scroll_offset
        &&& self.expanded_task_id == other.expanded_task_id
        &&& self.viewing_today == other.viewing_today
    }

    /// The state over the store `db`: its first list shown, nothing typed.
    pub fn new(db: Database) -> (r: App)
        requires
            db.wf(),
        ensures
            r.wf(),
            r.db == db,
            r.selected_list == 0,
            r.tasks_loaded(),
            r.filtered_indices@ == Seq::new(r.tasks@.len(), |i: int| i as usize),
            r.selected_task == 0,
            r.scroll_offset == 0,
            r.input@.len() == 0,
            r.cursor_pos == 0,
            r.input_mode == InputMode::Normal,
            r.view == View::Tasks,
            r.show_completed,
            !r.search_mode,
            r.editing_task_id is None,
            !r.should_quit,
            r.status_message is None,
    {
        let lists = db.get_all_lists();
        let tasks = if lists.len() > 0 {
            db.get_tasks_by_list(lists[0].id.as_str())
        } else {
            Vec::new()
        };
        let filtered_indices = all_indices(tasks.len());
        let input = String::new();
        proof {
            assert(char_at_byte(input@, 0) == Some(0int));
        }
        App {
            db,
            lists,
            tasks,
            filtered_indices,
            selected_list: 0,
            selected_task: 0,
            scroll_offset: 0,
            input,
            cursor_pos: 0,
            input_mode: InputMode::Normal,
            view: View::Tasks,
            show_completed: true,
            search_mode: false,
            editing_task_id: None,
            should_quit: false,
            status_message: None,
            expanded_task_id: None,
            viewing_today: false,
            today_end: 0,
            last_ping_check: now_millis(),
        }
    }

    /// The list being shown.
    pub fn current_list(&self) -> (r: Option<&List>)
        ensures
            match r {
                Some(l) => self.current_list_spec() == Some(*l),
                None => self.current_list_spec() is None,
            },
    {
        if self.selected_list < self.lists.len() {
            Some(&self.lists[self.selected_list])
        } else {
            None
        }
    }

    /// The id of the list being shown.
    pub fn current_list_id(&self) -> (r: Option<String>)
        ensures
            match r {
                Some(id) => self.current_list_spec() matches Some(l) && id == l.id,
                None => self.current_list_spec() is None,
            },
    {
        match self.current_list() {
            Some(l) => Some(l.id.clone()),
            None => None,
        }
    }

    /// Reloads the tasks of the current list, reapplies the search and
    /// clamps the selection.
    pub fn refresh_tasks(&mut self)
        requires
            old(self).wf(),
        ensures
            final(self).wf(),
            final(self).db == old(self).db,
            final(self).lists == old(self).lists,
            final(self).selected_list == old(self).selected_list,
            final(self).status_message == old(self).status_message,
            final(self).same_ui(old(self)),
            final(self).refreshed_from(old(self).selected_task),
    {
        if self.viewing_today {
            let end = end_of_today();
            self.today_end = end;
            self.tasks = self.db.get_today_tasks(end);
        } else {
            match self.current_list_id() {
                Some(list_id) => {
                    self.tasks = self.db.get_tasks_by_list(list_id.as_str());
                },
                None => {
                    self.tasks = Vec::new();
                },
            }
        }
        self.apply_filter();
    }

    /// Reloads the lists, keeping the selection within them.
    pub fn refresh_lists(&mut self)
        requires
            old(self).db.wf(),
            char_at_byte(old(self).input@, old(self).cursor_pos as int) is Some,
        ensures
            final(self).wf(),
            final(self).lists@ == old(self).db.lists@,
            final(self).selected_list == (if old(self).selected_list >= final(self).lists@.len()
                && final(self).lists@.len() > 0 {
                (final(self).lists@.len() - 1) as usize
            } else {
                old(self).selected_list
            }),
            final(self).db == old(self).db,
            final(self).tasks == old(self).tasks,
            final(self).filtered_indices == old(self).filtered_indices,
            final(self).selected_task == old(self).selected_task,
            final(self).status_message == old(self).status_message,
            final(self).same_ui(old(self)),
    {
        self.lists = self.db.get_all_lists();
        if self.selected_list >= self.lists.len() && self.lists.len() > 0 {
            self.selected_list = self.lists.len() - 1;
        }
    }

    /// Replaces the store with `db` and reloads the lists and tasks shown.
    pub fn restore_store(&mut self, db: Database)
        requires
            old(self).wf(),
            db.wf(),
        ensures
            final(self).wf(),
            final(self).db == db,
            final(self).lists@ == db.lists@,
            final(self).selected_list == (if old(self).selected_list >= db.lists@.len() && db.lists@.len() > 0 {
                (db.lists@.len() - 1) as usize
            } else {
                old(self).selected_list
            }),
            final(self).status_message == old(self).status_message,
            final(self).same_ui(old(self)),
            final(self).refreshed_from(old(self).selected_task),
    {
        self.db = db;
        self.refresh_lists();
        self.refresh_tasks();
    }

    /// The rows of the task list: the open tasks, then, when completed
    /// tasks are shown and there are any, a heading with their number and
    /// the completed tasks.
    pub fn visible_entries(&self) -> (r: Vec<VisibleEntry>)
        ensures
            visible_is(*self, r@),
    {
        let (opens, dones) = self.split_filtered();
        let mut entries: Vec<VisibleEntry> = Vec::new();
        let mut i: usize = 0;
        while i < opens.len()
            invariant
                i <= opens.len(),
                entries@.len() == i,
                forall|k: int| 0 <= k < i ==> entries@[k] == VisibleEntry::Task(opens@[k]),
            decreases opens.len() - i,
        {
            entries.push(VisibleEntry::Task(opens[i]));
            i += 1;
        }
        if self.show_completed && dones.len() > 0 {
            let mut label: Vec<char> = Vec::new();
            push_all(&mut label, &['c', 'o', 'm', 'p', 'l', 'e', 't', 'e', 'd', ' ', '(']);
            push_decimal(&mut label, dones.len() as u64);
            label.push(')');
            entries.push(VisibleEntry::Separator(string_of(&label)));
            let base = entries.len();
            let mut j: usize = 0;
            while j < dones.len()
                invariant
                    j <= dones.len(),
                    base == opens.len() + 1,
                    entries@.len() == base + j,
                    forall|k: int| 0 <= k < opens.len() ==> entries@[k] == VisibleEntry::Task(opens@[k]),
                    entries@[opens.len() as int] matches VisibleEntry::Separator(s) && s@
                        == separator_label(dones@.len()),
                    forall|k: int| 0 <= k < j ==> entries@[base + k] == VisibleEntry::Task(dones@[k]),
                decreases dones.len() - j,
            {
                entries.push(VisibleEntry::Task(dones[j]));
                j += 1;
            }
        }
        entries
    }

    /// The shown indices of open tasks and of completed tasks.
    fn split_filtered(&self) -> (r: (Vec<usize>, Vec<usize>))
        ensures
            r.0@ == open_of(self.tasks@, self.filtered_indices@),
            r.1@ == done_of(self.tasks@, self.filtered_indices@),
    {
        let f = &self.filtered_indices;
        let mut opens: Vec<usize> = Vec::new();
        let mut dones: Vec<usize> = Vec::new();
        let mut i: usize = 0;
        while i < f.len()
            invariant
                i <= f.len(),
                opens@ == open_of(self.tasks@, f@.take(i as int)),
                dones@ == done_of(self.tasks@, f@.take(i as int)),
            decreases f.len() - i,
        {
            let x = f[i];
            proof {
                assert(f@.take(i + 1).drop_last() =~= f@.take(i as int));
                assert(f@.take(i + 1).last() == x);
            }
            if x < self.tasks.len() {
                if self.tasks[x].completed {
                    dones.push(x);
                } else {
                    opens.push(x);
                }
            }
            i += 1;
        }
        proof {
            assert(f@.take(f@.len() as int) =~= f@);
        }
        (opens, dones)
    }

    /// The indices of the tasks that can be selected, in screen order.
    pub fn selectable_indices(&self) -> (r: Vec<usize>)
        ensures
            r@ == self.selectable_spec(),
    {
        let (mut opens, dones) = self.split_filtered();
        if self.show_completed {
            let mut j: usize = 0;
            let ghost o = opens@;
            while j < dones.len()
                invariant
                    j <= dones.len(),
                    opens@ == o + dones@.take(j as int),
                decreases dones.len() - j,
            {
                opens.push(dones[j]);
                proof {
                    assert(dones@.take(j + 1) =~= dones@.take(j as int).push(dones@[j as int]));
                }
                j += 1;
            }
            proof {
                assert(dones@.take(dones@.len() as int) =~= dones@);
            }
        }
        opens
    }

    /// How many tasks can be selected.
    pub fn selectable_count(&self) -> (r: usize)
        ensures
            r == self.selectable_spec().len(),
    {
        self.selectable_indices().len()
    }

    /// The index in `tasks` of the `n`-th selectable task.
    pub fn nth_selectable(&self, n: usize) -> (r: Option<usize>)
        ensures
            r == (if n < self.selectable_spec().len() {
                Some(self.selectable_spec()[n as int])
            } else {
                None
            }),
    {
        let s = self.selectable_indices();
        if n < s.len() {
            Some(s[n])
        } else {
            None
        }
    }

    /// The selected task, if any.
    pub open spec fn selected_index(&self) -> Option<int> {
        if self.selected_task < self.selectable_spec().len() && (self.selectable_spec()[self.selected_task as int] as int)
            < self.tasks@.len() {
            Some(self.selectable_spec()[self.selected_task as int] as int)
        } else {
            None
        }
    }

    /// The selected task.
    pub fn selected_task_data(&self) -> (r: Option<&Task>)
        ensures
            match r {
                Some(t) => self.selected_index() matches Some(i) && *t == self.tasks@[i],
                None => self.selected_index() is None,
            },
    {
        match self.nth_selectable(self.selected_task) {
            Some(i) => {
                if i < self.tasks.len() {
                    Some(&self.tasks[i])
                } else {
                    None
                }
            },
            None => None,
        }
    }

    /// Keeps the selection among the selectable tasks.
    pub fn clamp_selection(&mut self)
        ensures
            *final(self) == (App {
                selected_task: clamped(old(self).selected_task, old(self).selectable_spec().len()),
                ..*old(self)
            }),
    {
        let count = self.selectable_count();
        if count == 0 {
            self.selected_task = 0;
        } else if self.selected_task >= count {
            self.selected_task = count - 1;
        }
    }

    /// Recomputes the shown indices from the search and clamps the
    /// selection.
    fn apply_filter(&mut self)
        ensures
            filter_shows(final(self).tasks@, final(self).search_mode, final(self).input@, final(self).filtered_indices@),
            final(self).selected_task == clamped(old(self).selected_task, final(self).selectable_spec().len()),
            final(self).db == old(self).db,
            final(self).lists == old(self).lists,
            final(self).tasks == old(self).tasks,
            final(self).selected_list == old(self).selected_list,
            final(self).status_message == old(self).status_message,
            final(self).same_ui(old(self)),
            final(self).today_end == old(self).today_end,
    {
        if self.search_mode && !self.input.as_str().is_empty() {
            self.filtered_indices = search_tasks(&self.tasks, self.input.as_str());
        } else {
            self.filtered_indices = all_indices(self.tasks.len());
        }
        self.clamp_selection();
    }
}

/// `0..n`.
fn all_indices(n: usize) -> (r: Vec<usize>)
    ensures
        r@ == Seq::new(n as nat, |i: int| i as usize),
{
    let mut r: Vec<usize> = Vec::new();
    let mut i: usize = 0;
    while i < n
        invariant
            i <= n,
            r@ == Seq::new(i as nat, |k: int| k as usize),
        decreases n - i,
    {
        r.push(i);
        proof {
            assert(r@ =~= Seq::new((i + 1) as nat, |k: int| k as usize));
        }
        i += 1;
    }
    r
}

/// `scores[a]` ranks before `scores[b]`: the higher score first, ties in
/// index order.
pub open spec fn score_ranks_before(scores: Seq<Option<i64>>, a: int, b: int) -> bool {
    let sa = scores[a]->0;
    let sb = scores[b]->0;
    sa > sb || (sa == sb && a < b)
}

/// `r` lists exactly the indices that have a score, best score first.
pub open spec fn ranked(scores: Seq<Option<i64>>, r: Seq<usize>) -> bool {
    &&& forall|k: int|
        0 <= k < r.len() ==> (#[trigger] r[k] as int) < scores.len() && scores[r[k] as int] is Some
    &&& forall|i: int| 0 <= i < scores.len() && (#[trigger] scores[i]) is Some ==> r.contains(i as usize)
    &&& forall|a: int, b: int|
        0 <= a < b < r.len() ==> score_ranks_before(scores, #[trigger] r[a] as int, #[trigger] r[b] as int)
}

/// The indices that have a score, best score first, ties in index order.
pub fn rank_matches(scores: &Vec<Option<i64>>) -> (r: Vec<usize>)
    ensures
        ranked(scores@, r@),
{
    let mut idx: Vec<usize> = Vec::new();
    let mut sc: Vec<i64> = Vec::new();
    let mut i: usize = 0;
    while i < scores.len()
        invariant
            i <= scores.len(),
            idx@.len() == sc@.len(),
            forall|k: int|
                0 <= k < idx@.len() ==> (#[trigger] idx@[k] as int) < i && scores@[idx@[k] as int] == Some(sc@[k]),
            forall|j: int|
                0 <= j < i && (#[trigger] scores@[j]) is Some ==> idx@.contains(
                    j as usize,
                ),
            forall|a: int, b: int|
                0 <= a < b < idx@.len() ==> (#[trigger] sc@[a] > #[trigger] sc@[b] || (sc@[a] == sc@[b]
                    && idx@[a] < idx@[b])),
        decreases scores.len() - i,
    {
        match scores[i] {
            Some(s) => {
                let mut p: usize = 0;
                while p < sc.len() && sc[p] >= s
                    invariant
                        p <= sc@.len(),
                        forall|k: int| 0 <= k < p ==> sc@[k] >= s,
                    decreases sc.len() - p,
                {
                    p += 1;
                }
                proof {
                    assert forall|k: int| p <= k < sc@.len() implies sc@[k] < s by {
                        if k > p {
                            assert(sc@[p as int] > sc@[k] || sc@[p as int] == sc@[k]);
                        }
                    }
                }
                let ghost old_idx = idx@;
                let ghost old_sc = sc@;
                idx.insert(p, i);
                sc.insert(p, s);
                proof {
                    assert forall|k: int|
                        0 <= k < idx@.len() implies (#[trigger] idx@[k] as int) < i + 1 && scores@[idx@[k] as int] == Some(sc@[k]) by {
                        if k < p {
                            assert(idx@[k] == old_idx[k] && sc@[k] == old_sc[k]);
                        } else if k > p {
                            assert(idx@[k] == old_idx[k - 1] && sc@[k] == old_sc[k - 1]);
                        }
                    }
                    assert forall|j: int|
                        0 <= j < i + 1 && (#[trigger] scores@[j]) is Some implies idx@.contains(
                        j as usize,
                    ) by {
                        if j < i {
                            let k = choose|k: int| 0 <= k < old_idx.len() && old_idx[k] == j as usize;
                            if k < p {
                                assert(idx@[k] == old_idx[k]);
                            } else {
                                assert(idx@[k + 1] == old_idx[k]);
                            }
                        } else {
                            assert(idx@[p as int] == i);
                        }
                    }
                    assert forall|a: int, b: int|
                        0 <= a < b < idx@.len() implies (#[trigger] sc@[a] > #[trigger] sc@[b] || (
                        sc@[a] == sc@[b] && idx@[a] < idx@[b])) by {
                        if b < p {
                            assert(sc@[a] == old_sc[a] && sc@[b] == old_sc[b]);
                            assert(idx@[a] == old_idx[a] && idx@[b] == old_idx[b]);
                        } else if b == p {
                            assert(sc@[a] == old_sc[a] && idx@[a] == old_idx[a]);
                        } else if a < p {
                            assert(sc@[a] == old_sc[a] && sc@[b] == old_sc[b - 1]);
                            assert(idx@[a] == old_idx[a]);
                        } else if a == p {
                            assert(sc@[b] == old_sc[b - 1]);
                        } else {
                            assert(sc@[a] == old_sc[a - 1] && sc@[b] == old_sc[b - 1]);
                            assert(idx@[a] == old_idx[a - 1] && idx@[b] == old_idx[b - 1]);
                        }
                    }
                }
            },
            None => {
                proof {
                    assert forall|j: int|
                        0 <= j < i + 1 && (#[trigger] scores@[j]) is Some implies idx@.contains(
                        j as usize,
                    ) by {
                        assert(j < i);
                    }
                }
            },
        }
        i += 1;
    }
    proof {
        assert forall|a: int, b: int|
            0 <= a < b < idx@.len() implies score_ranks_before(
            scores@,
            #[trigger] idx@[a] as int,
            #[trigger] idx@[b] as int,
        ) by {
            assert(scores@[idx@[a] as int] == Some(sc@[a]));
            assert(scores@[idx@[b] as int] == Some(sc@[b]));
            assert(sc@[a] > sc@[b] || (sc@[a] == sc@[b] && idx@[a] < idx@[b]));
        }
    }
    idx
}



/// The tasks matching `pattern`, best score first, ties in task order.
fn search_tasks(tasks: &Vec<Task>, pattern: &str) -> (r: Vec<usize>)
    ensures
        search_result(tasks@, pattern@, r@),
{
    let mut scores: Vec<Option<i64>> = Vec::new();
    let mut i: usize = 0;
    while i < tasks.len()
        invariant
            i <= tasks.len(),
            scores@.len() == i,
            forall|k: int| 0 <= k < i ==> #[trigger] scores@[k] == score_of(tasks@, pattern@, k),
        decreases tasks.len() - i,
    {
        scores.push(fuzzy_score(tasks[i].content.as_str(), pattern));
        i += 1;
    }
    let r = rank_matches(&scores);
    proof {
        assert forall|k: int| 0 <= k < r@.len() implies (#[trigger] r@[k] as int) < tasks@.len() && score_of(
            tasks@,
            pattern@,
            r@[k] as int,
        ) is Some by {
            assert(scores@[r@[k] as int] is Some);
        }
        assert forall|j: int|
            0 <= j < tasks@.len() && (#[trigger] score_of(tasks@, pattern@, j)) is Some implies r@.contains(
            j as usize,
        ) by {
            assert(scores@[j] == score_of(tasks@, pattern@, j));
        }
        assert forall|a: int, b: int| 0 <= a < b < r@.len() implies ranks_before(
            tasks@,
            pattern@,
            #[trigger] r@[a] as int,
            #[trigger] r@[b] as int,
        ) by {
            assert(score_ranks_before(scores@, r@[a] as int, r@[b] as int));
            assert(scores@[r@[a] as int] == score_of(tasks@, pattern@, r@[a] as int));
            assert(scores@[r@[b] as int] == score_of(tasks@, pattern@, r@[b] as int));
        }
    }
    r
}


/// The end of the day from the clock's readings: the last millisecond of
/// the minute that starts at `at` (the local 23:59 of today), or `now` where
/// the local calendar has no such moment; a minute that would run past the
/// calendar's end is cut to its start.
pub open spec fn day_end(now: i64, at: Option<i64>) -> i64 {
    match at {
        Some(ms) => if ms <= MAX_MILLIS - 59999 {
            (ms + 59999) as i64
        } else {
            ms
        },
        None => now,
    }
}

/// The last millisecond of the local day, by the clock (the current time
/// where the local calendar has no such moment).
fn end_of_today() -> (r: i64)
    ensures
        exists|now: LocalNow, at: Option<i64>|
            now.wf() && (at matches Some(ms) ==> in_calendar(ms as int)) && r == #[trigger] day_end(now.millis, at),
        in_calendar(r as int),
{
    let now = local_now();
    let at = local_millis_at(now.day, 23, 59);
    let r = match at {
        Some(ms) => if ms <= MAX_MILLIS - 59999 {
            ms + 59999
        } else {
            ms
        },
        None => now.millis,
    };
    assert(r == day_end(now.millis, at));
    r
}

// ======================= messages =======================

/// The message is `text`.
pub open spec fn says(m: Option<String>, text: Seq<char>) -> bool {
    m matches Some(s) && s@ == text
}

pub open spec fn updated_label() -> Seq<char> {
    seq!['U', 'p', 'd', 'a', 't', 'e', 'd', ':', ' ']
}

pub open spec fn added_label() -> Seq<char> {
    seq!['A', 'd', 'd', 'e', 'd', ':', ' ']
}

pub open spec fn noted_label() -> Seq<char> {
    seq!['N', 'o', 't', 'e', ':', ' ']
}

/// `note `.
pub open spec fn note_prefix() -> Seq<char> {
    seq!['n', 'o', 't', 'e', ' ']
}

/// The note that the entry `note <text>` attaches: what follows `note `,
/// trimmed; `None` for any other entry.
pub open spec fn note_of(text: Seq<char>) -> Option<Seq<char>> {
    if text.len() > 5 && text.take(5) == note_prefix() {
        Some(trim(text.skip(5)))
    } else {
        None
    }
}

/// The entry `text` attaches a note to the selected task: it reads
/// `note <text>`, a task is selected and none is being edited.
pub open spec fn note_entry(a: App, text: Seq<char>) -> bool {
    a.editing_task_id is None && a.selected_index() is Some && note_of(text) is Some
}

/// The effect of a `note <text>` entry: the selected task gets the note.
pub open spec fn noted(old: App, new: App, text: Seq<char>) -> bool {
    let i = old.selected_index()->0;
    let n = note_of(text)->0;
    &&& new.db.lists@ == old.db.lists@
    &&& exists|s: String|
        s@ == n && new.db.tasks@ == #[trigger] edit_where(old.db.tasks@, old.tasks@[i].id@, Edit::Note(Some(s)))
    &&& says(new.status_message, noted_label() + n)
    &&& new.lists == old.lists
    &&& new.selected_list == old.selected_list
    &&& new.editing_task_id is None
    &&& new.search_mode == old.search_mode
    &&& new.input_mode == old.input_mode
    &&& new.view == old.view
    &&& input_cleared(old, new)
    &&& new.tasks_loaded()
    &&& filter_shows(new.tasks@, new.search_mode, new.input@, new.filtered_indices@)
    &&& new.selected_task == clamped(old.selected_task, new.selectable_spec().len())
}

pub open spec fn created_list_label() -> Seq<char> {
    seq!['C', 'r', 'e', 'a', 't', 'e', 'd', ' ', 'l', 'i', 's', 't', ':', ' ']
}

pub open spec fn renamed_label() -> Seq<char> {
    seq!['R', 'e', 'n', 'a', 'm', 'e', 'd', ' ', 't', 'o', ':', ' ']
}

/// `prefix` followed by `rest`.
fn text_with(prefix: &[char], rest: &str) -> (r: String)
    ensures
        r@ == prefix@ + rest@,
{
    let mut v: Vec<char> = Vec::new();
    push_all(&mut v, prefix);
    let tail = chars_of(rest);
    crate::text::push_vec(&mut v, &tail);
    string_of(&v)
}

/// The borrowed text of an optional string.
fn opt_str(o: &Option<String>) -> (r: Option<&str>)
    ensures
        match r {
            Some(s) => o matches Some(x) && s@ == x@,
            None => o is None,
        },
{
    match o {
        Some(s) => Some(s.as_str()),
        None => None,
    }
}

// ======================= submitting the input line =======================

/// What submitting a task entry stores: an update of the task being
/// edited, or a new task in the current list.
pub open spec fn stored_parse(old: App, new: App, p: ParsedTask) -> bool {
    &&& new.db.lists@ == old.db.lists@
    &&& match old.editing_task_id {
        Some(id) => updated_with(
            old.db.tasks@,
            new.db.tasks@,
            id@,
            p.content@,
            p.due_at,
            p.ping_interval,
            p.priority,
            opt_view(p.recurrence),
        ) && says(new.status_message, updated_label() + p.content@),
        None => match old.current_list_spec() {
            Some(l) => (exists|t: Task|
                created_task(
                    old.db.tasks@,
                    t,
                    l.id@,
                    p.content@,
                    p.due_at,
                    p.ping_interval,
                    p.priority,
                    opt_view(p.recurrence),
                ) && new.db.tasks@ == old.db.tasks@.push(t)) && says(
                new.status_message,
                added_label() + p.content@,
            ),
            None => new.db.tasks@ == old.db.tasks@ && new.status_message == old.status_message,
        },
    }
}

/// The input line is empty and the rest of the interface as before.
pub open spec fn input_cleared(old: App, new: App) -> bool {
    &&& new.input@.len() == 0
    &&& new.cursor_pos == 0
    &&& new.scroll_offset == old.scroll_offset
    &&& new.show_completed == old.show_completed
    &&& !new.should_quit == !old.should_quit
}

/// The effect of `App::submit_input`.
pub open spec fn submitted(old: App, new: App) -> bool {
    let text = trim(old.input@);
    match old.view {
        View::Tasks => if old.search_mode {
            &&& new.db == old.db
            &&& new.lists == old.lists
            &&& new.tasks == old.tasks
            &&& new.selected_list == old.selected_list
            &&& new.status_message == old.status_message
            &&& new.editing_task_id == old.editing_task_id
            &&& !new.search_mode
            &&& new.input_mode == InputMode::Normal
            &&& new.view == old.view
            &&& input_cleared(old, new)
            &&& filter_shows(new.tasks@, false, new.input@, new.filtered_indices@)
            &&& new.selected_task == clamped(old.selected_task, new.selectable_spec().len())
        } else if text.len() == 0 {
            new == old
        } else if note_entry(old, text) {
            noted(old, new, text)
        } else {
            &&& exists|p: ParsedTask| #[trigger] parsed_as(text, p) && stored_parse(old, new, p)
            &&& new.lists == old.lists
            &&& new.selected_list == old.selected_list
            &&& new.editing_task_id is None
            &&& new.search_mode == old.search_mode
            &&& new.input_mode == old.input_mode
            &&& new.view == old.view
            &&& input_cleared(old, new)
            &&& new.tasks_loaded()
            &&& filter_shows(new.tasks@, new.search_mode, new.input@, new.filtered_indices@)
            &&& new.selected_task == 0
        },
        View::NewList => if text.len() == 0 {
            new == old
        } else {
            &&& new.db.lists@.len() == old.db.lists@.len() + 1
            &&& new.db.lists@.drop_last() == old.db.lists@
            &&& new.db.lists@.last().name@ == text
            &&& !list_exists(old.db.lists@, new.db.lists@.last().id@)
            &&& new.db.tasks@ == old.db.tasks@
            &&& new.lists@ == new.db.lists@
            &&& new.selected_list == new.lists@.len() - 1
            &&& says(new.status_message, created_list_label() + text)
            &&& new.editing_task_id == old.editing_task_id
            &&& new.search_mode == old.search_mode
            &&& new.input_mode == InputMode::Normal
            &&& new.view == View::Tasks
            &&& input_cleared(old, new)
            &&& new.tasks_loaded()
            &&& filter_shows(new.tasks@, new.search_mode, old.input@, new.filtered_indices@)
            &&& new.selected_task == clamped(old.selected_task, new.selectable_spec().len())
        },
        View::RenameList => if text.len() == 0 {
            new == old
        } else {
            &&& new.db.lists@.len() == old.db.lists@.len()
            &&& new.db.tasks@ == old.db.tasks@
            &&& new.lists@ == new.db.lists@
            &&& match old.current_list_spec() {
                Some(cur) => {
                    &&& forall|k: int|
                        0 <= k < new.db.lists@.len() ==> (#[trigger] new.db.lists@[k]).id
                            == old.db.lists@[k].id && (if old.db.lists@[k].id@ == cur.id@ {
                            new.db.lists@[k].name@ == text
                        } else {
                            new.db.lists@[k] == old.db.lists@[k]
                        })
                    &&& says(new.status_message, renamed_label() + text)
                },
                None => new.db.lists@ == old.db.lists@ && new.status_message == old.status_message,
            }
            &&& new.selected_list == old.selected_list
            &&& new.tasks == old.tasks
            &&& new.filtered_indices == old.filtered_indices
            &&& new.selected_task == old.selected_task
            &&& new.editing_task_id == old.editing_task_id
            &&& new.search_mode == old.search_mode
            &&& new.input_mode == InputMode::Normal
            &&& new.view == View::Tasks
            &&& input_cleared(old, new)
        },
        _ => new == old,
    }
}

impl App {
    /// Whether submitting the input can go ahead: a task entry must be one
    /// that parsing accepts.
    pub open spec fn submit_ok(&self) -> bool {
        self.view == View::Tasks && !self.search_mode && trim(self.input@).len() > 0 && !note_entry(
            *self,
            trim(self.input@),
        ) ==> crate::parser::entry_accepted(trim(self.input@))
    }

    /// The note of a `note <text>` entry (see `note_of`).
    fn note_text(text: &str) -> (r: Option<String>)
        ensures
            opt_view(r) == note_of(text@),
    {
        let v = chars_of(text);
        if v.len() > 5 && v[0] == 'n' && v[1] == 'o' && v[2] == 't' && v[3] == 'e' && v[4] == ' ' {
            assert(v@.take(5) =~= note_prefix());
            let rest = crate::text::copy_range(&v, 5, v.len());
            assert(rest@ =~= v@.skip(5));
            let t = trim_chars(&rest);
            Some(string_of(&t))
        } else {
            proof {
                if v@.len() > 5 && v@.take(5) == note_prefix() {
                    assert(v@[0] == v@.take(5)[0]);
                    assert(v@[1] == v@.take(5)[1]);
                    assert(v@[2] == v@.take(5)[2]);
                    assert(v@[3] == v@.take(5)[3]);
                    assert(v@[4] == v@.take(5)[4]);
                }
            }
            None
        }
    }

    /// Attaches the note `note` to the selected task.
    fn submit_note(&mut self, note: &str)
        requires
            old(self).wf(),
            old(self).editing_task_id is None,
            old(self).selected_index() is Some,
        ensures
            final(self).wf(),
            final(self).db.lists@ == old(self).db.lists@,
            exists|s: String|
                s@ == note@ && final(self).db.tasks@ == #[trigger] edit_where(
                    old(self).db.tasks@,
                    old(self).tasks@[old(self).selected_index()->0].id@,
                    Edit::Note(Some(s)),
                ),
            says(final(self).status_message, noted_label() + note@),
            final(self).lists == old(self).lists,
            final(self).selected_list == old(self).selected_list,
            final(self).editing_task_id is None,
            final(self).search_mode == old(self).search_mode,
            final(self).input_mode == old(self).input_mode,
            final(self).view == old(self).view,
            input_cleared(*old(self), *final(self)),
            final(self).tasks_loaded(),
            filter_shows(final(self).tasks@, final(self).search_mode, final(self).input@, final(self).filtered_indices@),
            final(self).selected_task == clamped(old(self).selected_task, final(self).selectable_spec().len()),
    {
        let id = match self.selected_task_data() {
            Some(t) => t.id.clone(),
            None => {
                return;
            },
        };
        self.db.update_task_note(id.as_str(), Some(note));
        self.status_message = Some(text_with(&['N', 'o', 't', 'e', ':', ' '], note));
        self.clear_input();
        self.refresh_tasks();
    }

    /// Executable `submit_ok`.
    pub fn can_submit(&self) -> (r: bool)
        ensures
            r == self.submit_ok(),
    {
        if self.view == View::Tasks && !self.search_mode {
            let text = self.trimmed_input();
            if !text.as_str().is_empty() {
                if self.editing_task_id.is_none() && self.selected_task_data().is_some()
                    && Self::note_text(text.as_str()).is_some() {
                    return true;
                }
                return accepts_entry(text.as_str());
            }
        }
        true
    }

    /// The input without its surrounding whitespace.
    fn trimmed_input(&self) -> (r: String)
        ensures
            r@ == trim(self.input@),
    {
        let v = chars_of(self.input.as_str());
        let t = trim_chars(&v);
        string_of(&t)
    }

    fn clear_input(&mut self)
        ensures
            final(self).input@.len() == 0,
            final(self).cursor_pos == 0,
            char_at_byte(final(self).input@, 0) == Some(0int),
            final(self).db == old(self).db,
            final(self).lists == old(self).lists,
            final(self).tasks == old(self).tasks,
            final(self).filtered_indices == old(self).filtered_indices,
            final(self).selected_list == old(self).selected_list,
            final(self).selected_task == old(self).selected_task,
            final(self).scroll_offset == old(self).scroll_offset,
            final(self).input_mode == old(self).input_mode,
            final(self).view == old(self).view,
            final(self).show_completed == old(self).show_completed,
            final(self).search_mode == old(self).search_mode,
            final(self).editing_task_id == old(self).editing_task_id,
            final(self).should_quit == old(self).should_quit,
            final(self).expanded_task_id == old(self).expanded_task_id,
            final(self).viewing_today == old(self).viewing_today,
            final(self).today_end == old(self).today_end,
            final(self).status_message == old(self).status_message,
            final(self).last_ping_check == old(self).last_ping_check,
    {
        self.input = String::new();
        self.cursor_pos = 0;
    }

    /// Submits the input line: ends a search, saves a task entry (updating
    /// the task being edited or adding one to the current list), or creates
    /// or renames a list from a dialog.
    pub fn submit_input(&mut self)
        requires
            old(self).wf(),
            old(self).submit_ok(),
        ensures
            final(self).wf(),
            submitted(*old(self), *final(self)),
    {
        let text = self.trimmed_input();
        match self.view {
            View::Tasks => {
                if self.search_mode {
                    self.close_search();
                    return;
                }
                if text.as_str().is_empty() {
                    return;
                }
                if self.editing_task_id.is_none() && self.selected_task_data().is_some() {
                    match Self::note_text(text.as_str()) {
                        Some(note) => {
                            self.submit_note(note.as_str());
                            return;
                        },
                        None => {},
                    }
                }
                self.submit_entry(text.as_str());
            },
            View::NewList => {
                if text.as_str().is_empty() {
                    return;
                }
                self.submit_new_list(text.as_str());
            },
            View::RenameList => {
                if text.as_str().is_empty() {
                    return;
                }
                self.submit_rename(text.as_str());
            },
            _ => {},
        }
    }

    /// Leaves the search: the input is emptied and every task shown again.
    fn close_search(&mut self)
        requires
            old(self).wf(),
        ensures
            final(self).wf(),
            final(self).db == old(self).db,
            final(self).lists == old(self).lists,
            final(self).tasks == old(self).tasks,
            final(self).selected_list == old(self).selected_list,
            final(self).status_message == old(self).status_message,
            final(self).editing_task_id == old(self).editing_task_id,
            !final(self).search_mode,
            final(self).input_mode == InputMode::Normal,
            final(self).view == old(self).view,
            input_cleared(*old(self), *final(self)),
            filter_shows(final(self).tasks@, false, final(self).input@, final(self).filtered_indices@),
            final(self).selected_task == clamped(old(self).selected_task, final(self).selectable_spec().len()),
    {
        self.search_mode = false;
        self.clear_input();
        self.input_mode = InputMode::Normal;
        self.apply_filter();
    }

    fn submit_entry(&mut self, text: &str)
        requires
            old(self).wf(),
            text@.len() > 0,
            crate::parser::entry_accepted(text@),
        ensures
            final(self).wf(),
            exists|p: ParsedTask| #[trigger] parsed_as(text@, p) && stored_parse(*old(self), *final(self), p),
            final(self).lists == old(self).lists,
            final(self).selected_list == old(self).selected_list,
            final(self).editing_task_id is None,
            final(self).search_mode == old(self).search_mode,
            final(self).input_mode == old(self).input_mode,
            final(self).view == old(self).view,
            input_cleared(*old(self), *final(self)),
            final(self).tasks_loaded(),
            filter_shows(final(self).tasks@, final(self).search_mode, final(self).input@, final(self).filtered_indices@),
            final(self).selected_task == 0,
    {
        let ghost old_app = *self;
        let parsed = parse_task_input(text);
        let ghost p = parsed;
        let editing = self.editing_task_id.take();
        match editing {
            Some(edit_id) => {
                self.db.update_task(
                    edit_id.as_str(),
                    parsed.content.as_str(),
                    parsed.due_at,
                    parsed.ping_interval,
                    parsed.priority,
                    opt_str(&parsed.recurrence),
                );
                self.status_message = Some(
                    text_with(&['U', 'p', 'd', 'a', 't', 'e', 'd', ':', ' '], parsed.content.as_str()),
                );
            },
            None => {
                match self.current_list_id() {
                    Some(list_id) => {
                        proof {
                            let l = self.current_list_spec()->0;
                            assert(self.lists@[self.selected_list as int] == l);
                            assert(list_exists(self.db.lists@, l.id@));
                        }
                        let t = self.db.create_task(
                            list_id.as_str(),
                            parsed.content.as_str(),
                            parsed.due_at,
                            parsed.ping_interval,
                            parsed.priority,
                            opt_str(&parsed.recurrence),
                        );
                        self.status_message = Some(
                            text_with(&['A', 'd', 'd', 'e', 'd', ':', ' '], parsed.content.as_str()),
                        );
                    },
                    None => {},
                }
            },
        }
        assert(stored_parse(old_app, *self, p));
        self.clear_input();
        assert(stored_parse(old_app, *self, p));
        self.refresh_tasks();
        self.selected_task = 0;
        assert(stored_parse(old_app, *self, p));
        assert(parsed_as(text@, p));
    }

    fn submit_new_list(&mut self, text: &str)
        requires
            old(self).wf(),
        ensures
            final(self).wf(),
            final(self).db.lists@.len() == old(self).db.lists@.len() + 1,
            final(self).db.lists@.drop_last() == old(self).db.lists@,
            final(self).db.lists@.last().name@ == text@,
            !list_exists(old(self).db.lists@, final(self).db.lists@.last().id@),
            final(self).db.tasks@ == old(self).db.tasks@,
            final(self).lists@ == final(self).db.lists@,
            final(self).selected_list == final(self).lists@.len() - 1,
            says(final(self).status_message, created_list_label() + text@),
            final(self).editing_task_id == old(self).editing_task_id,
            final(self).search_mode == old(self).search_mode,
            final(self).input_mode == InputMode::Normal,
            final(self).view == View::Tasks,
            input_cleared(*old(self), *final(self)),
            final(self).tasks_loaded(),
            filter_shows(final(self).tasks@, final(self).search_mode, old(self).input@, final(self).filtered_indices@),
            final(self).selected_task == clamped(old(self).selected_task, final(self).selectable_spec().len()),
    {
        let l = self.db.create_list(text);
        self.refresh_lists();
        self.selected_list = self.lists.len() - 1;
        let ghost sel = self.selected_task;
        self.refresh_tasks();
        self.status_message = Some(
            text_with(&['C', 'r', 'e', 'a', 't', 'e', 'd', ' ', 'l', 'i', 's', 't', ':', ' '], text),
        );
        self.clear_input();
        self.input_mode = InputMode::Normal;
        self.view = View::Tasks;
        proof {
            assert(self.db.lists@.drop_last() =~= old(self).db.lists@);
        }
    }

    fn submit_rename(&mut self, text: &str)
        requires
            old(self).wf(),
        ensures
            final(self).wf(),
            final(self).db.lists@.len() == old(self).db.lists@.len(),
            final(self).db.tasks@ == old(self).db.tasks@,
            final(self).lists@ == final(self).db.lists@,
            match old(self).current_list_spec() {
                Some(cur) => {
                    &&& forall|k: int|
                        0 <= k < final(self).db.lists@.len() ==> (#[trigger] final(self).db.lists@[k]).id
                            == old(self).db.lists@[k].id && (if old(self).db.lists@[k].id@ == cur.id@ {
                            final(self).db.lists@[k].name@ == text@
                        } else {
                            final(self).db.lists@[k] == old(self).db.lists@[k]
                        })
                    &&& says(final(self).status_message, renamed_label() + text@)
                },
                None => final(self).db.lists@ == old(self).db.lists@ && final(self).status_message
                    == old(self).status_message,
            },
            final(self).selected_list == old(self).selected_list,
            final(self).tasks == old(self).tasks,
            final(self).filtered_indices == old(self).filtered_indices,
            final(self).selected_task == old(self).selected_task,
            final(self).editing_task_id == old(self).editing_task_id,
            final(self).search_mode == old(self).search_mode,
            final(self).input_mode == InputMode::Normal,
            final(self).view == View::Tasks,
            input_cleared(*old(self), *final(self)),
    {
        match self.current_list_id() {
            Some(id) => {
                self.db.rename_list(id.as_str(), text);
                self.refresh_lists();
                self.status_message = Some(
                    text_with(&['R', 'e', 'n', 'a', 'm', 'e', 'd', ' ', 't', 'o', ':', ' '], text),
                );
                proof {
                    assert forall|k: int| 0 <= k < self.db.lists@.len() implies (#[trigger] self.db.lists@[k]).id
                        == old(self).db.lists@[k].id && (if old(self).db.lists@[k].id@ == id@ {
                        self.db.lists@[k].name@ == text@
                    } else {
                        self.db.lists@[k] == old(self).db.lists@[k]
                    }) by {
                        assert(self.db.lists@[k] == (if old(self).db.lists@[k].id@ == id@ {
                            List { id: old(self).db.lists@[k].id, name: self.db.lists@[k].name }
                        } else {
                            old(self).db.lists@[k]
                        }));
                    }
                }
            },
            None => {},
        }
        self.clear_input();
        self.input_mode = InputMode::Normal;
        self.view = View::Tasks;
    }
}


// ======================= the input line =======================

/// `str::len`: the number of bytes of `s` in UTF-8, as its documentation
/// states.
#[verifier::external_body]
pub(crate) fn byte_count(s: &str) -> (r: usize)
    ensures
        r == byte_len(s@),
{
    s.len()
}

/// The character index of the cursor.
pub open spec fn cursor_index(a: App) -> int {
    char_at_byte(a.input@, a.cursor_pos as int)->0
}

/// After the input changed, a running search is applied again.
pub open spec fn input_reapplied(old: App, new: App) -> bool {
    &&& new.db == old.db
    &&& new.lists == old.lists
    &&& new.tasks == old.tasks
    &&& new.selected_list == old.selected_list
    &&& new.status_message == old.status_message
    &&& new.input_mode == old.input_mode
    &&& new.view == old.view
    &&& new.show_completed == old.show_completed
    &&& new.search_mode == old.search_mode
    &&& new.editing_task_id == old.editing_task_id
    &&& new.should_quit == old.should_quit
    &&& new.expanded_task_id == old.expanded_task_id
    &&& new.viewing_today == old.viewing_today
    &&& new.scroll_offset == old.scroll_offset
    &&& if old.search_mode {
        &&& filter_shows(new.tasks@, true, new.input@, new.filtered_indices@)
        &&& new.selected_task == clamped(old.selected_task, new.selectable_spec().len())
    } else {
        &&& new.filtered_indices == old.filtered_indices
        &&& new.selected_task == old.selected_task
    }
}

/// The place where `delete_word_before_cursor` cuts: after the last
/// whitespace before the word that ends at the cursor (trailing whitespace
/// skipped), as a character index.
pub open spec fn word_cut(s: Seq<char>, k: int) -> int {
    last_ws(s.take(k), ws_start(s.take(k), k)) + 1
}

impl App {
    /// The cursor only moves within a character sequence whose offsets fit.
    proof fn lemma_cursor(&self)
        requires
            self.wf(),
        ensures
            0 <= cursor_index(*self) <= self.input@.len(),
            byte_len(self.input@.take(cursor_index(*self))) == self.cursor_pos,
    {
        lemma_char_at_byte_sound(self.input@, self.cursor_pos as int);
    }

    /// Sets the input to the characters `v` with the cursor after `k` of
    /// them.
    fn set_input(&mut self, v: &Vec<char>, k: usize)
        requires
            k <= v.len(),
        ensures
            final(self).input@ == v@,
            char_at_byte(final(self).input@, final(self).cursor_pos as int) == Some(k as int),
            final(self).cursor_pos == byte_len(v@.take(k as int)),
            final(self).db == old(self).db,
            final(self).lists == old(self).lists,
            final(self).tasks == old(self).tasks,
            final(self).filtered_indices == old(self).filtered_indices,
            final(self).selected_list == old(self).selected_list,
            final(self).selected_task == old(self).selected_task,
            final(self).scroll_offset == old(self).scroll_offset,
            final(self).input_mode == old(self).input_mode,
            final(self).view == old(self).view,
            final(self).show_completed == old(self).show_completed,
            final(self).search_mode == old(self).search_mode,
            final(self).editing_task_id == old(self).editing_task_id,
            final(self).should_quit == old(self).should_quit,
            final(self).expanded_task_id == old(self).expanded_task_id,
            final(self).viewing_today == old(self).viewing_today,
            final(self).today_end == old(self).today_end,
            final(self).status_message == old(self).status_message,
    {
        let head = crate::text::copy_range(v, 0, k);
        let head_text = string_of(&head);
        let pos = byte_count(head_text.as_str());
        self.input = string_of(v);
        self.cursor_pos = pos;
        proof {
            assert(head@ =~= v@.take(k as int));
            lemma_char_at_byte_complete(v@, k as int);
        }
    }

    /// Types `c` at the cursor.
    pub fn insert_char(&mut self, c: char)
        requires
            old(self).wf(),
        ensures
            final(self).wf(),
            char_inserted(*old(self), *final(self), c),
    {
        proof {
            self.lemma_cursor();
        }
        let mut v = chars_of(self.input.as_str());
        let k = char_index(&v, self.cursor_pos).unwrap();
        v.insert(k, c);
        assert(k + 1 <= v.len());
        self.set_input(&v, k + 1);
        proof {
            let s = old(self).input@;
            assert(v@ =~= s.take(k as int).push(c) + s.skip(k as int));
            assert(v@.take(k + 1) =~= s.take(k as int).push(c));
            crate::editing::lemma_byte_len_push(s.take(k as int), c);
        }
        self.on_input_changed();
    }

    /// Deletes the character before the cursor.
    pub fn delete_char_before_cursor(&mut self)
        requires
            old(self).wf(),
        ensures
            final(self).wf(),
            deleted_before_cursor(*old(self), *final(self)),
    {
        if self.cursor_pos > 0 {
            proof {
                self.lemma_cursor();
            }
            let mut v = chars_of(self.input.as_str());
            let k = char_index(&v, self.cursor_pos).unwrap();
            proof {
                if k == 0 {
                    assert(old(self).input@.take(0) =~= Seq::<char>::empty());
                }
                lemma_byte_len_take(v@, k - 1);
                lemma_width(v@[k - 1]);
            }
            v.remove(k - 1);
            self.set_input(&v, k - 1);
            proof {
                assert(v@.take(k - 1) =~= old(self).input@.take(k - 1));
            }
            self.on_input_changed();
        }
    }

    /// Deletes the character at the cursor.
    pub fn delete_char_at_cursor(&mut self)
        requires
            old(self).wf(),
        ensures
            final(self).wf(),
            deleted_at_cursor(*old(self), *final(self)),
    {
        proof {
            self.lemma_cursor();
        }
        let mut v = chars_of(self.input.as_str());
        let k = char_index(&v, self.cursor_pos).unwrap();
        if k < v.len() {
            v.remove(k);
            self.set_input(&v, k);
            proof {
                assert(v@.take(k as int) =~= old(self).input@.take(k as int));
            }
            self.on_input_changed();
        }
    }

    /// Whether `delete_word_before_cursor` can cut: the whitespace it cuts
    /// after is a one-byte character (the cut falls on a byte offset just
    /// past it).
    pub open spec fn word_cut_ok(&self) -> bool {
        let k = cursor_index(*self);
        self.cursor_pos > 0 && word_cut(self.input@, k) > 0 ==> width(
            self.input@[word_cut(self.input@, k) - 1],
        ) == 1
    }

    /// Executable `word_cut_ok`.
    pub fn can_delete_word(&self) -> (r: bool)
        requires
            self.wf(),
        ensures
            r == self.word_cut_ok(),
    {
        if self.cursor_pos == 0 {
            return true;
        }
        proof {
            self.lemma_cursor();
        }
        let v = chars_of(self.input.as_str());
        let k = char_index(&v, self.cursor_pos).unwrap();
        let before = crate::text::copy_range(&v, 0, k);
        let te = ws_start_exec(&before, k);
        proof {
            assert(before@ =~= v@.take(k as int));
        }
        match last_ws_exec(&before, te) {
            Some(j) => {
                proof {
                    lemma_last_ws(before@, te as int);
                }
                char_width(v[j]) == 1
            },
            None => true,
        }
    }

    /// Deletes the word before the cursor, with the whitespace after it.
    pub fn delete_word_before_cursor(&mut self)
        requires
            old(self).wf(),
            old(self).word_cut_ok(),
        ensures
            final(self).wf(),
            word_deleted(*old(self), *final(self)),
    {
        if self.cursor_pos == 0 {
            return;
        }
        proof {
            self.lemma_cursor();
        }
        let v = chars_of(self.input.as_str());
        let k = char_index(&v, self.cursor_pos).unwrap();
        let before = crate::text::copy_range(&v, 0, k);
        let te = ws_start_exec(&before, k);
        proof {
            assert(before@ =~= v@.take(k as int));
            crate::text::lemma_ws_start_bounds(before@, k as int);
        }
        let cut: usize = match last_ws_exec(&before, te) {
            Some(j) => {
                proof {
                    lemma_last_ws(before@, te as int);
                }
                j + 1
            },
            None => 0,
        };
        let mut w = crate::text::copy_range(&v, 0, cut);
        crate::text::push_range(&mut w, &v, k, v.len());
        self.set_input(&w, cut);
        proof {
            let s = old(self).input@;
            assert(w@ =~= s.take(cut as int) + s.skip(k as int));
            assert(w@.take(cut as int) =~= s.take(cut as int));
        }
        self.on_input_changed();
    }

    /// Moves the cursor one character left.
    pub fn move_cursor_left(&mut self)
        requires
            old(self).wf(),
        ensures
            final(self).wf(),
            cursor_moved_left(*old(self), *final(self)),
    {
        if self.cursor_pos > 0 {
            proof {
                self.lemma_cursor();
            }
            let v = chars_of(self.input.as_str());
            let k = char_index(&v, self.cursor_pos).unwrap();
            proof {
                if k == 0 {
                    assert(old(self).input@.take(0) =~= Seq::<char>::empty());
                }
                lemma_byte_len_take(v@, k - 1);
            }
            let w = char_width(v[k - 1]);
            self.cursor_pos = self.cursor_pos - w;
            proof {
                lemma_char_at_byte_complete(v@, k - 1);
            }
        }
    }

    /// Moves the cursor one character right.
    pub fn move_cursor_right(&mut self)
        requires
            old(self).wf(),
        ensures
            final(self).wf(),
            cursor_moved_right(*old(self), *final(self)),
    {
        proof {
            self.lemma_cursor();
        }
        let v = chars_of(self.input.as_str());
        let k = char_index(&v, self.cursor_pos).unwrap();
        if k < v.len() {
            let total = byte_count(self.input.as_str());
            proof {
                lemma_byte_len_take(v@, k as int);
                lemma_byte_len_split(v@, k + 1);
            }
            let w = char_width(v[k]);
            self.cursor_pos = self.cursor_pos + w;
            proof {
                lemma_char_at_byte_complete(v@, k + 1);
            }
        }
    }

    /// Moves the cursor to the start of the input.
    pub fn move_cursor_home(&mut self)
        requires
            old(self).wf(),
        ensures
            final(self).wf(),
            *final(self) == (App { cursor_pos: 0, ..*old(self) }),
    {
        self.cursor_pos = 0;
    }

    /// Moves the cursor to the end of the input.
    pub fn move_cursor_end(&mut self)
        requires
            old(self).wf(),
        ensures
            final(self).wf(),
            cursor_at_end(*old(self), *final(self)),
    {
        let n = byte_count(self.input.as_str());
        self.cursor_pos = n;
        proof {
            assert(self.input@.take(self.input@.len() as int) =~= self.input@);
            lemma_char_at_byte_complete(self.input@, self.input@.len() as int);
        }
    }

    /// Deletes everything before the cursor.
    pub fn delete_to_start(&mut self)
        requires
            old(self).wf(),
        ensures
            final(self).wf(),
            deleted_to_start(*old(self), *final(self)),
    {
        proof {
            self.lemma_cursor();
        }
        let v = chars_of(self.input.as_str());
        let k = char_index(&v, self.cursor_pos).unwrap();
        let w = crate::text::copy_range(&v, k, v.len());
        self.set_input(&w, 0);
        proof {
            assert(w@.take(0) =~= Seq::<char>::empty());
        }
        self.on_input_changed();
    }

    /// Reapplies a running search after the input changed.
    pub fn on_input_changed(&mut self)
        ensures
            input_reapplied(*old(self), *final(self)),
            final(self).input == old(self).input,
            final(self).cursor_pos == old(self).cursor_pos,
    {
        if self.search_mode {
            self.apply_filter();
        }
    }
}


// ======================= actions on the selected task =======================

pub open spec fn done_label() -> Seq<char> {
    seq!['D', 'o', 'n', 'e', '!']
}

pub open spec fn next_label() -> Seq<char> {
    seq!['D', 'o', 'n', 'e', '!', ' ', 'N', 'e', 'x', 't', ':', ' ']
}

pub open spec fn soon_label() -> Seq<char> {
    seq!['s', 'o', 'o', 'n']
}

pub open spec fn unchecked_label() -> Seq<char> {
    seq!['U', 'n', 'c', 'h', 'e', 'c', 'k', 'e', 'd']
}

pub open spec fn deleted_label() -> Seq<char> {
    seq!['D', 'e', 'l', 'e', 't', 'e', 'd']
}

pub open spec fn last_list_label() -> Seq<char> {
    seq![
        'C', 'a', 'n', '\'', 't', ' ', 'd', 'e', 'l', 'e', 't', 'e', ' ', 't', 'h', 'e', ' ', 'l',
        'a', 's', 't', ' ', 'l', 'i', 's', 't',
    ]
}

pub open spec fn deleted_list_label() -> Seq<char> {
    seq!['D', 'e', 'l', 'e', 't', 'e', 'd', ' ', 'l', 'i', 's', 't', ':', ' ']
}

pub open spec fn snoozed_label() -> Seq<char> {
    seq!['S', 'n', 'o', 'o', 'z', 'e', 'd', ' ', 'f', 'o', 'r', ' ']
}

pub open spec fn no_ping_label() -> Seq<char> {
    seq!['N', 'o', ' ', 'p', 'i', 'n', 'g', ' ', 't', 'o', ' ', 's', 'n', 'o', 'o', 'z', 'e']
}

pub open spec fn reorder_label() -> Seq<char> {
    seq![
        'C', 'a', 'n', '\'', 't', ' ', 'r', 'e', 'o', 'r', 'd', 'e', 'r', ' ', 'a', 'c', 'r', 'o',
        's', 's', ' ', 'p', 'r', 'i', 'o', 'r', 'i', 't', 'y', '/', 'c', 'o', 'm', 'p', 'l', 'e',
        't', 'i', 'o', 'n', ' ', 'g', 'r', 'o', 'u', 'p', 's',
    ]
}

/// `r` is the entry text that `reconstruct_task_input` gives for `t`.
pub open spec fn reconstructed(t: Task, r: Seq<char>) -> bool {
    match t.due_at {
        None => r == task_input_text(
            t.content@,
            None,
            t.ping_interval,
            t.priority,
            opt_view(t.recurrence),
        ),
        Some(_) => exists|a: bool, b: bool, w: Seq<char>, x: Seq<char>|
            r == task_input_text(
                t.content@,
                Some(#[trigger] due_words_text(a, b, w, x)),
                t.ping_interval,
                t.priority,
                opt_view(t.recurrence),
            ),
    }
}

/// The due time of the next occurrence of a recurring task: one step after
/// its due time, or after the current moment when it has none.
pub open spec fn next_due_of(due: Option<i64>, rec: Seq<char>, nd: Option<i64>) -> bool {
    match recurrence_step(rec) {
        None => nd is None,
        Some(k) => match due {
            Some(d) => nd == Some((d + k) as i64),
            None => exists|now: i64|
                #[trigger] in_calendar(now as int) && nd == (if crate::clock::in_local_range(now + k) {
                    Some((now + k) as i64)
                } else {
                    None
                }),
        },
    }
}

/// The message after completing a recurring task.
pub open spec fn next_message(m: Option<String>, nd: Option<i64>) -> bool {
    match nd {
        Some(_) => exists|a: bool, b: bool, w: Seq<char>, x: Seq<char>|
            says(m, next_label() + #[trigger] due_date_text(a, b, w, x)),
        None => says(m, next_label() + soon_label()),
    }
}

/// The store and message after toggling task `t`, whose toggled store is
/// `mid`.
pub open spec fn toggle_stored(old: App, new: App, t: Task) -> bool {
    let mid = edit_where(old.db.tasks@, t.id@, Edit::Toggle);
    if t.completed {
        new.db.tasks@ == mid && says(new.status_message, unchecked_label())
    } else {
        match t.recurrence {
            None => new.db.tasks@ == mid && says(new.status_message, done_label()),
            Some(r) => if task_exists(mid, t.id@) {
                exists|nd: Option<i64>, nt: Task, lid: Seq<char>|
                    #![trigger created_task(mid, nt, lid, t.content@, nd, t.ping_interval, t.priority, Some(r@))]
                    next_due_of(t.due_at, r@, nd) && (exists|k: int|
                        0 <= k < mid.len() && (#[trigger] mid[k]).id@ == t.id@ && mid[k].list_id@
                            == lid) && created_task(
                        mid,
                        nt,
                        lid,
                        t.content@,
                        nd,
                        t.ping_interval,
                        t.priority,
                        Some(r@),
                    ) && new.db.tasks@ == mid.push(nt) && next_message(new.status_message, nd)
            } else {
                new.db.tasks@ == mid && new.status_message == old.status_message
            },
        }
    }
}

/// The selected task's store changed, the message set and the view
/// refreshed; nothing else changed.
pub open spec fn task_changed(old: App, new: App) -> bool {
    &&& new.db.lists@ == old.db.lists@
    &&& new.lists == old.lists
    &&& new.selected_list == old.selected_list
    &&& new.same_ui(&old)
    &&& new.refreshed_from(old.selected_task)
}

impl App {
    /// Editing can start: the local time of the selected task's due time is
    /// one chrono represents in every time zone.
    pub open spec fn edit_ok(&self) -> bool {
        self.selected_index() matches Some(i) ==> (self.tasks@[i].due_at matches Some(d)
            ==> crate::clock::in_local_range(d as int))
    }

    /// Completing the selected task can go ahead: when it recurs from a due
    /// time, that time is one chrono represents and the next one's local
    /// time is one it represents in every time zone.
    pub open spec fn toggle_ok(&self) -> bool {
        self.selected_index() matches Some(i) ==> {
            let t = self.tasks@[i];
            (!t.completed && t.recurrence is Some && t.due_at is Some) ==> {
                let d = t.due_at->0;
                &&& in_calendar(d as int)
                &&& recurrence_step(t.recurrence->0@) matches Some(k) ==> crate::clock::in_local_range(d + k)
            }
        }
    }

    /// Executable `edit_ok`.
    pub fn can_edit(&self) -> (r: bool)
        ensures
            r == self.edit_ok(),
    {
        match self.selected_task_data() {
            Some(t) => match t.due_at {
                Some(d) => crate::clock::MIN_LOCAL_MILLIS <= d && d <= crate::clock::MAX_LOCAL_MILLIS,
                None => true,
            },
            None => true,
        }
    }

    /// Executable `toggle_ok`.
    pub fn can_toggle(&self) -> (r: bool)
        ensures
            r == self.toggle_ok(),
    {
        let r = self.can_toggle_at(self.selected_task);
        assert((App { selected_task: self.selected_task, ..*self }) == *self);
        r
    }

    /// Whether `toggle_ok` holds with the task at position `s` selected.
    pub fn can_toggle_at(&self, s: usize) -> (r: bool)
        ensures
            r == (App { selected_task: s, ..*self }).toggle_ok(),
    {
        let ghost a = App { selected_task: s, ..*self };
        assert(a.selectable_spec() == self.selectable_spec());
        let t = match self.nth_selectable(s) {
            Some(i) => {
                if i < self.tasks.len() {
                    &self.tasks[i]
                } else {
                    return true;
                }
            },
            None => {
                return true;
            },
        };
        if !t.completed {
            match (&t.recurrence, t.due_at) {
                (Some(rec), Some(d)) => {
                    if !(crate::clock::MIN_MILLIS <= d && d <= crate::clock::MAX_MILLIS) {
                        return false;
                    }
                    match crate::parser::recurrence_step_of(rec.as_str()) {
                        Some(k) => {
                            let e: i128 = d as i128 + k as i128;
                            crate::clock::MIN_LOCAL_MILLIS as i128 <= e && e
                                <= crate::clock::MAX_LOCAL_MILLIS as i128
                        },
                        None => true,
                    }
                },
                _ => true,
            }
        } else {
            true
        }
    }

    /// The numbers of shown open and shown completed tasks.
    pub fn shown_counts(&self) -> (r: (usize, usize))
        ensures
            r.0 == open_of(self.tasks@, self.filtered_indices@).len(),
            r.1 == done_of(self.tasks@, self.filtered_indices@).len(),
    {
        let (o, d) = self.split_filtered();
        (o.len(), d.len())
    }

    /// Puts the selected task into the input line for editing.
    pub fn start_edit(&mut self)
        requires
            old(self).wf(),
            old(self).edit_ok(),
        ensures
            final(self).wf(),
            edit_started(*old(self), *final(self)),
    {
        let picked = match self.selected_task_data() {
            Some(t) => Some(copy_task(t)),
            None => None,
        };
        match picked {
            Some(t) => {
                let rec = opt_str(&t.recurrence);
                let text = reconstruct_task_input(
                    t.content.as_str(),
                    t.due_at,
                    t.ping_interval,
                    t.priority,
                    rec,
                );
                self.editing_task_id = Some(t.id.clone());
                let n = byte_count(text.as_str());
                self.input = text;
                self.cursor_pos = n;
                self.input_mode = InputMode::Insert;
                self.search_mode = false;
                proof {
                    assert(opt_view(t.recurrence) == (match rec {
                        Some(x) => Some(x@),
                        None => None,
                    }));
                    assert(self.input@.take(self.input@.len() as int) =~= self.input@);
                    lemma_char_at_byte_complete(self.input@, self.input@.len() as int);
                }
            },
            None => {},
        }
    }

    /// Leaves editing and empties the input.
    pub fn cancel_edit(&mut self)
        requires
            old(self).wf(),
        ensures
            final(self).wf(),
            edit_cancelled(*old(self), *final(self)),
    {
        self.editing_task_id = None;
        self.clear_input();
        self.input_mode = InputMode::Normal;
    }

    /// Toggles the selected task; completing a recurring task adds its next
    /// occurrence to the task's list.
    pub fn toggle_selected_task(&mut self)
        requires
            old(self).wf(),
            old(self).toggle_ok(),
        ensures
            final(self).wf(),
            task_toggled(*old(self), *final(self)),
    {
        let picked = match self.selected_task_data() {
            Some(t) => Some(copy_task(t)),
            None => None,
        };
        let t = match picked {
            Some(t) => t,
            None => {
                return;
            },
        };
        let ghost old_app = *self;
        self.db.toggle_task(t.id.as_str());
        let ghost mid = self.db.tasks@;
        if !t.completed {
            match &t.recurrence {
                Some(rec) => {
                    match self.db.get_task_list_id(t.id.as_str()) {
                        Some(list_id) => {
                            proof {
                                let k = choose|k: int|
                                    0 <= k < self.db.tasks@.len() && (#[trigger] self.db.tasks@[k]).id@
                                        == t.id@ && list_id@ == self.db.tasks@[k].list_id@;
                                assert(list_exists(self.db.lists@, self.db.tasks@[k].list_id@));
                            }
                            let next_due = next_recurrence_due(t.due_at, rec.as_str());
                            let nt = self.db.create_task(
                                list_id.as_str(),
                                t.content.as_str(),
                                next_due,
                                t.ping_interval,
                                t.priority,
                                Some(rec.as_str()),
                            );
                            let due_text = match next_due {
                                Some(d) => format_due_date(d),
                                None => string_of(&vec!['s', 'o', 'o', 'n']),
                            };
                            self.status_message = Some(
                                text_with(
                                    &['D', 'o', 'n', 'e', '!', ' ', 'N', 'e', 'x', 't', ':', ' '],
                                    due_text.as_str(),
                                ),
                            );
                            proof {
                                assert(next_due_of(t.due_at, rec@, next_due));
                                assert(next_message(self.status_message, next_due));
                                assert(created_task(
                                    mid,
                                    nt,
                                    list_id@,
                                    t.content@,
                                    next_due,
                                    t.ping_interval,
                                    t.priority,
                                    Some(rec@),
                                ));
                            }
                        },
                        None => {},
                    }
                },
                None => {
                    self.status_message = Some(string_of(&vec!['D', 'o', 'n', 'e', '!']));
                },
            }
        } else {
            self.status_message = Some(
                string_of(&vec!['U', 'n', 'c', 'h', 'e', 'c', 'k', 'e', 'd']),
            );
        }
        assert(toggle_stored(old_app, *self, t));
        self.refresh_tasks();
        assert(toggle_stored(old_app, *self, t));
    }
}


/// Every shown index names a task, open ones in `open_of`, completed ones in
/// `done_of`.
pub proof fn lemma_shown_in_range(tasks: Seq<Task>, f: Seq<usize>)
    ensures
        forall|k: int|
            0 <= k < open_of(tasks, f).len() ==> (#[trigger] open_of(tasks, f)[k] as int) < tasks.len()
                && !tasks[open_of(tasks, f)[k] as int].completed,
        forall|k: int|
            0 <= k < done_of(tasks, f).len() ==> (#[trigger] done_of(tasks, f)[k] as int) < tasks.len()
                && tasks[done_of(tasks, f)[k] as int].completed,
    decreases f.len(),
{
    if f.len() > 0 {
        lemma_shown_in_range(tasks, f.drop_last());
    }
}

impl App {
    proof fn lemma_selectable_in_range(&self)
        ensures
            forall|k: int|
                0 <= k < self.selectable_spec().len() ==> (#[trigger] self.selectable_spec()[k] as int)
                    < self.tasks@.len(),
    {
        lemma_shown_in_range(self.tasks@, self.filtered_indices@);
        let o = open_of(self.tasks@, self.filtered_indices@);
        let d = done_of(self.tasks@, self.filtered_indices@);
        assert forall|k: int| 0 <= k < self.selectable_spec().len() implies (
        #[trigger] self.selectable_spec()[k] as int) < self.tasks@.len() by {
            if k < o.len() {
                assert(self.selectable_spec()[k] == o[k]);
            } else {
                assert(self.selectable_spec()[k] == d[k - o.len()]);
            }
        }
    }

    /// A copy of the selected task.
    fn picked(&self) -> (r: Option<Task>)
        ensures
            match r {
                Some(t) => self.selected_index() matches Some(i) && t == self.tasks@[i],
                None => self.selected_index() is None,
            },
    {
        match self.selected_task_data() {
            Some(t) => Some(copy_task(t)),
            None => None,
        }
    }

    /// Deletes the selected task.
    pub fn delete_selected_task(&mut self)
        requires
            old(self).wf(),
        ensures
            final(self).wf(),
            task_deleted(*old(self), *final(self)),
    {
        let t = match self.picked() {
            Some(t) => t,
            None => {
                return;
            },
        };
        self.db.delete_task(t.id.as_str());
        self.status_message = Some(string_of(&vec!['D', 'e', 'l', 'e', 't', 'e', 'd']));
        self.refresh_tasks();
    }

    /// Deletes the current list and its tasks, unless it is the only list.
    pub fn delete_current_list(&mut self)
        requires
            old(self).wf(),
        ensures
            final(self).wf(),
            list_deleted(*old(self), *final(self)),
    {
        if self.lists.len() <= 1 {
            self.status_message = Some(
                string_of(
                    &vec![
                        'C', 'a', 'n', '\'', 't', ' ', 'd', 'e', 'l', 'e', 't', 'e', ' ', 't', 'h',
                        'e', ' ', 'l', 'a', 's', 't', ' ', 'l', 'i', 's', 't',
                    ],
                ),
            );
            self.view = View::Tasks;
            return;
        }
        match self.current_list() {
            Some(list) => {
                let id = list.id.clone();
                let name = list.name.clone();
                self.db.delete_list(id.as_str());
                self.status_message = Some(
                    text_with(
                        &['D', 'e', 'l', 'e', 't', 'e', 'd', ' ', 'l', 'i', 's', 't', ':', ' '],
                        name.as_str(),
                    ),
                );
                self.refresh_lists();
                self.refresh_tasks();
            },
            None => {},
        }
        self.view = View::Tasks;
    }

    /// Restarts the ping countdown of the selected task from now.
    pub fn snooze_selected(&mut self)
        requires
            old(self).wf(),
        ensures
            final(self).wf(),
            task_snoozed(*old(self), *final(self)),
    {
        let t = match self.picked() {
            Some(t) => t,
            None => {
                return;
            },
        };
        match t.ping_interval {
            Some(p) => {
                let interval_text = format_ping_interval(p);
                self.db.snooze_task(t.id.as_str());
                self.status_message = Some(
                    text_with(
                        &['S', 'n', 'o', 'o', 'z', 'e', 'd', ' ', 'f', 'o', 'r', ' '],
                        interval_text.as_str(),
                    ),
                );
                self.refresh_tasks();
            },
            None => {
                self.status_message = Some(
                    string_of(
                        &vec![
                            'N', 'o', ' ', 'p', 'i', 'n', 'g', ' ', 't', 'o', ' ', 's', 'n', 'o',
                            'o', 'z', 'e',
                        ],
                    ),
                );
            },
        }
    }

    /// Swaps the selected task with the selectable task at `other`, when
    /// both are open or both done and share a priority.
    fn swap_with(&mut self, other: usize, moved_to: usize)
        requires
            old(self).wf(),
            old(self).selected_task < old(self).selectable_spec().len(),
            other < old(self).selectable_spec().len(),
        ensures
            final(self).wf(),
            ({
                let s = old(self).selectable_spec();
                let ct = old(self).tasks@[s[old(self).selected_task as int] as int];
                let ot = old(self).tasks@[s[other as int] as int];
                if ct.completed == ot.completed && ct.priority == ot.priority {
                    &&& swapped_orders(old(self).db.tasks@, final(self).db.tasks@, ct.id@, ot.id@)
                    &&& final(self).status_message == old(self).status_message
                    &&& final(self).db.lists@ == old(self).db.lists@
                    &&& final(self).lists == old(self).lists
                    &&& final(self).selected_list == old(self).selected_list
                    &&& final(self).same_ui(old(self))
                    &&& final(self).refreshed_from(moved_to)
                } else {
                    &&& says(final(self).status_message, reorder_label())
                    &&& *final(self) == (App { status_message: final(self).status_message, ..*old(self) })
                }
            }),
    {
        proof {
            self.lemma_selectable_in_range();
        }
        let s = self.selectable_indices();
        let ci = s[self.selected_task];
        let oi = s[other];
        let ct = copy_task(&self.tasks[ci]);
        let ot = copy_task(&self.tasks[oi]);
        if ct.completed == ot.completed && ct.priority == ot.priority {
            self.db.swap_sort_order(ct.id.as_str(), ot.id.as_str());
            self.selected_task = moved_to;
            self.refresh_tasks();
        } else {
            self.status_message = Some(
                string_of(
                    &vec![
                        'C', 'a', 'n', '\'', 't', ' ', 'r', 'e', 'o', 'r', 'd', 'e', 'r', ' ', 'a',
                        'c', 'r', 'o', 's', 's', ' ', 'p', 'r', 'i', 'o', 'r', 'i', 't', 'y', '/',
                        'c', 'o', 'm', 'p', 'l', 'e', 't', 'i', 'o', 'n', ' ', 'g', 'r', 'o', 'u',
                        'p', 's',
                    ],
                ),
            );
        }
    }

    /// Moves the selected task one place up within its priority group.
    pub fn move_task_up(&mut self)
        requires
            old(self).wf(),
        ensures
            final(self).wf(),
            moved_up(*old(self), *final(self)),
    {
        if self.selected_task == 0 {
            return;
        }
        let count = self.selectable_count();
        if self.selected_task >= count {
            return;
        }
        let target = self.selected_task - 1;
        self.swap_with(target, target);
    }

    /// Moves the selected task one place down within its priority group.
    pub fn move_task_down(&mut self)
        requires
            old(self).wf(),
        ensures
            final(self).wf(),
            moved_down(*old(self), *final(self)),
    {
        let count = self.selectable_count();
        if count == 0 || self.selected_task >= count - 1 {
            return;
        }
        let target = self.selected_task + 1;
        self.swap_with(target, target);
    }

    // === navigation ===

    /// Selects the task above.
    pub fn move_selection_up(&mut self)
        ensures
            *final(self) == (App {
                selected_task: if old(self).selected_task > 0 {
                    (old(self).selected_task - 1) as usize
                } else {
                    0
                },
                ..*old(self)
            }),
    {
        if self.selected_task > 0 {
            self.selected_task -= 1;
        }
    }

    /// Selects the task below.
    pub fn move_selection_down(&mut self)
        ensures
            *final(self) == (App {
                selected_task: if old(self).selected_task + 1 < old(self).selectable_spec().len() {
                    (old(self).selected_task + 1) as usize
                } else {
                    old(self).selected_task
                },
                ..*old(self)
            }),
    {
        let count = self.selectable_count();
        if count > 0 && self.selected_task < count - 1 {
            self.selected_task += 1;
        }
    }

    /// Selects the first task.
    pub fn move_selection_top(&mut self)
        ensures
            *final(self) == (App { selected_task: 0, ..*old(self) }),
    {
        self.selected_task = 0;
    }

    /// Selects the last task.
    pub fn move_selection_bottom(&mut self)
        ensures
            *final(self) == (App {
                selected_task: if old(self).selectable_spec().len() > 0 {
                    (old(self).selectable_spec().len() - 1) as usize
                } else {
                    old(self).selected_task
                },
                ..*old(self)
            }),
    {
        let count = self.selectable_count();
        if count > 0 {
            self.selected_task = count - 1;
        }
    }

    /// Shows the next list (after the last, the first).
    pub fn next_list(&mut self)
        requires
            old(self).wf(),
        ensures
            final(self).wf(),
            went_to_next_list(*old(self), *final(self)),
    {
        if self.lists.len() > 0 {
            let n = self.lists.len();
            let m = self.selected_list % n;
            self.selected_list = if m + 1 == n {
                0
            } else {
                m + 1
            };
            proof {
                let a = old(self).selected_list as int;
                let ni = n as int;
                let mi = m as int;
                let r = self.selected_list as int;
                assert(mi == a % ni);
                assert(r == (a + 1) % ni) by (nonlinear_arith)
                    requires
                        ni > 0,
                        a >= 0,
                        mi == a % ni,
                        mi + 1 == ni ==> r == 0,
                        mi + 1 != ni ==> r == mi + 1,
                ;
            }
            self.selected_task = 0;
            self.scroll_offset = 0;
            self.refresh_tasks();
        }
    }

    /// Shows the previous list (before the first, the last).
    pub fn prev_list(&mut self)
        requires
            old(self).wf(),
        ensures
            final(self).wf(),
            went_to_prev_list(*old(self), *final(self)),
    {
        if self.lists.len() > 0 {
            self.selected_list = if self.selected_list == 0 {
                self.lists.len() - 1
            } else {
                self.selected_list - 1
            };
            self.selected_task = 0;
            self.scroll_offset = 0;
            self.refresh_tasks();
        }
    }

    /// Opens the first list named `name` (up to ASCII case, as lists are
    /// matched by name elsewhere); nothing changes when no list has that
    /// name.
    pub fn select_list_by_name(&mut self, name: &str)
        requires
            old(self).wf(),
        ensures
            final(self).wf(),
            list_selected_by_name(*old(self), *final(self), name@),
    {
        match self.db.first_named_exec(name) {
            Some(i) => {
                self.selected_list = i;
                self.selected_task = 0;
                self.scroll_offset = 0;
                self.refresh_tasks();
            },
            None => {},
        }
    }

    // === the today view ===

    /// Opens the today view, or closes it back to the current list.
    pub fn toggle_today(&mut self)
        requires
            old(self).wf(),
        ensures
            final(self).wf(),
            shown_view(*old(self), *final(self), !old(self).viewing_today, old(self).selected_list),
    {
        self.viewing_today = !self.viewing_today;
        self.selected_task = 0;
        self.scroll_offset = 0;
        self.refresh_tasks();
    }

    /// Shows the next (or previous) of the today view and the lists, in the
    /// order today, first list, ..., last list, today.
    pub fn cycle_list(&mut self, forward: bool)
        requires
            old(self).wf(),
        ensures
            final(self).wf(),
            shown_view(*old(self), *final(self), cycle_target(*old(self), forward).0, cycle_target(*old(self), forward).1),
    {
        let n = self.lists.len();
        if forward {
            if self.viewing_today {
                if n > 0 {
                    self.viewing_today = false;
                    self.selected_list = 0;
                }
            } else if self.selected_list < n && self.selected_list + 1 < n {
                self.selected_list = self.selected_list + 1;
            } else {
                self.viewing_today = true;
            }
        } else {
            if self.viewing_today {
                if n > 0 {
                    self.viewing_today = false;
                    self.selected_list = n - 1;
                }
            } else if self.selected_list == 0 {
                self.viewing_today = true;
            } else {
                self.selected_list = self.selected_list - 1;
            }
        }
        self.selected_task = 0;
        self.scroll_offset = 0;
        self.refresh_tasks();
    }

    // === the detail pane ===

    /// The task whose details the pane shows: the selected one, when the
    /// pane is open on it.
    pub open spec fn detail_index(&self) -> Option<int> {
        match self.selected_index() {
            Some(i) => if self.expanded_task_id matches Some(e) && e@ == self.tasks@[i].id@ {
                Some(i)
            } else {
                None
            },
            None => None,
        }
    }

    /// The selected task when the detail pane is open on it.
    pub fn detail_task(&self) -> (r: Option<&Task>)
        ensures
            match r {
                Some(t) => self.detail_index() matches Some(i) && *t == self.tasks@[i],
                None => self.detail_index() is None,
            },
    {
        match self.selected_task_data() {
            Some(t) => match &self.expanded_task_id {
                Some(e) => {
                    if *e == t.id {
                        Some(t)
                    } else {
                        None
                    }
                },
                None => None,
            },
            None => None,
        }
    }

    /// Opens the detail pane on the selected task, or closes it when it is
    /// open on that task or no task is selected.
    pub fn toggle_detail_pane(&mut self)
        ensures
            *final(self) == (App { expanded_task_id: detail_toggled(*old(self)), ..*old(self) }),
    {
        let next = match self.selected_task_data() {
            Some(t) => match &self.expanded_task_id {
                Some(e) => {
                    if *e == t.id {
                        None
                    } else {
                        Some(t.id.clone())
                    }
                },
                None => Some(t.id.clone()),
            },
            None => None,
        };
        self.expanded_task_id = next;
    }

    /// The name of the list with id `id`, or `?` when there is none.
    pub fn list_name_for_id(&self, id: &str) -> (r: String)
        ensures
            r@ == list_name_of(self.lists@, id@, 0),
    {
        crate::cli::list_name(&self.lists, id)
    }

    // === search ===

    /// Starts a search: the input line takes the pattern.
    pub fn start_search(&mut self)
        requires
            old(self).wf(),
        ensures
            final(self).wf(),
            search_started(*old(self), *final(self)),
    {
        self.search_mode = true;
        self.input_mode = InputMode::Insert;
        self.clear_input();
    }

    /// Ends the search and shows every task again.
    pub fn cancel_search(&mut self)
        requires
            old(self).wf(),
        ensures
            final(self).wf(),
            search_cancelled(*old(self), *final(self)),
    {
        self.close_search();
    }

    /// The number of open tasks in the current list.
    pub fn pending_count(&self) -> (r: usize)
        ensures
            r == keep(self.tasks@, |t: Task| !t.completed).len(),
    {
        let mut n: usize = 0;
        let mut i: usize = 0;
        while i < self.tasks.len()
            invariant
                i <= self.tasks.len(),
                n == keep(self.tasks@.take(i as int), |t: Task| !t.completed).len(),
                n <= i,
            decreases self.tasks.len() - i,
        {
            proof {
                crate::db::lemma_keep_step(self.tasks@, i as int, |t: Task| !t.completed);
            }
            if !self.tasks[i].completed {
                n += 1;
            }
            i += 1;
        }
        assert(self.tasks@.take(self.tasks@.len() as int) =~= self.tasks@);
        n
    }
}


// ======================= effects of the actions =======================

/// The effect of `App::start_edit`.
pub open spec fn edit_started(old: App, new: App) -> bool {
    &&& match old.selected_index() {
        None => new == old,
        Some(i) => {
            let t = old.tasks@[i];
            &&& new.editing_task_id == Some(t.id)
            &&& reconstructed(t, new.input@)
            &&& new.cursor_pos == byte_len(new.input@)
            &&& new.input_mode == InputMode::Insert
            &&& !new.search_mode
            &&& new == (App {
                input: new.input,
                cursor_pos: new.cursor_pos,
                editing_task_id: new.editing_task_id,
                input_mode: InputMode::Insert,
                search_mode: false,
                ..old
            })
        }
    }
}

/// The effect of `App::cancel_edit`.
pub open spec fn edit_cancelled(old: App, new: App) -> bool {
    &&& new.editing_task_id is None
    &&& new.input@.len() == 0
    &&& new.cursor_pos == 0
    &&& new.input_mode == InputMode::Normal
    &&& new == (App {
        input: new.input,
        cursor_pos: 0,
        editing_task_id: None,
        input_mode: InputMode::Normal,
        ..old
    })
}

/// The effect of `App::delete_selected_task`.
pub open spec fn task_deleted(old: App, new: App) -> bool {
    &&& match old.selected_index() {
        None => new == old,
        Some(i) => {
            &&& new.db.tasks@ == keep(
                old.db.tasks@,
                |x: Task| x.id@ != old.tasks@[i].id@,
            )
            &&& says(new.status_message, deleted_label())
            &&& task_changed(old, new)
        }
    }
}

/// The effect of `App::delete_current_list`.
pub open spec fn list_deleted(old: App, new: App) -> bool {
    &&& new.view == View::Tasks
    &&& old.lists@.len() <= 1 ==> {
        &&& says(new.status_message, last_list_label())
        &&& new == (App {
            status_message: new.status_message,
            view: View::Tasks,
            ..old
        })
    }
    &&& old.lists@.len() > 1 ==> match old.current_list_spec() {
        None => new == (App { view: View::Tasks, ..old }),
        Some(l) => {
            &&& new.db.lists@ == keep_lists(
                old.db.lists@,
                |x: List| x.id@ != l.id@,
            )
            &&& new.db.tasks@ == keep(
                old.db.tasks@,
                |x: Task| x.list_id@ != l.id@,
            )
            &&& says(new.status_message, deleted_list_label() + l.name@)
            &&& new.lists@ == new.db.lists@
            &&& new.selected_list == (if old.selected_list
                >= new.lists@.len() && new.lists@.len() > 0 {
                (new.lists@.len() - 1) as usize
            } else {
                old.selected_list
            })
            &&& new.refreshed_from(old.selected_task)
            &&& new.input == old.input
            &&& new.cursor_pos == old.cursor_pos
            &&& new.input_mode == old.input_mode
            &&& new.show_completed == old.show_completed
            &&& new.search_mode == old.search_mode
            &&& new.editing_task_id == old.editing_task_id
            &&& new.should_quit == old.should_quit
            &&& new.expanded_task_id == old.expanded_task_id
            &&& new.viewing_today == old.viewing_today
            &&& new.scroll_offset == old.scroll_offset
        }
    }
}

/// The effect of `App::snooze_selected`.
pub open spec fn task_snoozed(old: App, new: App) -> bool {
    &&& match old.selected_index() {
        None => new == old,
        Some(i) => match old.tasks@[i].ping_interval {
            Some(p) => {
                &&& exists|now: i64|
                    #[trigger] in_calendar(now as int) && new.db.tasks@ == edit_where(
                        old.db.tasks@,
                        old.tasks@[i].id@,
                        Edit::LastPing(Some(now)),
                    )
                &&& says(new.status_message, snoozed_label() + ping_interval_text(p as int))
                &&& task_changed(old, new)
            },
            None => {
                &&& says(new.status_message, no_ping_label())
                &&& new == (App { status_message: new.status_message, ..old })
            },
        }
    }
}

/// The effect of `App::move_task_up`.
pub open spec fn moved_up(old: App, new: App) -> bool {
    &&& (old.selected_task == 0 || old.selected_task >= old.selectable_spec().len())
        ==> new == old
    &&& (0 < old.selected_task < old.selectable_spec().len()) ==> ({
        let s = old.selectable_spec();
        let ct = old.tasks@[s[old.selected_task as int] as int];
        let pt = old.tasks@[s[old.selected_task - 1] as int];
        if ct.completed == pt.completed && ct.priority == pt.priority {
            &&& swapped_orders(old.db.tasks@, new.db.tasks@, ct.id@, pt.id@)
            &&& new.status_message == old.status_message
            &&& new.db.lists@ == old.db.lists@
            &&& new.lists == old.lists
            &&& new.selected_list == old.selected_list
            &&& new.same_ui(&old)
            &&& new.refreshed_from((old.selected_task - 1) as usize)
        } else {
            &&& says(new.status_message, reorder_label())
            &&& new == (App { status_message: new.status_message, ..old })
        }
    })
}

/// The effect of `App::move_task_down`.
pub open spec fn moved_down(old: App, new: App) -> bool {
    &&& (old.selected_task + 1 >= old.selectable_spec().len()) ==> new == old
    &&& (old.selected_task + 1 < old.selectable_spec().len()) ==> ({
        let s = old.selectable_spec();
        let ct = old.tasks@[s[old.selected_task as int] as int];
        let nt = old.tasks@[s[old.selected_task + 1] as int];
        if ct.completed == nt.completed && ct.priority == nt.priority {
            &&& swapped_orders(old.db.tasks@, new.db.tasks@, ct.id@, nt.id@)
            &&& new.status_message == old.status_message
            &&& new.db.lists@ == old.db.lists@
            &&& new.lists == old.lists
            &&& new.selected_list == old.selected_list
            &&& new.same_ui(&old)
            &&& new.refreshed_from((old.selected_task + 1) as usize)
        } else {
            &&& says(new.status_message, reorder_label())
            &&& new == (App { status_message: new.status_message, ..old })
        }
    })
}

/// The effect of `App::next_list`.
pub open spec fn went_to_next_list(old: App, new: App) -> bool {
    &&& old.lists@.len() == 0 ==> new == old
    &&& old.lists@.len() > 0 ==> {
        &&& new.selected_list == (old.selected_list + 1) % (old.lists@.len() as int)
        &&& new.scroll_offset == 0
        &&& new.db == old.db
        &&& new.lists == old.lists
        &&& new.status_message == old.status_message
        &&& new.input == old.input
        &&& new.cursor_pos == old.cursor_pos
        &&& new.input_mode == old.input_mode
        &&& new.view == old.view
        &&& new.show_completed == old.show_completed
        &&& new.search_mode == old.search_mode
        &&& new.editing_task_id == old.editing_task_id
        &&& new.should_quit == old.should_quit
        &&& new.expanded_task_id == old.expanded_task_id
        &&& new.viewing_today == old.viewing_today
        &&& new.refreshed_from(0)
    }
}

/// `new` shows the today view (when `today`) or list `list`, reloaded with
/// the selection at the top; the rest is as in `old`.
pub open spec fn shown_view(old: App, new: App, today: bool, list: usize) -> bool {
    &&& new.viewing_today == today
    &&& new.selected_list == list
    &&& new.scroll_offset == 0
    &&& new.db == old.db
    &&& new.lists == old.lists
    &&& new.status_message == old.status_message
    &&& new.input == old.input
    &&& new.cursor_pos == old.cursor_pos
    &&& new.input_mode == old.input_mode
    &&& new.view == old.view
    &&& new.show_completed == old.show_completed
    &&& new.search_mode == old.search_mode
    &&& new.editing_task_id == old.editing_task_id
    &&& new.should_quit == old.should_quit
    &&& new.expanded_task_id == old.expanded_task_id
    &&& new.refreshed_from(0)
}

/// Where `App::cycle_list` goes, as (today view, list): forward from the
/// today view to the first list and from the last list to the today view;
/// backward the other way. Without lists the today view stays.
pub open spec fn cycle_target(a: App, forward: bool) -> (bool, usize) {
    let n = a.lists@.len();
    if forward {
        if a.viewing_today {
            if n > 0 {
                (false, 0usize)
            } else {
                (true, a.selected_list)
            }
        } else if a.selected_list + 1 < n {
            (false, (a.selected_list + 1) as usize)
        } else {
            (true, a.selected_list)
        }
    } else {
        if a.viewing_today {
            if n > 0 {
                (false, (n - 1) as usize)
            } else {
                (true, a.selected_list)
            }
        } else if a.selected_list == 0 {
            (true, a.selected_list)
        } else {
            (false, (a.selected_list - 1) as usize)
        }
    }
}

/// The detail pane after `App::toggle_detail_pane`.
pub open spec fn detail_toggled(a: App) -> Option<String> {
    match a.selected_index() {
        Some(i) => if a.expanded_task_id matches Some(e) && e@ == a.tasks@[i].id@ {
            None
        } else {
            Some(a.tasks@[i].id)
        },
        None => None,
    }
}

/// The effect of `App::select_list_by_name` with the name `name`.
pub open spec fn list_selected_by_name(old: App, new: App, name: Seq<char>) -> bool {
    match first_named(old.lists@, name, 0) {
        None => new == old,
        Some(i) => {
            &&& new.selected_list == i
            &&& new.scroll_offset == 0
            &&& new.db == old.db
            &&& new.lists == old.lists
            &&& new.status_message == old.status_message
            &&& new.input == old.input
            &&& new.cursor_pos == old.cursor_pos
            &&& new.input_mode == old.input_mode
            &&& new.view == old.view
            &&& new.show_completed == old.show_completed
            &&& new.search_mode == old.search_mode
            &&& new.editing_task_id == old.editing_task_id
            &&& new.should_quit == old.should_quit
            &&& new.expanded_task_id == old.expanded_task_id
            &&& new.viewing_today == old.viewing_today
            &&& new.refreshed_from(0)
        },
    }
}

/// The effect of `App::prev_list`.
pub open spec fn went_to_prev_list(old: App, new: App) -> bool {
    &&& old.lists@.len() == 0 ==> new == old
    &&& old.lists@.len() > 0 ==> {
        &&& new.selected_list == (if old.selected_list == 0 {
            (old.lists@.len() - 1) as usize
        } else {
            (old.selected_list - 1) as usize
        })
        &&& new.scroll_offset == 0
        &&& new.db == old.db
        &&& new.lists == old.lists
        &&& new.status_message == old.status_message
        &&& new.input == old.input
        &&& new.cursor_pos == old.cursor_pos
        &&& new.input_mode == old.input_mode
        &&& new.view == old.view
        &&& new.show_completed == old.show_completed
        &&& new.search_mode == old.search_mode
        &&& new.editing_task_id == old.editing_task_id
        &&& new.should_quit == old.should_quit
        &&& new.expanded_task_id == old.expanded_task_id
        &&& new.viewing_today == old.viewing_today
        &&& new.refreshed_from(0)
    }
}

/// The effect of `App::start_search`.
pub open spec fn search_started(old: App, new: App) -> bool {
    &&& new == (App {
        search_mode: true,
        input_mode: InputMode::Insert,
        input: new.input,
        cursor_pos: 0,
        ..old
    })
    &&& new.input@.len() == 0
}

/// The effect of `App::cancel_search`.
pub open spec fn search_cancelled(old: App, new: App) -> bool {
    &&& new.db == old.db
    &&& new.lists == old.lists
    &&& new.tasks == old.tasks
    &&& new.selected_list == old.selected_list
    &&& new.status_message == old.status_message
    &&& new.editing_task_id == old.editing_task_id
    &&& !new.search_mode
    &&& new.input_mode == InputMode::Normal
    &&& new.view == old.view
    &&& input_cleared(old, new)
    &&& new.filtered_indices@ == Seq::new(new.tasks@.len(), |i: int| i as usize)
    &&& new.selected_task == clamped(old.selected_task, new.selectable_spec().len())
}

/// The effect of `App::delete_char_before_cursor`.
pub open spec fn deleted_before_cursor(old: App, new: App) -> bool {
    &&& old.cursor_pos == 0 ==> new == old
    &&& old.cursor_pos > 0 ==> {
        let k = cursor_index(old);
        &&& new.input@ == old.input@.remove(k - 1)
        &&& new.cursor_pos == old.cursor_pos - width(old.input@[k - 1])
        &&& input_reapplied(old, new)
    }
}

/// The effect of `App::delete_char_at_cursor`.
pub open spec fn deleted_at_cursor(old: App, new: App) -> bool {
    &&& cursor_index(old) == old.input@.len() ==> new == old
    &&& cursor_index(old) < old.input@.len() ==> {
        &&& new.input@ == old.input@.remove(cursor_index(old))
        &&& new.cursor_pos == old.cursor_pos
        &&& input_reapplied(old, new)
    }
}

/// The effect of `App::delete_word_before_cursor`.
pub open spec fn word_deleted(old: App, new: App) -> bool {
    &&& old.cursor_pos == 0 ==> new == old
    &&& old.cursor_pos > 0 ==> {
        let k = cursor_index(old);
        let j = word_cut(old.input@, k);
        &&& new.input@ == old.input@.take(j) + old.input@.skip(k)
        &&& new.cursor_pos == byte_len(old.input@.take(j))
        &&& input_reapplied(old, new)
    }
}

/// The effect of `App::move_cursor_left`.
pub open spec fn cursor_moved_left(old: App, new: App) -> bool {
    &&& old.cursor_pos == 0 ==> new == old
    &&& old.cursor_pos > 0 ==> {
        &&& new == (App { cursor_pos: new.cursor_pos, ..old })
        &&& cursor_index(new) == cursor_index(old) - 1
        &&& new.cursor_pos == old.cursor_pos - width(old.input@[cursor_index(old) - 1])
    }
}

/// The effect of `App::move_cursor_right`.
pub open spec fn cursor_moved_right(old: App, new: App) -> bool {
    &&& cursor_index(old) == old.input@.len() ==> new == old
    &&& cursor_index(old) < old.input@.len() ==> {
        &&& new == (App { cursor_pos: new.cursor_pos, ..old })
        &&& cursor_index(new) == cursor_index(old) + 1
        &&& new.cursor_pos == old.cursor_pos + width(old.input@[cursor_index(old)])
    }
}

/// The effect of `App::delete_to_start`.
pub open spec fn deleted_to_start(old: App, new: App) -> bool {
    &&& new.input@ == old.input@.skip(cursor_index(old))
    &&& new.cursor_pos == 0
    &&& input_reapplied(old, new)
}

/// The effect of `App::toggle_selected_task`.
pub open spec fn task_toggled(old: App, new: App) -> bool {
    &&& match old.selected_index() {
        None => new == old,
        Some(i) => toggle_stored(old, new, old.tasks@[i]) && task_changed(
            old,
            new,
        )
    }
}

/// The effect of `App::move_cursor_end`.
pub open spec fn cursor_at_end(old: App, new: App) -> bool {
    &&& new == (App { cursor_pos: byte_len(old.input@) as usize, ..old })
    &&& new.cursor_pos == byte_len(old.input@)
}

/// The effect of `App::insert_char`.
pub open spec fn char_inserted(old: App, new: App, c: char) -> bool {
    &&& new.input@ == old.input@.take(cursor_index(old)).push(c) + old.input@.skip(cursor_index(old))
    &&& new.cursor_pos == old.cursor_pos + width(c)
    &&& input_reapplied(old, new)
}

impl App {
    /// Runs a ping check at time `now` over the store and returns the
    /// reminders to show; within ten seconds of the last check, nothing is
    /// done.
    pub fn check_pings(&mut self, now: i64) -> (r: Vec<crate::pings::Reminder>)
        requires
            old(self).wf(),
            crate::pings::pings_fit(old(self).db.tasks@, now),
        ensures
            final(self).wf(),
            app_pings_checked(*old(self), *final(self), now, r@),
    {
        if self.last_ping_check <= now && (now as i128) - (self.last_ping_check as i128) < 10000 {
            return Vec::new();
        }
        self.last_ping_check = now;
        crate::pings::check_pings(&mut self.db, now)
    }
}

/// The effect of `App::check_pings` at `now`: within ten seconds of the last
/// check nothing changes and nothing is shown; otherwise the store gets the
/// ping check and the time of the last check becomes `now`.
pub open spec fn app_pings_checked(old: App, new: App, now: i64, r: Seq<crate::pings::Reminder>) -> bool {
    &&& !ping_check_due(old.last_ping_check, now) ==> new == old && r.len() == 0
    &&& ping_check_due(old.last_ping_check, now) ==> {
        &&& crate::pings::pings_checked(old.db, new.db, now, r)
        &&& new == (App { db: new.db, last_ping_check: now, ..old })
    }
}

/// A ping check is due at `now`: ten seconds have passed since the last one
/// at `last` (or the clock went back before it).
pub open spec fn ping_check_due(last: i64, now: i64) -> bool {
    !(last <= now && now - last < 10000)
}

/// The shown open and completed tasks are at most the shown indices.
pub proof fn lemma_open_done_len(tasks: Seq<Task>, f: Seq<usize>)
    ensures
        open_of(tasks, f).len() + done_of(tasks, f).len() <= f.len(),
    decreases f.len(),
{
    if f.len() > 0 {
        lemma_open_done_len(tasks, f.drop_last());
    }
}

/// `r` is the list of rows of `a`.
pub open spec fn visible_is(a: App, r: Seq<VisibleEntry>) -> bool {
    let o = open_of(a.tasks@, a.filtered_indices@);
    let d = done_of(a.tasks@, a.filtered_indices@);
    &&& r.len() == o.len() + (if a.show_completed && d.len() > 0 {
        d.len() + 1
    } else {
        0
    })
    &&& forall|k: int| 0 <= k < o.len() ==> r[k] == VisibleEntry::Task(o[k])
    &&& (a.show_completed && d.len() > 0) ==> {
        &&& r[o.len() as int] matches VisibleEntry::Separator(s) && s@ == separator_label(d.len())
        &&& forall|k: int| 0 <= k < d.len() ==> r[o.len() + 1 + k] == VisibleEntry::Task(d[k])
    }
}

} // verus!
