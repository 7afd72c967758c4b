//! The command line: which command the arguments ask for, adding a task
//! from the command line, and the records that `export` and `list` print.
use vstd::prelude::*;

use crate::db::{
    created_task, first_named, keep, list_exists, Database, List, Task,
};
use crate::order::sorted_by;
use crate::parser::{accepts_entry, entry_accepted, parse_task_input, parsed_as, ParsedTask};
use crate::text::{chars_of, decimal, equals_exec, push_all, push_decimal, push_vec, string_of};

verus! {

broadcast use vstd::seq_lib::group_to_multiset_ensures;

/// `chirp daemon <cmd>`.
#[derive(Debug, Clone, PartialEq, Eq)]
pub enum DaemonCommand {
    Start,
    Stop,
    Restart,
    Install,
    Uninstall,
    Status,
    Unknown(String),
}

/// What the arguments ask for.
#[derive(Debug, Clone, PartialEq, Eq)]
pub enum Command {
    Daemon(DaemonCommand),
    Export,
    /// `add`: the arguments after it are read by `add_task`
    Add,
    /// `list`, with `--json` anywhere
    ListLists { json: bool },
    /// `done`, with `--json` anywhere
    Done { json: bool },
    /// `--import` and the file, if given
    Import(Option<String>),
    Help,
    /// the terminal interface, opened on a list when `--list` names one
    Tui { list: Option<String> },
    /// `--list` came last, without a name
    MissingListName,
}

pub open spec fn arg_is(args: Seq<String>, i: int, word: Seq<char>) -> bool {
    0 <= i < args.len() && args[i]@ == word
}

pub open spec fn list_flag() -> Seq<char> {
    seq!['-', '-', 'l', 'i', 's', 't']
}

/// Scanning the arguments from `i`: the index of the name after the last
/// `--list` (or `cur`) and the indices of the other arguments, or `None`
/// when a `--list` has no name after it.
pub open spec fn scan(args: Seq<String>, i: int, cur: Option<int>, parts: Seq<int>) -> Option<(Option<int>, Seq<int>)>
    decreases args.len() - i,
{
    if i < 0 || i >= args.len() {
        Some((cur, parts))
    } else if args[i]@ == list_flag() {
        if i + 1 < args.len() {
            scan(args, i + 2, Some(i + 1), parts)
        } else {
            None
        }
    } else {
        scan(args, i + 1, cur, parts.push(i))
    }
}

/// The arguments at `idx` joined with single spaces.
pub open spec fn words(args: Seq<String>, idx: Seq<int>) -> Seq<char>
    decreases idx.len(),
{
    if idx.len() == 0 {
        Seq::<char>::empty()
    } else if idx.len() == 1 {
        args[idx[0]]@
    } else {
        words(args, idx.drop_last()) + seq![' '] + args[idx.last()]@
    }
}

pub open spec fn json_flag(args: Seq<String>) -> bool {
    exists|k: int| 0 <= k < args.len() && (#[trigger] args[k])@ == seq!['-', '-', 'j', 's', 'o', 'n']
}

/// The command the arguments (the program's name first) ask for.
pub open spec fn command_for(args: Seq<String>, c: Command) -> bool {
    if arg_is(args, 1, seq!['d', 'a', 'e', 'm', 'o', 'n']) {
        c == Command::Daemon(
            if args.len() <= 2 || arg_is(args, 2, seq!['s', 't', 'a', 'r', 't']) {
                DaemonCommand::Start
            } else if arg_is(args, 2, seq!['s', 't', 'o', 'p']) {
                DaemonCommand::Stop
            } else if arg_is(args, 2, seq!['r', 'e', 's', 't', 'a', 'r', 't']) {
                DaemonCommand::Restart
            } else if arg_is(args, 2, seq!['i', 'n', 's', 't', 'a', 'l', 'l']) {
                DaemonCommand::Install
            } else if arg_is(args, 2, seq!['u', 'n', 'i', 'n', 's', 't', 'a', 'l', 'l']) {
                DaemonCommand::Uninstall
            } else if arg_is(args, 2, seq!['s', 't', 'a', 't', 'u', 's']) {
                DaemonCommand::Status
            } else {
                DaemonCommand::Unknown(args[2])
            },
        )
    } else if arg_is(args, 1, seq!['e', 'x', 'p', 'o', 'r', 't']) {
        c == Command::Export
    } else if arg_is(args, 1, seq!['a', 'd', 'd']) {
        c == Command::Add
    } else if arg_is(args, 1, seq!['l', 'i', 's', 't']) {
        c == Command::ListLists { json: json_flag(args) }
    } else if arg_is(args, 1, seq!['d', 'o', 'n', 'e']) {
        c == Command::Done { json: json_flag(args) }
    } else if arg_is(args, 1, seq!['-', '-', 'i', 'm', 'p', 'o', 'r', 't']) {
        c == Command::Import(if args.len() > 2 { Some(args[2]) } else { None })
    } else if arg_is(args, 1, seq!['-', '-', 'h', 'e', 'l', 'p']) || arg_is(args, 1, seq!['-', 'h']) {
        c == Command::Help
    } else {
        match scan(args, 1, None, Seq::empty()) {
            None => c == Command::MissingListName,
            Some(s) => c == Command::Tui {
                list: match s.0 {
                    Some(k) => Some(args[k]),
                    None => None,
                },
            },
        }
    }
}

fn arg_eq(args: &Vec<String>, i: usize, word: &[char]) -> (r: bool)
    ensures
        r == arg_is(args@, i as int, word@),
{
    if i < args.len() {
        let v = chars_of(args[i].as_str());
        equals_exec(&v, word)
    } else {
        false
    }
}

fn has_json(args: &Vec<String>) -> (r: bool)
    ensures
        r == json_flag(args@),
{
    let mut k: usize = 0;
    while k < args.len()
        invariant
            k <= args.len(),
            forall|j: int| 0 <= j < k ==> (#[trigger] args@[j])@ != seq!['-', '-', 'j', 's', 'o', 'n'],
        decreases args.len() - k,
    {
        if arg_eq(args, k, &['-', '-', 'j', 's', 'o', 'n']) {
            return true;
        }
        k += 1;
    }
    false
}

/// Scans the arguments from `start` for `--list <name>`.
fn scan_args(args: &Vec<String>, start: usize) -> (r: Option<(Option<usize>, Vec<usize>)>)
    ensures
        match r {
            Some(x) => scan(args@, start as int, None, Seq::empty()) == Some(
                (
                    match x.0 {
                        Some(k) => Some(k as int),
                        None => None,
                    },
                    x.1@.map_values(|v: usize| v as int),
                ),
            ),
            None => scan(args@, start as int, None, Seq::empty()) is None,
        },
        r matches Some(x) ==> (x.0 matches Some(k) ==> k < args@.len()) && forall|j: int|
            0 <= j < x.1@.len() ==> (#[trigger] x.1@[j] as int) < args@.len(),
{
    let mut i = start;
    let mut cur: Option<usize> = None;
    let mut parts: Vec<usize> = Vec::new();
    proof {
        assert(parts@.map_values(|v: usize| v as int) =~= Seq::<int>::empty());
    }
    while i < args.len()
        invariant
            start <= i,
            scan(args@, start as int, None, Seq::empty()) == scan(
                args@,
                i as int,
                match cur {
                    Some(k) => Some(k as int),
                    None => None,
                },
                parts@.map_values(|v: usize| v as int),
            ),
            cur matches Some(k) ==> k < args@.len(),
            forall|j: int| 0 <= j < parts@.len() ==> (#[trigger] parts@[j] as int) < args@.len(),
        decreases args.len() - i,
    {
        if arg_eq(args, i, &['-', '-', 'l', 'i', 's', 't']) {
            if i + 1 < args.len() {
                cur = Some(i + 1);
                i = i + 2;
            } else {
                return None;
            }
        } else {
            let ghost before = parts@;
            parts.push(i);
            proof {
                assert(parts@.map_values(|v: usize| v as int) =~= before.map_values(|v: usize| v as int).push(
                    i as int,
                ));
            }
            i = i + 1;
        }
    }
    Some((cur, parts))
}

/// Reads the command from the arguments (the program's name first).
pub fn parse_command(args: &Vec<String>) -> (r: Command)
    ensures
        command_for(args@, r),
{
    if arg_eq(args, 1, &['d', 'a', 'e', 'm', 'o', 'n']) {
        let sub = if args.len() <= 2 || arg_eq(args, 2, &['s', 't', 'a', 'r', 't']) {
            DaemonCommand::Start
        } else if arg_eq(args, 2, &['s', 't', 'o', 'p']) {
            DaemonCommand::Stop
        } else if arg_eq(args, 2, &['r', 'e', 's', 't', 'a', 'r', 't']) {
            DaemonCommand::Restart
        } else if arg_eq(args, 2, &['i', 'n', 's', 't', 'a', 'l', 'l']) {
            DaemonCommand::Install
        } else if arg_eq(args, 2, &['u', 'n', 'i', 'n', 's', 't', 'a', 'l', 'l']) {
            DaemonCommand::Uninstall
        } else if arg_eq(args, 2, &['s', 't', 'a', 't', 'u', 's']) {
            DaemonCommand::Status
        } else {
            DaemonCommand::Unknown(args[2].clone())
        };
        Command::Daemon(sub)
    } else if arg_eq(args, 1, &['e', 'x', 'p', 'o', 'r', 't']) {
        Command::Export
    } else if arg_eq(args, 1, &['a', 'd', 'd']) {
        Command::Add
    } else if arg_eq(args, 1, &['l', 'i', 's', 't']) {
        Command::ListLists { json: has_json(args) }
    } else if arg_eq(args, 1, &['d', 'o', 'n', 'e']) {
        Command::Done { json: has_json(args) }
    } else if arg_eq(args, 1, &['-', '-', 'i', 'm', 'p', 'o', 'r', 't']) {
        Command::Import(
            if args.len() > 2 {
                Some(args[2].clone())
            } else {
                None
            },
        )
    } else if arg_eq(args, 1, &['-', '-', 'h', 'e', 'l', 'p']) || arg_eq(args, 1, &['-', 'h']) {
        Command::Help
    } else {
        match scan_args(args, 1) {
            None => Command::MissingListName,
            Some(s) => Command::Tui {
                list: match s.0 {
                    Some(k) => Some(args[k].clone()),
                    None => None,
                },
            },
        }
    }
}

// ======================= chirp add =======================

/// Why `chirp add` refuses its arguments.
#[derive(Debug, Clone, Copy, PartialEq, Eq, Structural)]
pub enum AddError {
    /// `--list` without a name
    MissingListName,
    /// no task text
    EmptyText,
}

/// The task text of `chirp add`: the arguments after `add` that are not
/// `--list <name>`, joined with spaces.
pub open spec fn add_text(args: Seq<String>) -> Option<Seq<char>> {
    match scan(args, 2, None, Seq::empty()) {
        Some(s) => Some(words(args, s.1)),
        None => None,
    }
}

/// The list named with `--list`, if any.
pub open spec fn add_list(args: Seq<String>) -> Option<Seq<char>> {
    match scan(args, 2, None, Seq::empty()) {
        Some(s) => match s.0 {
            Some(k) => Some(args[k]@),
            None => None,
        },
        None => None,
    }
}

/// `chirp add` can parse its text.
pub open spec fn add_ok(args: Seq<String>) -> bool {
    match add_text(args) {
        Some(t) => t.len() > 0 ==> entry_accepted(t),
        None => true,
    }
}

/// The effect of `add_task`: an error for arguments without text or with a
/// `--list` lacking its name, else the parsed task added to its list.
pub open spec fn add_done(old: Database, new: Database, args: Seq<String>, r: Result<String, AddError>) -> bool {
    match add_text(args) {
        None => r == Err::<String, AddError>(AddError::MissingListName) && new == old,
        Some(t) => if t.len() == 0 {
            r == Err::<String, AddError>(AddError::EmptyText) && new == old
        } else {
            match r {
                Ok(msg) => exists|p: ParsedTask, id: Seq<char>, name: Seq<char>, nt: Task|
                    #![trigger parsed_as(t, p), add_target(old, new.lists@, add_list(args), id, name), created_task(old.tasks@, nt, id, p.content@, p.due_at, p.ping_interval, p.priority, crate::db::opt_view(p.recurrence))]
                    parsed_as(t, p) && add_target(old, new.lists@, add_list(args), id, name)
                        && created_task(
                        old.tasks@,
                        nt,
                        id,
                        p.content@,
                        p.due_at,
                        p.ping_interval,
                        p.priority,
                        crate::db::opt_view(p.recurrence),
                    ) && new.tasks@ == old.tasks@.push(nt) && msg@ == added_to_label() + name
                        + seq![':', ' '] + p.content@,
                Err(_) => false,
            }
        },
    }
}

pub open spec fn added_to_label() -> Seq<char> {
    seq!['A', 'd', 'd', 'e', 'd', ' ', 't', 'o', ' ']
}

/// The list a task from `chirp add` goes to: the one named with `--list`
/// (up to ASCII case, created when missing), else the first list, else a
/// new `Inbox`. `name` is the name the message shows.
pub open spec fn add_target(old: Database, new_lists: Seq<List>, named: Option<Seq<char>>, id: Seq<char>, name: Seq<char>) -> bool {
    match named {
        Some(n) => {
            &&& name == n
            &&& match first_named(old.lists@, n, 0) {
                Some(k) => id == old.lists@[k].id@ && new_lists == old.lists@,
                None => new_lists.len() == old.lists@.len() + 1 && new_lists.drop_last() == old.lists@
                    && new_lists.last().id@ == id && new_lists.last().name@ == n && !list_exists(
                    old.lists@,
                    id,
                ),
            }
        },
        None => if old.lists@.len() > 0 {
            id == old.lists@[0].id@ && name == old.lists@[0].name@ && new_lists == old.lists@
        } else {
            &&& name == seq!['I', 'n', 'b', 'o', 'x']
            &&& new_lists.len() == 1
            &&& new_lists[0].id@ == id
            &&& new_lists[0].name@ == name
        },
    }
}

/// Executable `add_ok`.
pub fn add_accepted(args: &Vec<String>) -> (r: bool)
    ensures
        r == add_ok(args@),
{
    match add_parts(args) {
        Some((_, text)) => {
            if text.as_str().is_empty() {
                true
            } else {
                accepts_entry(text.as_str())
            }
        },
        None => true,
    }
}

/// The list name and the text of `chirp add`.
fn add_parts(args: &Vec<String>) -> (r: Option<(Option<String>, String)>)
    ensures
        match r {
            Some(x) => add_text(args@) == Some(x.1@) && add_list(args@) == (match x.0 {
                Some(n) => Some(n@),
                None => None,
            }),
            None => add_text(args@) is None,
        },
{
    let s = match scan_args(args, 2) {
        Some(s) => s,
        None => {
            return None;
        },
    };
    let idx = &s.1;
    let ghost ii = idx@.map_values(|v: usize| v as int);
    let mut text: Vec<char> = Vec::new();
    let mut j: usize = 0;
    while j < idx.len()
        invariant
            j <= idx.len(),
            ii == idx@.map_values(|v: usize| v as int),
            forall|k: int| 0 <= k < idx@.len() ==> (#[trigger] idx@[k] as int) < args@.len(),
            text@ == words(args@, ii.take(j as int)),
        decreases idx.len() - j,
    {
        if j > 0 {
            text.push(' ');
        }
        let k = idx[j];
        push_vec(&mut text, &chars_of(args[k].as_str()));
        proof {
            assert(ii.take(j + 1).drop_last() =~= ii.take(j as int));
            if j == 0 {
                assert(ii.take(1) =~= seq![ii[0]]);
            }
        }
        j += 1;
    }
    proof {
        assert(ii.take(idx@.len() as int) =~= ii);
    }
    let name = match s.0 {
        Some(k) => Some(args[k].clone()),
        None => None,
    };
    Some((name, string_of(&text)))
}

/// The list a task from `chirp add` goes to, created when needed: its id
/// and the name to show.
fn resolve_add_list(db: &mut Database, named: Option<String>) -> (r: (String, String))
    requires
        old(db).wf(),
    ensures
        final(db).wf(),
        final(db).tasks@ == old(db).tasks@,
        add_target(*old(db), final(db).lists@, crate::db::opt_view(named), r.0@, r.1@),
        list_exists(final(db).lists@, r.0@),
{
    match named {
        Some(name) => {
            let id = db.find_or_create_list(name.as_str());
            assert(add_target(*old(db), db.lists@, Some(name@), id@, name@));
            (id, name)
        },
        None => {
            let lists = db.get_all_lists();
            if lists.len() > 0 {
                assert(list_exists(db.lists@, db.lists@[0].id@));
                let r = (lists[0].id.clone(), lists[0].name.clone());
                assert(add_target(*old(db), db.lists@, None, r.0@, r.1@));
                r
            } else {
                proof {
                    reveal_strlit("Inbox");
                    assert("Inbox"@ =~= seq!['I', 'n', 'b', 'o', 'x']);
                }
                let l = db.create_list("Inbox");
                assert(db.lists@[0] == l);
                assert(list_exists(db.lists@, db.lists@[0].id@));
                let r = (l.id, string_of(&vec!['I', 'n', 'b', 'o', 'x']));
                assert(add_target(*old(db), db.lists@, None, r.0@, r.1@));
                r
            }
        },
    }
}

/// `Added to <list>: <content>`.
fn added_message(list: &str, content: &str) -> (r: String)
    ensures
        r@ == added_to_label() + list@ + seq![':', ' '] + content@,
{
    let mut m: Vec<char> = Vec::new();
    push_all(&mut m, &['A', 'd', 'd', 'e', 'd', ' ', 't', 'o', ' ']);
    push_vec(&mut m, &chars_of(list));
    push_all(&mut m, &[':', ' ']);
    push_vec(&mut m, &chars_of(content));
    string_of(&m)
}

/// Adds a task from the command line to the store and returns the line to
/// print: `Added to <list>: <content>`.
#[verifier::spinoff_prover]
#[verifier::rlimit(40)]
pub fn add_task(db: &mut Database, args: &Vec<String>) -> (r: Result<String, AddError>)
    requires
        old(db).wf(),
        add_ok(args@),
    ensures
        final(db).wf(),
        add_done(*old(db), *final(db), args@, r),
{
    let (named, text) = match add_parts(args) {
        Some(x) => x,
        None => {
            return Err(AddError::MissingListName);
        },
    };
    if text.as_str().is_empty() {
        return Err(AddError::EmptyText);
    }
    let ghost old_db = *db;
    let ghost named_v = crate::db::opt_view(named);
    assert(named_v == add_list(args@));
    let (list_id, list_name) = resolve_add_list(db, named);
    let parsed = parse_task_input(text.as_str());
    let nt = db.create_task(
        list_id.as_str(),
        parsed.content.as_str(),
        parsed.due_at,
        parsed.ping_interval,
        parsed.priority,
        match &parsed.recurrence {
            Some(s) => Some(s.as_str()),
            None => None,
        },
    );
    let msg = added_message(list_name.as_str(), parsed.content.as_str());
    proof {
        assert(crate::db::opt_view(parsed.recurrence) == (match &parsed.recurrence {
            Some(s) => Some(s@),
            None => None,
        }));
        assert(add_target(old_db, db.lists@, add_list(args@), list_id@, list_name@));
        assert(parsed_as(text@, parsed));
        assert(db.tasks@ == old_db.tasks@.push(nt));
        assert(created_task(old_db.tasks@, nt, list_id@, parsed.content@, parsed.due_at, parsed.ping_interval, parsed.priority, crate::db::opt_view(parsed.recurrence)));
    }
    Ok(msg)
}

// ======================= chirp export and chirp list =======================

/// One task as `chirp export` writes it.
pub struct ExportRecord {
    pub content: String,
    /// the list's name, `?` when the list is missing
    pub list: String,
    pub completed: bool,
    pub due_at: Option<i64>,
    /// the due time in local RFC 3339
    pub due: Option<String>,
    pub priority: Option<u8>,
    /// the ping interval as text, such as `1h30m`
    pub ping: Option<String>,
    pub recurrence: Option<String>,
    pub note: Option<String>,
}

/// `chrono::Local.timestamp_millis_opt(ms).single()` and `to_rfc3339`: the
/// local time of `ms` in RFC 3339, `None` when it is not a single local
/// time. The text depends on the time zone; nothing is stated of it.
#[verifier::external_body]
fn local_rfc3339(ms: i64) -> (r: Option<String>) {
    chrono::TimeZone::timestamp_millis_opt(&chrono::Local, ms).single().map(|dt| dt.to_rfc3339())
}

/// The name of the first list with id `id`, or `?`.
pub open spec fn list_name_of(lists: Seq<List>, id: Seq<char>, i: int) -> Seq<char>
    decreases lists.len() - i,
{
    if i < 0 || i >= lists.len() {
        seq!['?']
    } else if lists[i].id@ == id {
        lists[i].name@
    } else {
        list_name_of(lists, id, i + 1)
    }
}

/// `r` is the export record of task `t`.
pub open spec fn record_of(t: Task, lists: Seq<List>, r: ExportRecord) -> bool {
    &&& r.content@ == t.content@
    &&& r.list@ == list_name_of(lists, t.list_id@, 0)
    &&& r.completed == t.completed
    &&& r.due_at == t.due_at
    &&& (t.due_at is None ==> r.due is None)
    &&& r.priority == t.priority
    &&& match t.ping_interval {
        Some(p) => r.ping matches Some(x) && x@ == crate::parser::ping_interval_text(p as int),
        None => r.ping is None,
    }
    &&& crate::db::opt_view(r.recurrence) == crate::db::opt_view(t.recurrence)
    &&& crate::db::opt_view(r.note) == crate::db::opt_view(t.note)
}

/// The name of the first list with id `id`, or `?`.
pub fn list_name(lists: &Vec<List>, id: &str) -> (r: String)
    ensures
        r@ == list_name_of(lists@, id@, 0),
{
    let idv = id.to_owned();
    let mut i: usize = 0;
    while i < lists.len()
        invariant
            i <= lists.len(),
            idv@ == id@,
            list_name_of(lists@, id@, 0) == list_name_of(lists@, id@, i as int),
        decreases lists.len() - i,
    {
        if lists[i].id == idv {
            return lists[i].name.clone();
        }
        i += 1;
    }
    string_of(&vec!['?'])
}

/// The records `chirp export` writes: every task, ordered by list, then
/// open before done, priority and sort order.
pub fn export_records(db: &Database) -> (r: Vec<ExportRecord>)
    ensures
        exists|ts: Seq<Task>|
            #![trigger sorted_by(1, ts)]
            sorted_by(1, ts) && ts.to_multiset() == db.tasks@.to_multiset() && ts.len() == r@.len()
                && forall|k: int| 0 <= k < ts.len() ==> record_of(ts[k], db.lists@, #[trigger] r@[k]),
{
    let lists = db.get_all_lists();
    let tasks = db.get_all_tasks();
    let mut out: Vec<ExportRecord> = Vec::new();
    let mut i: usize = 0;
    while i < tasks.len()
        invariant
            i <= tasks.len(),
            lists@ == db.lists@,
            out@.len() == i,
            forall|k: int| 0 <= k < i ==> record_of(tasks@[k], db.lists@, #[trigger] out@[k]),
        decreases tasks.len() - i,
    {
        let t = &tasks[i];
        let due = match t.due_at {
            Some(d) => local_rfc3339(d),
            None => None,
        };
        let ping = match t.ping_interval {
            Some(p) => Some(crate::parser::format_ping_interval(p)),
            None => None,
        };
        out.push(
            ExportRecord {
                content: t.content.clone(),
                list: list_name(&lists, t.list_id.as_str()),
                completed: t.completed,
                due_at: t.due_at,
                due,
                priority: t.priority,
                ping,
                recurrence: crate::db::copy_opt_string(&t.recurrence),
                note: crate::db::copy_opt_string(&t.note),
            },
        );
        i += 1;
    }
    proof {
        assert(sorted_by(1, tasks@));
    }
    out
}

// ======================= chirp done =======================

/// `  nothing completed today`
pub open spec fn nothing_done_text() -> Seq<char> {
    seq![
        ' ', ' ', 'n', 'o', 't', 'h', 'i', 'n', 'g', ' ', 'c', 'o', 'm', 'p', 'l', 'e', 't', 'e',
        'd', ' ', 't', 'o', 'd', 'a', 'y',
    ]
}

/// `  completed today (<n>):`
pub open spec fn done_heading(n: nat) -> Seq<char> {
    seq![
        ' ', ' ', 'c', 'o', 'm', 'p', 'l', 'e', 't', 'e', 'd', ' ', 't', 'o', 'd', 'a', 'y', ' ',
        '(',
    ] + decimal(n) + seq![')', ':']
}

/// `  ✓ <content>  [<list>]`
pub open spec fn done_line(content: Seq<char>, list: Seq<char>) -> Seq<char> {
    seq![' ', ' ', '\u{2713}', ' '] + content + seq![' ', ' ', '['] + list + seq![']']
}

/// The lines `chirp done` prints for the completed tasks `done`, each its
/// content and list id: a heading with their number and a line for each
/// naming its list (`?` when the list is missing), or a line saying there
/// is none.
pub fn done_lines(db: &Database, done: &Vec<(String, String)>) -> (r: Vec<String>)
    ensures
        done@.len() == 0 ==> r@.len() == 1 && r@[0]@ == nothing_done_text(),
        done@.len() > 0 ==> {
            &&& r@.len() == done@.len() + 1
            &&& r@[0]@ == done_heading(done@.len())
            &&& forall|k: int|
                0 <= k < done@.len() ==> (#[trigger] r@[k + 1])@ == done_line(
                    done@[k].0@,
                    list_name_of(db.lists@, done@[k].1@, 0),
                )
        },
{
    let mut out: Vec<String> = Vec::new();
    if done.len() == 0 {
        let mut v: Vec<char> = Vec::new();
        push_all(&mut v, &[
            ' ', ' ', 'n', 'o', 't', 'h', 'i', 'n', 'g', ' ', 'c', 'o', 'm', 'p', 'l', 'e', 't', 'e',
            'd', ' ', 't', 'o', 'd', 'a', 'y',
        ]);
        out.push(string_of(&v));
        return out;
    }
    let mut h: Vec<char> = Vec::new();
    push_all(&mut h, &[
        ' ', ' ', 'c', 'o', 'm', 'p', 'l', 'e', 't', 'e', 'd', ' ', 't', 'o', 'd', 'a', 'y', ' ', '(',
    ]);
    push_decimal(&mut h, done.len() as u64);
    push_all(&mut h, &[')', ':']);
    out.push(string_of(&h));
    let mut i: usize = 0;
    while i < done.len()
        invariant
            i <= done@.len(),
            out@.len() == i + 1,
            out@[0]@ == done_heading(done@.len()),
            forall|k: int|
                0 <= k < i ==> (#[trigger] out@[k + 1])@ == done_line(
                    done@[k].0@,
                    list_name_of(db.lists@, done@[k].1@, 0),
                ),
        decreases done@.len() - i,
    {
        let name = list_name(&db.lists, done[i].1.as_str());
        let mut v: Vec<char> = Vec::new();
        push_all(&mut v, &[' ', ' ', '\u{2713}', ' ']);
        push_vec(&mut v, &chars_of(done[i].0.as_str()));
        push_all(&mut v, &[' ', ' ', '[']);
        push_vec(&mut v, &chars_of(name.as_str()));
        v.push(']');
        assert(v@ =~= done_line(done@[i as int].0@, list_name_of(db.lists@, done@[i as int].1@, 0)));
        let ghost before = out@;
        out.push(string_of(&v));
        proof {
            assert forall|k: int|
                0 <= k < i + 1 implies (#[trigger] out@[k + 1])@ == done_line(
                done@[k].0@,
                list_name_of(db.lists@, done@[k].1@, 0),
            ) by {
                if k < i {
                    assert(out@[k + 1] == before[k + 1]);
                }
            }
            assert(out@[0] == before[0]);
        }
        i += 1;
    }
    out
}

/// A list with its numbers of open tasks and of tasks, as `chirp list`
/// shows it.
pub struct ListSummary {
    pub name: String,
    pub pending: usize,
    pub total: usize,
}

/// The lists, in order, with their task counts.
pub fn list_summaries(db: &Database) -> (r: Vec<ListSummary>)
    ensures
        r@.len() == db.lists@.len(),
        forall|k: int|
            0 <= k < r@.len() ==> {
                let l = db.lists@[k];
                &&& (#[trigger] r@[k]).name@ == l.name@
                &&& r@[k].pending == keep(
                    db.tasks@,
                    |t: Task| t.list_id@ == l.id@ && !t.completed,
                ).len()
                &&& r@[k].total == keep(db.tasks@, |t: Task| t.list_id@ == l.id@).len()
            },
{
    let mut out: Vec<ListSummary> = Vec::new();
    let mut i: usize = 0;
    while i < db.lists.len()
        invariant
            i <= db.lists.len(),
            out@.len() == i,
            forall|k: int|
                0 <= k < i ==> {
                    let l = db.lists@[k];
                    &&& (#[trigger] out@[k]).name@ == l.name@
                    &&& out@[k].pending == keep(
                        db.tasks@,
                        |t: Task| t.list_id@ == l.id@ && !t.completed,
                    ).len()
                    &&& out@[k].total == keep(db.tasks@, |t: Task| t.list_id@ == l.id@).len()
                },
        decreases db.lists.len() - i,
    {
        let l = &db.lists[i];
        let (pending, total) = db.list_task_counts(l.id.as_str());
        out.push(ListSummary { name: l.name.clone(), pending, total });
        i += 1;
    }
    out
}

} // verus!
