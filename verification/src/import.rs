//! Importing tasks from JSON or CSV records: each record names its list
//! (by name, created when missing), and its priority, recurrence, ping and
//! due time are checked and read as a typed entry would be. Reading the file
//! and decoding the records is the application's part.
use vstd::prelude::*;

use crate::clock::lowercase;
use crate::db::{opt_view, same_name_nocase, Database, List, Task};
use crate::parser::{
    accepts_entry, entry_accepted, parse_ping_str, parse_task_input, parsed_as, ping_str_accepted,
    ping_str_ok, ping_str_value, ParsedTask,
};
use crate::text::{chars_of, equals_exec, push_all, push_vec, string_of};

verus! {

/// One record of an import file.
pub struct ImportTask {
    pub content: String,
    /// the list's name; `Inbox` when the record has none
    pub list: String,
    pub priority: Option<u8>,
    /// a due time: RFC 3339, or words as typed in an entry
    pub due: Option<String>,
    /// a ping interval such as `30m`
    pub ping: Option<String>,
    /// `daily`, `weekly` or `monthly`
    pub recurrence: Option<String>,
}

/// The list of a record that names none.
pub fn default_list() -> (r: String)
    ensures
        r@ == seq!['I', 'n', 'b', 'o', 'x'],
{
    string_of(&vec!['I', 'n', 'b', 'o', 'x'])
}

/// The file formats.
#[derive(Debug, Clone, Copy, PartialEq, Eq, Structural)]
pub enum Format {
    Json,
    Csv,
}

pub open spec fn unsupported_head() -> Seq<char> {
    seq![
        'U', 'n', 's', 'u', 'p', 'p', 'o', 'r', 't', 'e', 'd', ' ', 'f', 'i', 'l', 'e', ' ', 'f',
        'o', 'r', 'm', 'a', 't', ' ', '\'', '.',
    ]
}

pub open spec fn unsupported_tail() -> Seq<char> {
    seq![
        '\'', '.', ' ', 'U', 's', 'e', ' ', '.', 'j', 's', 'o', 'n', ' ', 'o', 'r', ' ', '.',
        'c', 's', 'v',
    ]
}

/// The format named by an extension already in lower case; an error names
/// any other extension.
pub fn format_of_lower(lower: &str) -> (r: Result<Format, String>)
    ensures
        lower@ == seq!['j', 's', 'o', 'n'] ==> r == Ok::<Format, String>(Format::Json),
        lower@ == seq!['c', 's', 'v'] ==> r == Ok::<Format, String>(Format::Csv),
        lower@ != seq!['j', 's', 'o', 'n'] && lower@ != seq!['c', 's', 'v'] ==> (r matches Err(e) && e@
            == unsupported_head() + lower@ + unsupported_tail()),
{
    let v = chars_of(lower);
    if equals_exec(&v, &['j', 's', 'o', 'n']) {
        Ok(Format::Json)
    } else if equals_exec(&v, &['c', 's', 'v']) {
        Ok(Format::Csv)
    } else {
        let mut m: Vec<char> = Vec::new();
        push_all(&mut m, &[
            'U', 'n', 's', 'u', 'p', 'p', 'o', 'r', 't', 'e', 'd', ' ', 'f', 'i', 'l', 'e', ' ', 'f',
            'o', 'r', 'm', 'a', 't', ' ', '\'', '.',
        ]);
        push_vec(&mut m, &v);
        push_all(&mut m, &[
            '\'', '.', ' ', 'U', 's', 'e', ' ', '.', 'j', 's', 'o', 'n', ' ', 'o', 'r', ' ', '.',
            'c', 's', 'v',
        ]);
        Err(string_of(&m))
    }
}

/// The format of a file from its extension, compared in lower case; an
/// error names any other extension.
pub fn import_format(ext: &str) -> (r: Result<Format, String>)
    ensures
        lowercase(ext@) == seq!['j', 's', 'o', 'n'] ==> r == Ok::<Format, String>(Format::Json),
        lowercase(ext@) == seq!['c', 's', 'v'] ==> r == Ok::<Format, String>(Format::Csv),
        lowercase(ext@) != seq!['j', 's', 'o', 'n'] && lowercase(ext@) != seq!['c', 's', 'v'] ==> (r matches Err(
            e,
        ) && e@ == unsupported_head() + lowercase(ext@) + unsupported_tail()),
{
    let lower = crate::clock::to_lowercase(ext);
    format_of_lower(lower.as_str())
}

// ======================= due times =======================

/// What `chrono::DateTime::parse_from_rfc3339(s)` gives, in milliseconds
/// since the epoch.
pub uninterp spec fn rfc3339_millis(s: Seq<char>) -> Option<i64>;

/// What `chrono::DateTime::parse_from_str(s, fmt)` gives, in milliseconds
/// since the epoch.
pub uninterp spec fn datetime_millis(s: Seq<char>, fmt: Seq<char>) -> Option<i64>;

/// `chrono::DateTime::parse_from_rfc3339` and `timestamp_millis`: `None`
/// when `s` is not an RFC 3339 date and time. The value is a function of the
/// text (its offset is part of it), which the contract names.
#[verifier::external_body]
fn parse_rfc3339(s: &str) -> (r: Option<i64>)
    ensures
        r == rfc3339_millis(s@),
{
    chrono::DateTime::parse_from_rfc3339(s).ok().map(|dt| dt.timestamp_millis())
}

/// `chrono::DateTime::parse_from_str` and `timestamp_millis`: `None` when
/// `s` does not match the format `fmt`. The value is a function of the two
/// texts, which the contract names.
#[verifier::external_body]
fn parse_datetime(s: &str, fmt: &str) -> (r: Option<i64>)
    ensures
        r == datetime_millis(s@, fmt@),
{
    chrono::DateTime::parse_from_str(s, fmt).ok().map(|dt| dt.timestamp_millis())
}

/// `%Y-%m-%dT%H:%M:%S`.
pub open spec fn plain_format() -> Seq<char> {
    seq![
        '%', 'Y', '-', '%', 'm', '-', '%', 'd', 'T', '%', 'H', ':', '%', 'M', ':', '%', 'S',
    ]
}

/// The entry parsed when a due text is no date: `_` and the text.
pub open spec fn due_entry(d: Seq<char>) -> Seq<char> {
    seq!['_', ' '] + d
}

/// `r` is the due time a record's due text gives: an RFC 3339 time, a time
/// in the plain format, or else the due time of the entry `_ <text>`.
pub open spec fn import_due_value(d: Seq<char>, r: Option<i64>) -> bool {
    match rfc3339_millis(d) {
        Some(v) => r == Some(v),
        None => match datetime_millis(d, plain_format()) {
            Some(v) => r == Some(v),
            None => exists|p: ParsedTask| #[trigger] parsed_as(due_entry(d), p) && r == p.due_at,
        },
    }
}

/// The due text can be read: when it is no date, the entry is one parsing
/// accepts.
pub open spec fn due_text_ok(d: Seq<char>) -> bool {
    rfc3339_millis(d) is None && datetime_millis(d, plain_format()) is None ==> entry_accepted(
        due_entry(d),
    )
}

fn plain_format_text() -> (r: String)
    ensures
        r@ == plain_format(),
{
    string_of(&vec![
        '%', 'Y', '-', '%', 'm', '-', '%', 'd', 'T', '%', 'H', ':', '%', 'M', ':', '%', 'S',
    ])
}

fn due_entry_text(d: &str) -> (r: String)
    ensures
        r@ == due_entry(d@),
{
    let mut v: Vec<char> = vec!['_', ' '];
    push_vec(&mut v, &chars_of(d));
    string_of(&v)
}

/// Executable `due_text_ok`.
pub fn due_text_accepted(d: &str) -> (r: bool)
    ensures
        r == due_text_ok(d@),
{
    if parse_rfc3339(d).is_some() {
        return true;
    }
    let fmt = plain_format_text();
    if parse_datetime(d, fmt.as_str()).is_some() {
        return true;
    }
    let e = due_entry_text(d);
    accepts_entry(e.as_str())
}

/// The due time of the due text `d` from what the two date parsers gave
/// for it: the RFC 3339 value `rfc`, else the plain-format value `plain`,
/// else the due time of the entry `_ <d>`.
pub fn due_from_parses(d: &str, rfc: Option<i64>, plain: Option<i64>) -> (r: Option<i64>)
    requires
        rfc is None && plain is None ==> entry_accepted(due_entry(d@)),
    ensures
        match rfc {
            Some(v) => r == Some(v),
            None => match plain {
                Some(v) => r == Some(v),
                None => exists|p: ParsedTask| #[trigger] parsed_as(due_entry(d@), p) && r == p.due_at,
            },
        },
{
    match rfc {
        Some(v) => Some(v),
        None => match plain {
            Some(v) => Some(v),
            None => {
                let e = due_entry_text(d);
                let p = parse_task_input(e.as_str());
                proof {
                    assert(parsed_as(due_entry(d@), p));
                }
                p.due_at
            },
        },
    }
}

/// The due time of a record's due text.
pub fn import_due(d: &str) -> (r: Option<i64>)
    requires
        due_text_ok(d@),
    ensures
        import_due_value(d@, r),
{
    let rfc = parse_rfc3339(d);
    let plain = match rfc {
        Some(_) => None,
        None => {
            let fmt = plain_format_text();
            parse_datetime(d, fmt.as_str())
        },
    };
    due_from_parses(d, rfc, plain)
}

// ======================= records =======================

/// A record's priority, kept only when it is 1, 2 or 3.
pub open spec fn import_priority(p: Option<u8>) -> Option<u8> {
    match p {
        Some(v) => if 1 <= v <= 3 {
            Some(v)
        } else {
            None
        },
        None => None,
    }
}

/// A record's recurrence, kept only when it is `daily`, `weekly` or
/// `monthly`.
pub open spec fn import_recurrence(r: Option<Seq<char>>) -> Option<Seq<char>> {
    match r {
        Some(x) => if x == seq!['d', 'a', 'i', 'l', 'y'] || x == seq!['w', 'e', 'e', 'k', 'l', 'y'] || x
            == seq!['m', 'o', 'n', 't', 'h', 'l', 'y'] {
            Some(x)
        } else {
            None
        },
        None => None,
    }
}

/// The record can be imported: its due text and ping text can be read.
pub open spec fn record_ok(t: ImportTask) -> bool {
    &&& t.due matches Some(d) ==> due_text_ok(d@)
    &&& t.ping matches Some(p) ==> ping_str_ok(p@)
}

/// Executable `record_ok`.
pub fn record_accepted(t: &ImportTask) -> (r: bool)
    ensures
        r == record_ok(*t),
{
    let due_ok = match &t.due {
        Some(d) => due_text_accepted(d.as_str()),
        None => true,
    };
    let ping_ok = match &t.ping {
        Some(p) => ping_str_accepted(p.as_str()),
        None => true,
    };
    due_ok && ping_ok
}

/// Every record can be imported.
pub fn records_accepted(v: &Vec<ImportTask>) -> (r: bool)
    ensures
        r == forall|k: int| 0 <= k < v@.len() ==> record_ok(#[trigger] v@[k]),
{
    let mut i: usize = 0;
    while i < v.len()
        invariant
            i <= v.len(),
            forall|k: int| 0 <= k < i ==> record_ok(#[trigger] v@[k]),
        decreases v.len() - i,
    {
        if !record_accepted(&v[i]) {
            return false;
        }
        i += 1;
    }
    true
}

/// `t` is the task imported from record `rec` into a store whose lists are
/// `lists`.
pub open spec fn imported(rec: ImportTask, t: Task, lists: Seq<List>) -> bool {
    &&& t.content@ == rec.content@
    &&& !t.completed
    &&& t.last_ping_at is None
    &&& t.note is None
    &&& t.priority == import_priority(rec.priority)
    &&& opt_view(t.recurrence) == import_recurrence(opt_view(rec.recurrence))
    &&& t.ping_interval == (match rec.ping {
        Some(p) => ping_str_value(p@),
        None => None,
    })
    &&& match rec.due {
        Some(d) => import_due_value(d@, t.due_at),
        None => t.due_at is None,
    }
    &&& exists|j: int|
        0 <= j < lists.len() && (#[trigger] lists[j]).id@ == t.list_id@ && same_name_nocase(
            lists[j].name@,
            rec.list@,
        )
}

fn import_recurrence_of(r: &Option<String>) -> (o: Option<&str>)
    ensures
        match o {
            Some(x) => import_recurrence(opt_view(*r)) == Some(x@),
            None => import_recurrence(opt_view(*r)) is None,
        },
{
    match r {
        Some(s) => {
            let v = chars_of(s.as_str());
            if equals_exec(&v, &['d', 'a', 'i', 'l', 'y']) || equals_exec(&v, &['w', 'e', 'e', 'k', 'l', 'y'])
                || equals_exec(&v, &['m', 'o', 'n', 't', 'h', 'l', 'y']) {
                Some(s.as_str())
            } else {
                None
            }
        },
        None => None,
    }
}

/// Imports the records into the store, in order, each into the first list
/// named like its list (up to ASCII case), created when there is none.
/// Returns how many tasks were added.
pub fn import_tasks(db: &mut Database, records: &Vec<ImportTask>) -> (r: usize)
    requires
        old(db).wf(),
        forall|k: int| 0 <= k < records@.len() ==> record_ok(#[trigger] records@[k]),
    ensures
        final(db).wf(),
        r == records@.len(),
        final(db).lists@.take(old(db).lists@.len() as int) == old(db).lists@,
        final(db).tasks@.len() == old(db).tasks@.len() + records@.len(),
        final(db).tasks@.take(old(db).tasks@.len() as int) == old(db).tasks@,
        forall|k: int|
            0 <= k < records@.len() ==> imported(
                #[trigger] records@[k],
                final(db).tasks@[old(db).tasks@.len() + k],
                final(db).lists@,
            ),
{
    let ghost n0 = db.tasks@.len();
    let ghost l0 = db.lists@.len();
    let mut count: usize = 0;
    let mut i: usize = 0;
    while i < records.len()
        invariant
            i <= records.len(),
            count == i,
            db.wf(),
            forall|k: int| 0 <= k < records@.len() ==> record_ok(#[trigger] records@[k]),
            n0 == old(db).tasks@.len(),
            l0 == old(db).lists@.len(),
            db.lists@.len() >= l0,
            db.lists@.take(l0 as int) == old(db).lists@,
            db.tasks@.len() == n0 + i,
            db.tasks@.take(n0 as int) == old(db).tasks@,
            forall|k: int| 0 <= k < i ==> imported(#[trigger] records@[k], db.tasks@[n0 + k], db.lists@),
        decreases records.len() - i,
    {
        let rec = &records[i];
        let ghost lists_before = db.lists@;
        let ghost tasks_before = db.tasks@;
        let list_id = db.find_or_create_list(rec.list.as_str());
        let due_at = match &rec.due {
            Some(d) => import_due(d.as_str()),
            None => None,
        };
        let ping_interval = match &rec.ping {
            Some(p) => parse_ping_str(p.as_str()),
            None => None,
        };
        let priority = match rec.priority {
            Some(p) => if 1 <= p && p <= 3 {
                Some(p)
            } else {
                None
            },
            None => None,
        };
        let recurrence = import_recurrence_of(&rec.recurrence);
        let ghost lists_mid = db.lists@;
        let t = db.create_task(list_id.as_str(), rec.content.as_str(), due_at, ping_interval, priority, recurrence);
        count += 1;
        proof {
            assert(lists_mid == db.lists@);
            assert(lists_before.len() <= lists_mid.len()) by {
                match crate::db::first_named(lists_before, rec.list@, 0) {
                    Some(_) => {},
                    None => {},
                }
            }
            assert(db.lists@.take(l0 as int) =~= old(db).lists@) by {
                match crate::db::first_named(lists_before, rec.list@, 0) {
                    Some(_) => {},
                    None => {
                        assert(db.lists@.drop_last() == lists_before);
                        assert forall|j: int| 0 <= j < l0 implies db.lists@[j] == old(db).lists@[j] by {
                            assert(db.lists@.drop_last()[j] == db.lists@[j]);
                            assert(lists_before.take(l0 as int)[j] == lists_before[j]);
                        }
                    },
                }
            }
            assert(db.tasks@.take(n0 as int) =~= old(db).tasks@) by {
                assert forall|j: int| 0 <= j < n0 implies db.tasks@[j] == old(db).tasks@[j] by {
                    assert(db.tasks@[j] == tasks_before[j]);
                    assert(tasks_before.take(n0 as int)[j] == tasks_before[j]);
                }
            }
            assert(db.tasks@[n0 + i] == t);
            // the list the task went to
            let j = match crate::db::first_named(lists_before, rec.list@, 0) {
                Some(k) => k,
                None => (lists_before.len()) as int,
            };
            crate::db::lemma_first_named_matches(lists_before, rec.list@, 0);
            crate::db::lemma_same_name_refl(rec.list@);
            assert(0 <= j < db.lists@.len());
            assert(db.lists@[j].id@ == t.list_id@);
            assert(same_name_nocase(db.lists@[j].name@, rec.list@));
            assert(imported(records@[i as int], db.tasks@[n0 + i], db.lists@));
            assert forall|k: int| 0 <= k < i + 1 implies imported(#[trigger] records@[k], db.tasks@[n0 + k], db.lists@) by {
                if k < i {
                    assert(db.tasks@[n0 + k] == tasks_before[n0 + k]);
                    let jj = choose|jj: int|
                        0 <= jj < lists_before.len() && (#[trigger] lists_before[jj]).id@
                            == tasks_before[n0 + k].list_id@ && same_name_nocase(
                            lists_before[jj].name@,
                            records@[k].list@,
                        );
                    assert(db.lists@[jj] == lists_before[jj]);
                }
            }
        }
        i += 1;
    }
    count
}

} // verus!
