//! The reminder daemon's logic: where its files live, reading its PID
//! file, the messages of its commands and the service definitions that
//! start it at login. Running processes, files and the service managers are
//! the application's part.
use vstd::prelude::*;

use crate::db::{app_dir_name, data_dir, joined};
use crate::text::{
    chars_of, decimal, equals_exec, digits_value, digits_value_upto, is_digit, push_all, push_decimal, push_vec,
    skip_digits, string_of, trim, trim_chars,
};

verus! {

// ======================= files =======================

/// `chirp.pid`.
pub open spec fn pid_file_name() -> Seq<char> {
    seq!['c', 'h', 'i', 'r', 'p', '.', 'p', 'i', 'd']
}

/// `chirp-daemon.log`.
pub open spec fn log_file_name() -> Seq<char> {
    seq!['c', 'h', 'i', 'r', 'p', '-', 'd', 'a', 'e', 'm', 'o', 'n', '.', 'l', 'o', 'g']
}

/// The PID file: `chirp.pid` in the data directory.
pub fn pid_path() -> (r: String)
    ensures
        exists|b: Seq<char>, d: Seq<char>|
            #![trigger joined(b, app_dir_name(), d), joined(d, pid_file_name(), r@)]
            joined(b, app_dir_name(), d) && joined(d, pid_file_name(), r@),
{
    let dir = data_dir();
    proof {
        reveal_strlit("chirp.pid");
        assert("chirp.pid"@ =~= pid_file_name());
    }
    let r = crate::db::join_path(dir.as_str(), "chirp.pid");
    proof {
        let b = choose|b: Seq<char>| joined(b, app_dir_name(), dir@);
        assert(joined(b, app_dir_name(), dir@) && joined(dir@, pid_file_name(), r@));
    }
    r
}

/// The daemon's log file: `chirp-daemon.log` in the data directory.
pub fn log_path() -> (r: String)
    ensures
        exists|b: Seq<char>, d: Seq<char>|
            #![trigger joined(b, app_dir_name(), d), joined(d, log_file_name(), r@)]
            joined(b, app_dir_name(), d) && joined(d, log_file_name(), r@),
{
    let dir = data_dir();
    proof {
        reveal_strlit("chirp-daemon.log");
        assert("chirp-daemon.log"@ =~= log_file_name());
    }
    let r = crate::db::join_path(dir.as_str(), "chirp-daemon.log");
    proof {
        let b = choose|b: Seq<char>| joined(b, app_dir_name(), dir@);
        assert(joined(b, app_dir_name(), dir@) && joined(dir@, log_file_name(), r@));
    }
    r
}

// ======================= the PID file =======================

/// The digits of a PID: a leading `+` is allowed, as `str::parse` allows it.
pub open spec fn pid_digits(t: Seq<char>) -> Seq<char> {
    if t.len() > 0 && t[0] == '+' {
        t.drop_first()
    } else {
        t
    }
}

/// The PID that the text of a PID file holds: surrounding whitespace is
/// ignored, the rest must be a decimal `u32`.
pub open spec fn pid_value(text: Seq<char>) -> Option<u32> {
    let d = pid_digits(trim(text));
    if d.len() > 0 && (forall|k: int| 0 <= k < d.len() ==> is_digit(#[trigger] d[k])) && digits_value(
        d,
        0,
        d.len() as int,
    ) <= u32::MAX {
        Some(digits_value(d, 0, d.len() as int) as u32)
    } else {
        None
    }
}

/// Reads the PID in the text of a PID file.
pub fn parse_pid(text: &str) -> (r: Option<u32>)
    ensures
        r == pid_value(text@),
{
    let v = chars_of(text);
    let t = trim_chars(&v);
    let start: usize = if t.len() > 0 && t[0] == '+' {
        1
    } else {
        0
    };
    let ghost d = pid_digits(t@);
    proof {
        assert(d =~= t@.subrange(start as int, t@.len() as int));
    }
    if start >= t.len() {
        return None;
    }
    let end = skip_digits(&t, start);
    if end < t.len() {
        proof {
            crate::text::lemma_digit_end_bounds(t@, start as int);
            assert(!is_digit(d[end - start]));
        }
        return None;
    }
    proof {
        crate::text::lemma_digit_end_bounds(t@, start as int);
        assert forall|k: int| 0 <= k < d.len() implies is_digit(#[trigger] d[k]) by {
            assert(d[k] == t@[start + k]);
        }
        lemma_digits_shift(t@, start as int, t@.len() as int);
    }
    match digits_value_upto(&t, start, end, 4294967295) {
        Some(v) => Some(v as u32),
        None => None,
    }
}

/// The value of a digit run does not depend on what comes before it.
pub proof fn lemma_digits_shift(s: Seq<char>, i: int, j: int)
    requires
        0 <= i <= j <= s.len(),
    ensures
        digits_value(s.subrange(i, s.len() as int), 0, j - i) == digits_value(s, i, j),
    decreases j - i,
{
    if j > i {
        lemma_digits_shift(s, i, j - 1);
        assert(s.subrange(i, s.len() as int)[j - 1 - i] == s[j - 1]);
    }
}

/// What `chirp daemon stop` does, from the PID file's text (`None` when it
/// could not be read).
#[derive(Debug, Clone, Copy, PartialEq, Eq, Structural)]
pub enum StopPlan {
    /// no PID file: nothing runs
    NotRunning,
    /// the file holds no PID: it is removed
    Invalid,
    /// the process to stop
    Kill(u32),
}

pub open spec fn stop_plan_for(pid_file: Option<Seq<char>>) -> StopPlan {
    match pid_file {
        None => StopPlan::NotRunning,
        Some(t) => match pid_value(t) {
            Some(p) => StopPlan::Kill(p),
            None => StopPlan::Invalid,
        },
    }
}

/// Decides what `chirp daemon stop` does with the PID file's text.
pub fn stop_plan(pid_file: Option<&str>) -> (r: StopPlan)
    ensures
        r == stop_plan_for(
            match pid_file {
                Some(t) => Some(t@),
                None => None,
            },
        ),
{
    match pid_file {
        None => StopPlan::NotRunning,
        Some(t) => match parse_pid(t) {
            Some(p) => StopPlan::Kill(p),
            None => StopPlan::Invalid,
        },
    }
}

/// `chirp daemon is not running (no PID file)`
pub open spec fn msg_no_pid_file() -> Seq<char> {
    seq![
        'c', 'h', 'i', 'r', 'p', ' ', 'd', 'a', 'e', 'm', 'o', 'n', ' ', 'i', 's', ' ', 'n', 'o',
        't', ' ', 'r', 'u', 'n', 'n', 'i', 'n', 'g', ' ', '(', 'n', 'o', ' ', 'P', 'I', 'D', ' ',
        'f', 'i', 'l', 'e', ')',
    ]
}

/// `invalid PID file, removing`
pub open spec fn msg_invalid_pid() -> Seq<char> {
    seq![
        'i', 'n', 'v', 'a', 'l', 'i', 'd', ' ', 'P', 'I', 'D', ' ', 'f', 'i', 'l', 'e', ',', ' ',
        'r', 'e', 'm', 'o', 'v', 'i', 'n', 'g',
    ]
}

/// `chirp daemon stopped (PID `
pub open spec fn msg_stopped() -> Seq<char> {
    seq![
        'c', 'h', 'i', 'r', 'p', ' ', 'd', 'a', 'e', 'm', 'o', 'n', ' ', 's', 't', 'o', 'p', 'p',
        'e', 'd', ' ', '(', 'P', 'I', 'D', ' ',
    ]
}

/// `process `
pub open spec fn msg_process() -> Seq<char> {
    seq![
        'p', 'r', 'o', 'c', 'e', 's', 's', ' ',
    ]
}

/// ` not found, cleaning up`
pub open spec fn msg_not_found() -> Seq<char> {
    seq![
        ' ', 'n', 'o', 't', ' ', 'f', 'o', 'u', 'n', 'd', ',', ' ', 'c', 'l', 'e', 'a', 'n', 'i',
        'n', 'g', ' ', 'u', 'p',
    ]
}

/// `chirp daemon is running (PID `
pub open spec fn msg_running() -> Seq<char> {
    seq![
        'c', 'h', 'i', 'r', 'p', ' ', 'd', 'a', 'e', 'm', 'o', 'n', ' ', 'i', 's', ' ', 'r', 'u',
        'n', 'n', 'i', 'n', 'g', ' ', '(', 'P', 'I', 'D', ' ',
    ]
}

/// `chirp daemon is not running`
pub open spec fn msg_not_running() -> Seq<char> {
    seq![
        'c', 'h', 'i', 'r', 'p', ' ', 'd', 'a', 'e', 'm', 'o', 'n', ' ', 'i', 's', ' ', 'n', 'o',
        't', ' ', 'r', 'u', 'n', 'n', 'i', 'n', 'g',
    ]
}

/// The line `chirp daemon stop` prints: for a process it tried to stop,
/// whether the stop succeeded.
pub open spec fn stop_text(plan: StopPlan, killed: bool) -> Seq<char> {
    match plan {
        StopPlan::NotRunning => msg_no_pid_file(),
        StopPlan::Invalid => msg_invalid_pid(),
        StopPlan::Kill(p) => if killed {
            msg_stopped() + decimal(p as nat) + seq![')']
        } else {
            msg_process() + decimal(p as nat) + msg_not_found()
        },
    }
}

/// The line `chirp daemon stop` prints.
pub fn stop_message(plan: StopPlan, killed: bool) -> (r: String)
    ensures
        r@ == stop_text(plan, killed),
{
    let mut v: Vec<char> = Vec::new();
    match plan {
        StopPlan::NotRunning => push_all(&mut v, &[
            'c', 'h', 'i', 'r', 'p', ' ', 'd', 'a', 'e', 'm', 'o', 'n', ' ', 'i', 's', ' ', 'n', 'o',
            't', ' ', 'r', 'u', 'n', 'n', 'i', 'n', 'g', ' ', '(', 'n', 'o', ' ', 'P', 'I', 'D', ' ',
            'f', 'i', 'l', 'e', ')',
        ]),
        StopPlan::Invalid => push_all(&mut v, &[
            'i', 'n', 'v', 'a', 'l', 'i', 'd', ' ', 'P', 'I', 'D', ' ', 'f', 'i', 'l', 'e', ',', ' ',
            'r', 'e', 'm', 'o', 'v', 'i', 'n', 'g',
        ]),
        StopPlan::Kill(p) => {
            if killed {
                push_all(&mut v, &[
            'c', 'h', 'i', 'r', 'p', ' ', 'd', 'a', 'e', 'm', 'o', 'n', ' ', 's', 't', 'o', 'p', 'p',
            'e', 'd', ' ', '(', 'P', 'I', 'D', ' ',
        ]);
                push_decimal(&mut v, p as u64);
                v.push(')');
            } else {
                push_all(&mut v, &[
            'p', 'r', 'o', 'c', 'e', 's', 's', ' ',
        ]);
                push_decimal(&mut v, p as u64);
                push_all(&mut v, &[
            ' ', 'n', 'o', 't', ' ', 'f', 'o', 'u', 'n', 'd', ',', ' ', 'c', 'l', 'e', 'a', 'n', 'i',
            'n', 'g', ' ', 'u', 'p',
        ]);
            }
        },
    }
    string_of(&v)
}

/// The line `chirp daemon status` prints, from whether the daemon runs and
/// the PID file's text.
pub open spec fn status_text(running: bool, pid_file: Seq<char>) -> Seq<char> {
    if running {
        msg_running() + trim(pid_file) + seq![')']
    } else {
        msg_not_running()
    }
}

/// The line `chirp daemon status` prints.
pub fn status_message(running: bool, pid_file: &str) -> (r: String)
    ensures
        r@ == status_text(running, pid_file@),
{
    let mut v: Vec<char> = Vec::new();
    if running {
        push_all(&mut v, &[
            'c', 'h', 'i', 'r', 'p', ' ', 'd', 'a', 'e', 'm', 'o', 'n', ' ', 'i', 's', ' ', 'r', 'u',
            'n', 'n', 'i', 'n', 'g', ' ', '(', 'P', 'I', 'D', ' ',
        ]);
        let t = trim_chars(&chars_of(pid_file));
        push_vec(&mut v, &t);
        v.push(')');
    } else {
        push_all(&mut v, &[
            'c', 'h', 'i', 'r', 'p', ' ', 'd', 'a', 'e', 'm', 'o', 'n', ' ', 'i', 's', ' ', 'n', 'o',
            't', ' ', 'r', 'u', 'n', 'n', 'i', 'n', 'g',
        ]);
    }
    string_of(&v)
}

// ======================= service definitions =======================

/// The systemd unit up to the program.
pub open spec fn unit_head() -> Seq<char> {
    seq![
        '[', 'U', 'n', 'i', 't', ']', '\n', 'D', 'e', 's', 'c', 'r', 'i', 'p', 't', 'i', 'o',
        'n', '=', 'C', 'h', 'i', 'r', 'p', ' ', 't', 'a', 's', 'k', ' ', 'r', 'e', 'm', 'i', 'n',
        'd', 'e', 'r', ' ', 'd', 'a', 'e', 'm', 'o', 'n', '\n', '\n', '[', 'S', 'e', 'r', 'v',
        'i', 'c', 'e', ']', '\n', 'E', 'x', 'e', 'c', 'S', 't', 'a', 'r', 't', '=',
    ]
}

/// The systemd unit after the program.
pub open spec fn unit_tail() -> Seq<char> {
    seq![
        ' ', 'd', 'a', 'e', 'm', 'o', 'n', '\n', 'R', 'e', 's', 't', 'a', 'r', 't', '=', 'o',
        'n', '-', 'f', 'a', 'i', 'l', 'u', 'r', 'e', '\n', 'R', 'e', 's', 't', 'a', 'r', 't',
        'S', 'e', 'c', '=', '5', '\n', '\n', '[', 'I', 'n', 's', 't', 'a', 'l', 'l', ']', '\n',
        'W', 'a', 'n', 't', 'e', 'd', 'B', 'y', '=', 'd', 'e', 'f', 'a', 'u', 'l', 't', '.', 't',
        'a', 'r', 'g', 'e', 't',
    ]
}

/// The systemd user unit that runs `exe daemon`.
pub open spec fn systemd_unit_text(exe: Seq<char>) -> Seq<char> {
    unit_head() + exe + unit_tail()
}

/// The systemd user unit that runs `exe daemon` and restarts it on failure.
pub fn systemd_unit(exe: &str) -> (r: String)
    ensures
        r@ == systemd_unit_text(exe@),
{
    let mut v: Vec<char> = Vec::new();
    push_all(&mut v, &[
            '[', 'U', 'n', 'i', 't', ']', '\n', 'D', 'e', 's', 'c', 'r', 'i', 'p', 't', 'i', 'o',
            'n', '=', 'C', 'h', 'i', 'r', 'p', ' ', 't', 'a', 's', 'k', ' ', 'r', 'e', 'm', 'i', 'n',
            'd', 'e', 'r', ' ', 'd', 'a', 'e', 'm', 'o', 'n', '\n', '\n', '[', 'S', 'e', 'r', 'v',
            'i', 'c', 'e', ']', '\n', 'E', 'x', 'e', 'c', 'S', 't', 'a', 'r', 't', '=',
        ]);
    push_vec(&mut v, &chars_of(exe));
    push_all(&mut v, &[
            ' ', 'd', 'a', 'e', 'm', 'o', 'n', '\n', 'R', 'e', 's', 't', 'a', 'r', 't', '=', 'o',
            'n', '-', 'f', 'a', 'i', 'l', 'u', 'r', 'e', '\n', 'R', 'e', 's', 't', 'a', 'r', 't',
            'S', 'e', 'c', '=', '5', '\n', '\n', '[', 'I', 'n', 's', 't', 'a', 'l', 'l', ']', '\n',
            'W', 'a', 'n', 't', 'e', 'd', 'B', 'y', '=', 'd', 'e', 'f', 'a', 'u', 'l', 't', '.', 't',
            'a', 'r', 'g', 'e', 't',
        ]);
    string_of(&v)
}

/// The launch agent up to the program.
pub open spec fn plist_head() -> Seq<char> {
    seq![
        '<', '?', 'x', 'm', 'l', ' ', 'v', 'e', 'r', 's', 'i', 'o', 'n', '=', '"', '1', '.', '0',
        '"', ' ', 'e', 'n', 'c', 'o', 'd', 'i', 'n', 'g', '=', '"', 'U', 'T', 'F', '-', '8', '"',
        '?', '>', '\n', '<', '!', 'D', 'O', 'C', 'T', 'Y', 'P', 'E', ' ', 'p', 'l', 'i', 's',
        't', ' ', 'P', 'U', 'B', 'L', 'I', 'C', ' ', '"', '-', '/', '/', 'A', 'p', 'p', 'l', 'e',
        '/', '/', 'D', 'T', 'D', ' ', 'P', 'L', 'I', 'S', 'T', ' ', '1', '.', '0', '/', '/', 'E',
        'N', '"', ' ', '"', 'h', 't', 't', 'p', ':', '/', '/', 'w', 'w', 'w', '.', 'a', 'p', 'p',
        'l', 'e', '.', 'c', 'o', 'm', '/', 'D', 'T', 'D', 's', '/', 'P', 'r', 'o', 'p', 'e', 'r',
        't', 'y', 'L', 'i', 's', 't', '-', '1', '.', '0', '.', 'd', 't', 'd', '"', '>', '\n',
        '<', 'p', 'l', 'i', 's', 't', ' ', 'v', 'e', 'r', 's', 'i', 'o', 'n', '=', '"', '1', '.',
        '0', '"', '>', '\n', '<', 'd', 'i', 'c', 't', '>', '\n', ' ', ' ', ' ', ' ', '<', 'k',
        'e', 'y', '>', 'L', 'a', 'b', 'e', 'l', '<', '/', 'k', 'e', 'y', '>', '\n', ' ', ' ',
        ' ', ' ', '<', 's', 't', 'r', 'i', 'n', 'g', '>', 'c', 'o', 'm', '.', 'c', 'h', 'i', 'r',
        'p', '.', 'd', 'a', 'e', 'm', 'o', 'n', '<', '/', 's', 't', 'r', 'i', 'n', 'g', '>',
        '\n', ' ', ' ', ' ', ' ', '<', 'k', 'e', 'y', '>', 'P', 'r', 'o', 'g', 'r', 'a', 'm',
        'A', 'r', 'g', 'u', 'm', 'e', 'n', 't', 's', '<', '/', 'k', 'e', 'y', '>', '\n', ' ',
        ' ', ' ', ' ', '<', 'a', 'r', 'r', 'a', 'y', '>', '\n', ' ', ' ', ' ', ' ', ' ', ' ',
        ' ', ' ', '<', 's', 't', 'r', 'i', 'n', 'g', '>',
    ]
}

/// The launch agent from the program to the log file.
pub open spec fn plist_mid1() -> Seq<char> {
    seq![
        '<', '/', 's', 't', 'r', 'i', 'n', 'g', '>', '\n', ' ', ' ', ' ', ' ', ' ', ' ', ' ',
        ' ', '<', 's', 't', 'r', 'i', 'n', 'g', '>', 'd', 'a', 'e', 'm', 'o', 'n', '<', '/', 's',
        't', 'r', 'i', 'n', 'g', '>', '\n', ' ', ' ', ' ', ' ', '<', '/', 'a', 'r', 'r', 'a',
        'y', '>', '\n', ' ', ' ', ' ', ' ', '<', 'k', 'e', 'y', '>', 'R', 'u', 'n', 'A', 't',
        'L', 'o', 'a', 'd', '<', '/', 'k', 'e', 'y', '>', '\n', ' ', ' ', ' ', ' ', '<', 't',
        'r', 'u', 'e', '/', '>', '\n', ' ', ' ', ' ', ' ', '<', 'k', 'e', 'y', '>', 'K', 'e',
        'e', 'p', 'A', 'l', 'i', 'v', 'e', '<', '/', 'k', 'e', 'y', '>', '\n', ' ', ' ', ' ',
        ' ', '<', 't', 'r', 'u', 'e', '/', '>', '\n', ' ', ' ', ' ', ' ', '<', 'k', 'e', 'y',
        '>', 'S', 't', 'a', 'n', 'd', 'a', 'r', 'd', 'O', 'u', 't', 'P', 'a', 't', 'h', '<', '/',
        'k', 'e', 'y', '>', '\n', ' ', ' ', ' ', ' ', '<', 's', 't', 'r', 'i', 'n', 'g', '>',
    ]
}

/// The launch agent between the two log file entries.
pub open spec fn plist_mid2() -> Seq<char> {
    seq![
        '<', '/', 's', 't', 'r', 'i', 'n', 'g', '>', '\n', ' ', ' ', ' ', ' ', '<', 'k', 'e',
        'y', '>', 'S', 't', 'a', 'n', 'd', 'a', 'r', 'd', 'E', 'r', 'r', 'o', 'r', 'P', 'a', 't',
        'h', '<', '/', 'k', 'e', 'y', '>', '\n', ' ', ' ', ' ', ' ', '<', 's', 't', 'r', 'i',
        'n', 'g', '>',
    ]
}

/// The end of the launch agent.
pub open spec fn plist_tail() -> Seq<char> {
    seq![
        '<', '/', 's', 't', 'r', 'i', 'n', 'g', '>', '\n', '<', '/', 'd', 'i', 'c', 't', '>',
        '\n', '<', '/', 'p', 'l', 'i', 's', 't', '>',
    ]
}

/// The launchd agent that runs `exe daemon` at login, keeps it alive and
/// sends its output to `log`.
pub open spec fn launchd_plist_text(exe: Seq<char>, log: Seq<char>) -> Seq<char> {
    plist_head() + exe + plist_mid1() + log + plist_mid2() + log + plist_tail()
}

/// The launchd agent that runs `exe daemon`.
pub fn launchd_plist(exe: &str, log: &str) -> (r: String)
    ensures
        r@ == launchd_plist_text(exe@, log@),
{
    let mut v: Vec<char> = Vec::new();
    let lv = chars_of(log);
    push_all(&mut v, &[
            '<', '?', 'x', 'm', 'l', ' ', 'v', 'e', 'r', 's', 'i', 'o', 'n', '=', '"', '1', '.', '0',
            '"', ' ', 'e', 'n', 'c', 'o', 'd', 'i', 'n', 'g', '=', '"', 'U', 'T', 'F', '-', '8', '"',
            '?', '>', '\n', '<', '!', 'D', 'O', 'C', 'T', 'Y', 'P', 'E', ' ', 'p', 'l', 'i', 's',
            't', ' ', 'P', 'U', 'B', 'L', 'I', 'C', ' ', '"', '-', '/', '/', 'A', 'p', 'p', 'l', 'e',
            '/', '/', 'D', 'T', 'D', ' ', 'P', 'L', 'I', 'S', 'T', ' ', '1', '.', '0', '/', '/', 'E',
            'N', '"', ' ', '"', 'h', 't', 't', 'p', ':', '/', '/', 'w', 'w', 'w', '.', 'a', 'p', 'p',
            'l', 'e', '.', 'c', 'o', 'm', '/', 'D', 'T', 'D', 's', '/', 'P', 'r', 'o', 'p', 'e', 'r',
            't', 'y', 'L', 'i', 's', 't', '-', '1', '.', '0', '.', 'd', 't', 'd', '"', '>', '\n',
            '<', 'p', 'l', 'i', 's', 't', ' ', 'v', 'e', 'r', 's', 'i', 'o', 'n', '=', '"', '1', '.',
            '0', '"', '>', '\n', '<', 'd', 'i', 'c', 't', '>', '\n', ' ', ' ', ' ', ' ', '<', 'k',
            'e', 'y', '>', 'L', 'a', 'b', 'e', 'l', '<', '/', 'k', 'e', 'y', '>', '\n', ' ', ' ',
            ' ', ' ', '<', 's', 't', 'r', 'i', 'n', 'g', '>', 'c', 'o', 'm', '.', 'c', 'h', 'i', 'r',
            'p', '.', 'd', 'a', 'e', 'm', 'o', 'n', '<', '/', 's', 't', 'r', 'i', 'n', 'g', '>',
            '\n', ' ', ' ', ' ', ' ', '<', 'k', 'e', 'y', '>', 'P', 'r', 'o', 'g', 'r', 'a', 'm',
            'A', 'r', 'g', 'u', 'm', 'e', 'n', 't', 's', '<', '/', 'k', 'e', 'y', '>', '\n', ' ',
            ' ', ' ', ' ', '<', 'a', 'r', 'r', 'a', 'y', '>', '\n', ' ', ' ', ' ', ' ', ' ', ' ',
            ' ', ' ', '<', 's', 't', 'r', 'i', 'n', 'g', '>',
        ]);
    push_vec(&mut v, &chars_of(exe));
    push_all(&mut v, &[
            '<', '/', 's', 't', 'r', 'i', 'n', 'g', '>', '\n', ' ', ' ', ' ', ' ', ' ', ' ', ' ',
            ' ', '<', 's', 't', 'r', 'i', 'n', 'g', '>', 'd', 'a', 'e', 'm', 'o', 'n', '<', '/', 's',
            't', 'r', 'i', 'n', 'g', '>', '\n', ' ', ' ', ' ', ' ', '<', '/', 'a', 'r', 'r', 'a',
            'y', '>', '\n', ' ', ' ', ' ', ' ', '<', 'k', 'e', 'y', '>', 'R', 'u', 'n', 'A', 't',
            'L', 'o', 'a', 'd', '<', '/', 'k', 'e', 'y', '>', '\n', ' ', ' ', ' ', ' ', '<', 't',
            'r', 'u', 'e', '/', '>', '\n', ' ', ' ', ' ', ' ', '<', 'k', 'e', 'y', '>', 'K', 'e',
            'e', 'p', 'A', 'l', 'i', 'v', 'e', '<', '/', 'k', 'e', 'y', '>', '\n', ' ', ' ', ' ',
            ' ', '<', 't', 'r', 'u', 'e', '/', '>', '\n', ' ', ' ', ' ', ' ', '<', 'k', 'e', 'y',
            '>', 'S', 't', 'a', 'n', 'd', 'a', 'r', 'd', 'O', 'u', 't', 'P', 'a', 't', 'h', '<', '/',
            'k', 'e', 'y', '>', '\n', ' ', ' ', ' ', ' ', '<', 's', 't', 'r', 'i', 'n', 'g', '>',
        ]);
    push_vec(&mut v, &lv);
    push_all(&mut v, &[
            '<', '/', 's', 't', 'r', 'i', 'n', 'g', '>', '\n', ' ', ' ', ' ', ' ', '<', 'k', 'e',
            'y', '>', 'S', 't', 'a', 'n', 'd', 'a', 'r', 'd', 'E', 'r', 'r', 'o', 'r', 'P', 'a', 't',
            'h', '<', '/', 'k', 'e', 'y', '>', '\n', ' ', ' ', ' ', ' ', '<', 's', 't', 'r', 'i',
            'n', 'g', '>',
        ]);
    push_vec(&mut v, &lv);
    push_all(&mut v, &[
            '<', '/', 's', 't', 'r', 'i', 'n', 'g', '>', '\n', '<', '/', 'd', 'i', 'c', 't', '>',
            '\n', '<', '/', 'p', 'l', 'i', 's', 't', '>',
        ]);
    string_of(&v)
}

/// The command Task Scheduler runs: `"exe" daemon`.
pub open spec fn task_command_text(exe: Seq<char>) -> Seq<char> {
    seq!['"'] + exe + seq!['"', ' ', 'd', 'a', 'e', 'm', 'o', 'n']
}

/// The command Task Scheduler runs at logon.
pub fn task_command(exe: &str) -> (r: String)
    ensures
        r@ == task_command_text(exe@),
{
    let mut v: Vec<char> = Vec::new();
    v.push('"');
    push_vec(&mut v, &chars_of(exe));
    push_all(&mut v, &['"', ' ', 'd', 'a', 'e', 'm', 'o', 'n']);
    string_of(&v)
}


// ======================= opening a terminal =======================

/// The platforms the daemon opens a terminal on.
#[derive(Debug, Clone, Copy, PartialEq, Eq, Structural)]
pub enum Platform {
    MacOs,
    Linux,
    Windows,
    Other,
}

/// A program to start, with its arguments.
pub struct Launch {
    pub program: String,
    pub args: Vec<String>,
}

/// A described launch: the program and its arguments.
pub type LaunchSpec = (Seq<char>, Seq<Seq<char>>);

pub open spec fn launch_is(l: Launch, d: LaunchSpec) -> bool {
    &&& l.program@ == d.0
    &&& l.args@.len() == d.1.len()
    &&& forall|k: int| 0 <= k < d.1.len() ==> (#[trigger] l.args@[k])@ == d.1[k]
}

pub open spec fn launches_are(r: Seq<Launch>, ds: Seq<LaunchSpec>) -> bool {
    r.len() == ds.len() && forall|k: int| 0 <= k < ds.len() ==> launch_is(#[trigger] r[k], ds[k])
}

/// The AppleScript that has `app` open a window running `exe`.
pub open spec fn apple_script(app: Seq<char>, exe: Seq<char>) -> Seq<char> {
    seq!['t', 'e', 'l', 'l', ' ', 'a', 'p', 'p', 'l', 'i', 'c', 'a', 't', 'i', 'o', 'n', ' ', '"'] + app + seq!['"', '\n', ' ', ' ', ' ', ' ', ' ', ' ', ' ', ' ', ' ', ' ', ' ', ' ', ' ', ' ', ' ', ' ', ' ', ' ', ' ', ' ', 'a', 'c', 't', 'i', 'v', 'a', 't', 'e', '\n', ' ', ' ', ' ', ' ', ' ', ' ', ' ', ' ', ' ', ' ', ' ', ' ', ' ', ' ', ' ', ' ', ' ', ' ', ' ', ' ', 'd', 'o', ' ', 's', 'c', 'r', 'i', 'p', 't', ' ', '"'] + exe + seq!['"', '\n', ' ', ' ', ' ', ' ', ' ', ' ', ' ', ' ', ' ', ' ', ' ', ' ', ' ', ' ', ' ', ' ', 'e', 'n', 'd', ' ', 't', 'e', 'l', 'l']
}

/// Terminal.app and iTerm2 take an AppleScript `do script`: the terminal
/// named by `TERM_PROGRAM` is one of them, or none is named.
pub open spec fn scriptable(term: Seq<char>) -> bool {
    term.len() == 0 || term == seq!['A', 'p', 'p', 'l', 'e', '_', 'T', 'e', 'r', 'm', 'i', 'n', 'a', 'l'] || term == seq!['i', 'T', 'e', 'r', 'm', '.', 'a', 'p', 'p']
}

/// How to open a terminal window running `exe`, in the order to try them:
/// on macOS an AppleScript for Terminal or iTerm2, or `open -a` for another
/// terminal; on Linux the common terminals one after the other; on Windows
/// `cmd /c start`.
pub open spec fn terminal_plan(os: Platform, term: Seq<char>, exe: Seq<char>) -> Seq<LaunchSpec> {
    match os {
        Platform::MacOs => if scriptable(term) {
            seq![
                (
                    seq!['o', 's', 'a', 's', 'c', 'r', 'i', 'p', 't'],
                    seq![seq!['-', 'e'], apple_script(if term == seq!['i', 'T', 'e', 'r', 'm', '.', 'a', 'p', 'p'] {
                        seq!['i', 'T', 'e', 'r', 'm']
                    } else {
                        seq!['T', 'e', 'r', 'm', 'i', 'n', 'a', 'l']
                    }, exe)],
                ),
            ]
        } else {
            seq![(seq!['o', 'p', 'e', 'n'], seq![seq!['-', 'a'], term, seq!['-', '-', 'a', 'r', 'g', 's'], seq!['-', 'e'], exe])]
        },
        Platform::Linux => seq![
            (seq!['g', 'n', 'o', 'm', 'e', '-', 't', 'e', 'r', 'm', 'i', 'n', 'a', 'l'], seq![seq!['-', '-'], exe]),
            (seq!['k', 'o', 'n', 's', 'o', 'l', 'e'], seq![seq!['-', 'e'], exe]),
            (seq!['x', 'f', 'c', 'e', '4', '-', 't', 'e', 'r', 'm', 'i', 'n', 'a', 'l'], seq![seq!['-', 'e'], exe]),
            (seq!['a', 'l', 'a', 'c', 'r', 'i', 't', 't', 'y'], seq![seq!['-', 'e'], exe]),
            (seq!['k', 'i', 't', 't', 'y'], seq![exe]),
            (seq!['x', 't', 'e', 'r', 'm'], seq![seq!['-', 'e'], exe])
        ],
        Platform::Windows => seq![(seq!['c', 'm', 'd'], seq![seq!['/', 'c'], seq!['s', 't', 'a', 'r', 't'], seq!['C', 'h', 'i', 'r', 'p'], exe])],
        Platform::Other => Seq::empty(),
    }
}

fn text_of(c: &[char]) -> (r: String)
    ensures
        r@ == c@,
{
    let mut v: Vec<char> = Vec::new();
    push_all(&mut v, c);
    string_of(&v)
}

fn launch(program: &[char], args: Vec<String>) -> (r: Launch)
    ensures
        r.program@ == program@,
        r.args == args,
{
    Launch { program: text_of(program), args }
}

/// The launches that open a terminal window running `exe` on `os`, where
/// `term_program` is the value of `TERM_PROGRAM` (empty when unset); the
/// caller tries them in order until one starts.
pub fn terminal_launches(os: Platform, term_program: &str, exe: &str) -> (r: Vec<Launch>)
    ensures
        launches_are(r@, terminal_plan(os, term_program@, exe@)),
{
    let ghost plan = terminal_plan(os, term_program@, exe@);
    let tv = chars_of(term_program);
    let mut out: Vec<Launch> = Vec::new();
    match os {
        Platform::MacOs => {
            let iterm = equals_exec(&tv, &['i', 'T', 'e', 'r', 'm', '.', 'a', 'p', 'p']);
            if tv.len() == 0 || equals_exec(&tv, &['A', 'p', 'p', 'l', 'e', '_', 'T', 'e', 'r', 'm', 'i', 'n', 'a', 'l']) || iterm {
                let mut script: Vec<char> = Vec::new();
                push_all(&mut script, &['t', 'e', 'l', 'l', ' ', 'a', 'p', 'p', 'l', 'i', 'c', 'a', 't', 'i', 'o', 'n', ' ', '"']);
                if iterm {
                    push_all(&mut script, &['i', 'T', 'e', 'r', 'm']);
                } else {
                    push_all(&mut script, &['T', 'e', 'r', 'm', 'i', 'n', 'a', 'l']);
                }
                push_all(&mut script, &['"', '\n', ' ', ' ', ' ', ' ', ' ', ' ', ' ', ' ', ' ', ' ', ' ', ' ', ' ', ' ', ' ', ' ', ' ', ' ', ' ', ' ', 'a', 'c', 't', 'i', 'v', 'a', 't', 'e', '\n', ' ', ' ', ' ', ' ', ' ', ' ', ' ', ' ', ' ', ' ', ' ', ' ', ' ', ' ', ' ', ' ', ' ', ' ', ' ', ' ', 'd', 'o', ' ', 's', 'c', 'r', 'i', 'p', 't', ' ', '"']);
                push_vec(&mut script, &chars_of(exe));
                push_all(&mut script, &['"', '\n', ' ', ' ', ' ', ' ', ' ', ' ', ' ', ' ', ' ', ' ', ' ', ' ', ' ', ' ', ' ', ' ', 'e', 'n', 'd', ' ', 't', 'e', 'l', 'l']);
                let ghost app = if term_program@ == seq!['i', 'T', 'e', 'r', 'm', '.', 'a', 'p', 'p'] {
                    seq!['i', 'T', 'e', 'r', 'm']
                } else {
                    seq!['T', 'e', 'r', 'm', 'i', 'n', 'a', 'l']
                };
                assert(script@ =~= apple_script(app, exe@));
                let args = vec![text_of(&['-', 'e']), string_of(&script)];
                out.push(launch(&['o', 's', 'a', 's', 'c', 'r', 'i', 'p', 't'], args));
            } else {
                let args = vec![text_of(&['-', 'a']), term_program.to_owned(), text_of(&['-', '-', 'a', 'r', 'g', 's']), text_of(&['-', 'e']), exe.to_owned()];
                out.push(launch(&['o', 'p', 'e', 'n'], args));
            }
        },
        Platform::Linux => {
            out.push(launch(&['g', 'n', 'o', 'm', 'e', '-', 't', 'e', 'r', 'm', 'i', 'n', 'a', 'l'], vec![text_of(&['-', '-']), exe.to_owned()]));
            out.push(launch(&['k', 'o', 'n', 's', 'o', 'l', 'e'], vec![text_of(&['-', 'e']), exe.to_owned()]));
            out.push(launch(&['x', 'f', 'c', 'e', '4', '-', 't', 'e', 'r', 'm', 'i', 'n', 'a', 'l'], vec![text_of(&['-', 'e']), exe.to_owned()]));
            out.push(launch(&['a', 'l', 'a', 'c', 'r', 'i', 't', 't', 'y'], vec![text_of(&['-', 'e']), exe.to_owned()]));
            out.push(launch(&['k', 'i', 't', 't', 'y'], vec![exe.to_owned()]));
            out.push(launch(&['x', 't', 'e', 'r', 'm'], vec![text_of(&['-', 'e']), exe.to_owned()]));
        },
        Platform::Windows => {
            let args = vec![text_of(&['/', 'c']), text_of(&['s', 't', 'a', 'r', 't']), text_of(&['C', 'h', 'i', 'r', 'p']), exe.to_owned()];
            out.push(launch(&['c', 'm', 'd'], args));
        },
        Platform::Other => {},
    }
    proof {
        assert forall|k: int| 0 <= k < plan.len() implies launch_is(#[trigger] out@[k], plan[k]) by {
            let l = out@[k];
            assert(l.args@.len() == plan[k].1.len());
            assert forall|j: int| 0 <= j < plan[k].1.len() implies (#[trigger] l.args@[j])@ == plan[k].1[j] by {}
        }
    }
    out
}

// ======================= service set-up =======================

/// The service is put in place when chirp starts only where it is neither
/// installed nor running.
pub fn should_auto_install(installed: bool, running: bool) -> (r: bool)
    ensures
        r == (!installed && !running),
{
    !installed && !running
}

pub open spec fn msg_uninstalled() -> Seq<char> {
    seq!['U', 'n', 'i', 'n', 's', 't', 'a', 'l', 'l', 'e', 'd', ' ', 'c', 'h', 'i', 'r', 'p', ' ', 'd', 'a', 'e', 'm', 'o', 'n']
}

/// What `uninstall` reports on `os`, where `found` says whether the service
/// was there to remove (on Windows: whether deleting the scheduled task
/// succeeded); nothing on a platform without a service.
pub open spec fn uninstall_text(os: Platform, found: bool) -> Option<Seq<char>> {
    match os {
        Platform::Other => None,
        _ => Some(
            if found {
                msg_uninstalled()
            } else {
                match os {
                    Platform::MacOs => seq!['N', 'o', ' ', 'l', 'a', 'u', 'n', 'c', 'h', ' ', 'a', 'g', 'e', 'n', 't', ' ', 'f', 'o', 'u', 'n', 'd'],
                    Platform::Linux => seq!['N', 'o', ' ', 's', 'y', 's', 't', 'e', 'm', 'd', ' ', 's', 'e', 'r', 'v', 'i', 'c', 'e', ' ', 'f', 'o', 'u', 'n', 'd'],
                    _ => seq!['N', 'o', ' ', 's', 'c', 'h', 'e', 'd', 'u', 'l', 'e', 'd', ' ', 't', 'a', 's', 'k', ' ', 'f', 'o', 'u', 'n', 'd'],
                }
            },
        ),
    }
}

/// The line `chirp daemon uninstall` prints on `os`.
pub fn uninstall_message(os: Platform, found: bool) -> (r: Option<String>)
    ensures
        match r {
            Some(s) => uninstall_text(os, found) == Some(s@),
            None => uninstall_text(os, found) is None,
        },
{
    match os {
        Platform::Other => None,
        _ => {
            if found {
                Some(text_of(&['U', 'n', 'i', 'n', 's', 't', 'a', 'l', 'l', 'e', 'd', ' ', 'c', 'h', 'i', 'r', 'p', ' ', 'd', 'a', 'e', 'm', 'o', 'n']))
            } else {
                match os {
                    Platform::MacOs => Some(text_of(&['N', 'o', ' ', 'l', 'a', 'u', 'n', 'c', 'h', ' ', 'a', 'g', 'e', 'n', 't', ' ', 'f', 'o', 'u', 'n', 'd'])),
                    Platform::Linux => Some(text_of(&['N', 'o', ' ', 's', 'y', 's', 't', 'e', 'm', 'd', ' ', 's', 'e', 'r', 'v', 'i', 'c', 'e', ' ', 'f', 'o', 'u', 'n', 'd'])),
                    _ => Some(text_of(&['N', 'o', ' ', 's', 'c', 'h', 'e', 'd', 'u', 'l', 'e', 'd', ' ', 't', 'a', 's', 'k', ' ', 'f', 'o', 'u', 'n', 'd'])),
                }
            }
        },
    }
}

} // verus!
