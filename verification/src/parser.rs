//! Natural-language task entry: turning `buy milk tomorrow 5pm p1 ping 30m
//! daily` into its parts, and the formatting helpers that go the other way.
use vstd::prelude::*;

use crate::clock::{
    at_offset, format_local, in_calendar, in_local_range, known_format, naive_millis, local_day_of, local_millis_at,
    local_minute_of, local_now, now_millis, to_lowercase, utc_day, LocalNow, DAY_MILLIS, MAX_LOCAL_MILLIS, MAX_MILLIS,
    MIN_MILLIS,
};
use crate::grammar::{find, find_exec, lemma_first_from_bounds, TimeToken, Token};
use crate::text::{
    chars_of, ci_at, ci_at_exec, collapse_ws, collapse_ws_chars, cut_and_trim, cut_and_trim_chars,
    decimal, digit_end, digits_value, digits_value_upto, equals_exec, int_text,
    lemma_digit_end_bounds, push_all, push_decimal, push_int, push_vec, skip_digits, skip_ws,
    string_of, trim, trim_chars, ws_end,
};

verus! {

/// A task entry taken apart.
pub struct ParsedTask {
    pub content: String,
    pub due_at: Option<i64>,
    /// minutes
    pub ping_interval: Option<i64>,
    /// 1, 2 or 3
    pub priority: Option<u8>,
    /// "daily", "weekly" or "monthly"
    pub recurrence: Option<String>,
}

/// The textual part of a parsed entry: everything but the due time, which
/// is still the captured expression.
pub struct TaskText {
    pub content: Vec<char>,
    pub priority: Option<u8>,
    /// `0`, `1`, `2` for daily, weekly, monthly
    pub recurrence: Option<u8>,
    pub due: Option<TimeToken>,
    /// amount and whether the unit is minutes
    pub ping: Option<(u64, bool)>,
}

// ======================= the stages, as specs =======================

pub open spec fn stage_priority(s: Seq<char>) -> (Seq<char>, Option<u8>) {
    match find(0, s) {
        Some(m) => match m.2 {
            Token::Priority(p) => (cut_and_trim(s, m.0, m.1), Some(p)),
            _ => (s, None),
        },
        None => (s, None),
    }
}

pub open spec fn stage_recurrence(s: Seq<char>) -> (Seq<char>, Option<u8>) {
    match find(1, s) {
        Some(m) => match m.2 {
            Token::Recurrence(r) => (cut_and_trim(s, m.0, m.1), Some(r)),
            _ => (s, None),
        },
        None => (s, None),
    }
}

/// The due-date pattern tried in place `pos`: `tomorrow H`, `tomorrow`,
/// `today H`, a day name with a time, `[at ]Ham|pm`, `in N unit`, `next
/// week`, a day name.
pub open spec fn time_id(pos: int) -> int {
    if pos <= 2 {
        pos + 2
    } else if pos == 3 {
        11
    } else {
        pos + 1
    }
}

fn time_id_exec(pos: u8) -> (r: u8)
    requires
        pos <= 7,
    ensures
        r == time_id(pos as int),
{
    if pos <= 2 {
        pos + 2
    } else if pos == 3 {
        11
    } else {
        pos + 1
    }
}

/// The first due-date pattern (in places `pos..=7`, in order) that matches
/// `s`, with its leftmost match.
pub open spec fn time_from(s: Seq<char>, pos: int) -> Option<(int, int, TimeToken)>
    decreases 8 - pos,
{
    if pos < 0 || pos > 7 {
        None
    } else {
        match find(time_id(pos), s) {
            Some(m) => match m.2 {
                Token::Time(t) => Some((m.0, m.1, t)),
                _ => time_from(s, pos + 1),
            },
            None => time_from(s, pos + 1),
        }
    }
}

/// The first ping pattern (ids `id..=10`) that matches `s`.
pub open spec fn ping_from(s: Seq<char>, id: int) -> Option<(int, int, u64, bool)>
    decreases 11 - id,
{
    if id < 9 || id > 10 {
        None
    } else {
        match find(id, s) {
            Some(m) => match m.2 {
                Token::Ping { amount, minutes } => Some((m.0, m.1, amount, minutes)),
                _ => ping_from(s, id + 1),
            },
            None => ping_from(s, id + 1),
        }
    }
}

/// Text after the priority and recurrence were taken out.
pub open spec fn text_before_time(input: Seq<char>) -> Seq<char> {
    stage_recurrence(stage_priority(trim(input)).0).0
}

pub open spec fn text_before_ping(input: Seq<char>) -> Seq<char> {
    let s = text_before_time(input);
    match time_from(s, 0) {
        Some(m) => cut_and_trim(s, m.0, m.1),
        None => s,
    }
}

pub open spec fn text_after_ping(input: Seq<char>) -> Seq<char> {
    let s = text_before_ping(input);
    match ping_from(s, 9) {
        Some(m) => cut_and_trim(s, m.0, m.1),
        None => s,
    }
}

/// The task's words once every recognised expression is gone and the
/// whitespace is collapsed.
pub open spec fn parsed_content(input: Seq<char>) -> Seq<char> {
    trim(collapse_ws(text_after_ping(input)))
}

pub open spec fn parsed_priority(input: Seq<char>) -> Option<u8> {
    stage_priority(trim(input)).1
}

pub open spec fn parsed_recurrence(input: Seq<char>) -> Option<u8> {
    stage_recurrence(stage_priority(trim(input)).0).1
}

pub open spec fn parsed_due(input: Seq<char>) -> Option<TimeToken> {
    match time_from(text_before_time(input), 0) {
        Some(m) => Some(m.2),
        None => None,
    }
}

pub open spec fn parsed_ping(input: Seq<char>) -> Option<(u64, bool)> {
    match ping_from(text_before_ping(input), 9) {
        Some(m) => Some((m.2, m.3)),
        None => None,
    }
}

pub open spec fn recurrence_name(r: u8) -> Seq<char> {
    if r == 0 {
        seq!['d', 'a', 'i', 'l', 'y']
    } else if r == 1 {
        seq!['w', 'e', 'e', 'k', 'l', 'y']
    } else {
        seq!['m', 'o', 'n', 't', 'h', 'l', 'y']
    }
}

/// The ping interval in minutes.
pub open spec fn ping_minutes(p: (u64, bool)) -> int {
    if p.1 {
        p.0 as int
    } else {
        p.0 * 60
    }
}

/// The largest number of seconds a `chrono::Duration` holds.
pub open spec fn max_duration_secs() -> int {
    9223372036854775
}

/// Whether the matched day name contains a long s (`ſ`), which matches `s`
/// case-insensitively but is not one of the day names in lower case.
pub open spec fn day_name_has_long_s(input: Seq<char>) -> bool {
    match time_from(text_before_time(input), 0) {
        Some(m) => (m.2 is Day) && exists|k: int|
            m.0 <= k < m.1 && (#[trigger] text_before_time(input)[k] as u32) == 0x17F,
        None => false,
    }
}

/// The entries on which parsing does not fail: the numbers that are read
/// fit their types and a matched day name is one of the seven names.
pub open spec fn entry_accepted(input: Seq<char>) -> bool {
    &&& !day_name_has_long_s(input)
    &&& (parsed_due(input) matches Some(TimeToken::In { amount, minutes }) ==> (if minutes {
        amount * 60
    } else {
        amount * 3600
    }) <= max_duration_secs())
    &&& (parsed_ping(input) matches Some(p) ==> ping_minutes(p) <= i64::MAX)
}

// ======================= the stages, executable =======================

fn stage_priority_exec(s: Vec<char>) -> (r: (Vec<char>, Option<u8>))
    ensures
        r.0@ == stage_priority(s@).0,
        r.1 == stage_priority(s@).1,
{
    match find_exec(0, &s) {
        Some(m) => match m.2 {
            Token::Priority(p) => (cut_and_trim_chars(&s, m.0, m.1), Some(p)),
            _ => (s, None),
        },
        None => (s, None),
    }
}

fn stage_recurrence_exec(s: Vec<char>) -> (r: (Vec<char>, Option<u8>))
    ensures
        r.0@ == stage_recurrence(s@).0,
        r.1 == stage_recurrence(s@).1,
{
    match find_exec(1, &s) {
        Some(m) => match m.2 {
            Token::Recurrence(x) => (cut_and_trim_chars(&s, m.0, m.1), Some(x)),
            _ => (s, None),
        },
        None => (s, None),
    }
}

fn time_exec(s: &Vec<char>) -> (r: Option<(usize, usize, TimeToken)>)
    ensures
        r matches Some(m) ==> time_from(s@, 0) == Some((m.0 as int, m.1 as int, m.2)) && m.0
            <= m.1 <= s.len(),
        r is None ==> time_from(s@, 0) is None,
{
    let mut pos: u8 = 0;
    while pos <= 7
        invariant
            pos <= 8,
            time_from(s@, 0) == time_from(s@, pos as int),
        decreases 8 - pos,
    {
        let id = time_id_exec(pos);
        match find_exec(id, s) {
            Some(m) => match m.2 {
                Token::Time(t) => {
                    return Some((m.0, m.1, t));
                },
                _ => {},
            },
            None => {},
        }
        pos += 1;
    }
    None
}

fn ping_exec(s: &Vec<char>) -> (r: Option<(usize, usize, u64, bool)>)
    ensures
        r matches Some(m) ==> ping_from(s@, 9) == Some((m.0 as int, m.1 as int, m.2, m.3)) && m.0
            <= m.1 <= s.len(),
        r is None ==> ping_from(s@, 9) is None,
{
    let mut id: u8 = 9;
    while id <= 10
        invariant
            9 <= id <= 11,
            ping_from(s@, 9) == ping_from(s@, id as int),
        decreases 11 - id,
    {
        match find_exec(id, s) {
            Some(m) => match m.2 {
                Token::Ping { amount, minutes } => {
                    return Some((m.0, m.1, amount, minutes));
                },
                _ => {},
            },
            None => {},
        }
        id += 1;
    }
    None
}

/// Takes the entry apart: priority, recurrence, the first due-date
/// expression (patterns tried from the most specific), the first ping
/// interval, and what remains with its whitespace collapsed.
pub fn parse_task_text(input: &str) -> (r: TaskText)
    ensures
        r.content@ == parsed_content(input@),
        r.priority == parsed_priority(input@),
        r.recurrence == parsed_recurrence(input@),
        r.due == parsed_due(input@),
        r.ping == parsed_ping(input@),
{
    let chars = chars_of(input);
    let s0 = trim_chars(&chars);
    let (s1, priority) = stage_priority_exec(s0);
    let (s2, recurrence) = stage_recurrence_exec(s1);
    let tm = time_exec(&s2);
    let (s3, due) = match tm {
        Some(m) => (cut_and_trim_chars(&s2, m.0, m.1), Some(m.2)),
        None => (s2, None),
    };
    let pm = ping_exec(&s3);
    let (s4, ping) = match pm {
        Some(m) => (cut_and_trim_chars(&s3, m.0, m.1), Some((m.2, m.3))),
        None => (s3, None),
    };
    let collapsed = collapse_ws_chars(&s4);
    let content = trim_chars(&collapsed);
    TaskText { content, priority, recurrence, due, ping }
}

/// Whether the range `a..b` of `s` holds a long s (`ſ`).
fn has_long_s(s: &Vec<char>, a: usize, b: usize) -> (r: bool)
    requires
        a <= b <= s.len(),
    ensures
        r == exists|k: int| a <= k < b && (#[trigger] s@[k] as u32) == 0x17F,
{
    let mut k: usize = a;
    while k < b
        invariant
            a <= k <= b <= s.len(),
            forall|j: int| a <= j < k ==> (#[trigger] s@[j] as u32) != 0x17F,
        decreases b - k,
    {
        if (s[k] as u32) == 0x17F {
            return true;
        }
        k += 1;
    }
    false
}

/// Whether parsing `input` succeeds (see `entry_accepted`): callers that
/// hand an entry from outside test it with this first.
pub fn accepts_entry(input: &str) -> (r: bool)
    ensures
        r == entry_accepted(input@),
{
    let chars = chars_of(input);
    let s0 = trim_chars(&chars);
    let (s1, _priority) = stage_priority_exec(s0);
    let (s2, _recurrence) = stage_recurrence_exec(s1);
    let tm = time_exec(&s2);
    let mut ok = true;
    let s3 = match tm {
        Some(m) => {
            match m.2 {
                TimeToken::Day { .. } => {
                    if has_long_s(&s2, m.0, m.1) {
                        ok = false;
                    }
                },
                TimeToken::In { amount, minutes } => {
                    let limit: u64 = if minutes {
                        153722867280912
                    } else {
                        2562047788015
                    };
                    if amount > limit {
                        ok = false;
                    }
                },
                _ => {},
            }
            cut_and_trim_chars(&s2, m.0, m.1)
        },
        None => s2,
    };
    let pm = ping_exec(&s3);
    match pm {
        Some(m) => {
            let limit: u64 = if m.3 {
                9223372036854775807
            } else {
                153722867280912930
            };
            if m.2 > limit {
                ok = false;
            }
        },
        None => {},
    }
    ok
}

// ======================= hours and due times =======================

/// The 24-hour value of `hour` with an optional period (`Some(true)` for pm).
/// A bare hour before 8 is taken as afternoon.
pub open spec fn hours_with_period(hour: u32, pm: Option<bool>) -> int {
    match pm {
        Some(true) => if hour != 12 {
            hour + 12
        } else {
            hour as int
        },
        Some(false) => if hour == 12 {
            0
        } else {
            hour as int
        },
        None => if hour < 8 {
            hour + 12
        } else {
            hour as int
        },
    }
}

/// Whether `p` is `pm` (`first` is `'p'`) or `am` (`first` is `'a'`) up to
/// ASCII case.
pub open spec fn is_period(p: Seq<char>, first: char) -> bool {
    &&& p.len() == 2
    &&& (if first == 'p' {
        p[0] == 'p' || p[0] == 'P'
    } else {
        p[0] == 'a' || p[0] == 'A'
    })
    &&& (p[1] == 'm' || p[1] == 'M')
}

/// The period of an optional `am`/`pm` text.
pub open spec fn period_of(period: Option<Seq<char>>) -> Option<bool> {
    match period {
        Some(p) => if is_period(p, 'p') {
            Some(true)
        } else if is_period(p, 'a') {
            Some(false)
        } else {
            None
        },
        None => None,
    }
}

fn hours_with_period_exec(hour: u32, pm: Option<bool>) -> (r: u32)
    requires
        hour <= 1000,
    ensures
        r == hours_with_period(hour, pm),
{
    match pm {
        Some(true) => if hour != 12 {
            hour + 12
        } else {
            hour
        },
        Some(false) => if hour == 12 {
            0
        } else {
            hour
        },
        None => if hour < 8 {
            hour + 12
        } else {
            hour
        },
    }
}

/// The 24-hour value of `hour` given the period text (`"am"`/`"pm"` in any
/// case, or none). Any other period text leaves the hour as it is.
pub fn resolve_hours(hour: u32, period: Option<&str>) -> (r: u32)
    requires
        period matches Some(p) ==> (is_period(p@, 'p') ==> hour <= u32::MAX - 12),
    ensures
        r == (match period {
            Some(p) => if is_period(p@, 'p') || is_period(p@, 'a') {
                hours_with_period(hour, period_of(Some(p@)))
            } else {
                hour as int
            },
            None => hours_with_period(hour, None),
        }),
{
    match period {
        Some(p) => {
            let v = chars_of(p);
            let pm = v.len() == 2 && (v[0] == 'p' || v[0] == 'P') && (v[1] == 'm' || v[1] == 'M');
            let am = v.len() == 2 && (v[0] == 'a' || v[0] == 'A') && (v[1] == 'm' || v[1] == 'M');
            assert(pm == is_period(p@, 'p'));
            assert(am == is_period(p@, 'a'));
            if pm {
                if hour != 12 {
                    hour + 12
                } else {
                    hour
                }
            } else if am {
                if hour == 12 {
                    0
                } else {
                    hour
                }
            } else {
                hour
            }
        },
        None => if hour < 8 {
            hour + 12
        } else {
            hour
        },
    }
}

/// How a due time is obtained from the current moment.
#[derive(Clone, Copy, Debug)]
pub enum DuePlan {
    /// `millis` after now
    Offset { millis: i64 },
    /// at `hour:minute`, local time, on the local date `days` after today's
    OnDay { days: i64, hour: u32, minute: u32 },
}

pub open spec fn minute_or_zero(m: Option<u32>) -> u32 {
    match m {
        Some(v) => v,
        None => 0,
    }
}

/// Days from today's weekday `today` (days from Sunday) to the next `day`:
/// one to seven.
pub open spec fn days_ahead(day: u32, today: u32) -> i64 {
    let ahead = day - today;
    (if ahead <= 0 {
        ahead + 7
    } else {
        ahead
    }) as i64
}

/// The plan for a captured due expression.
pub open spec fn due_plan(t: TimeToken, now: LocalNow) -> DuePlan {
    match t {
        TimeToken::TomorrowAt { hour, minute, pm } => DuePlan::OnDay {
            days: 1,
            hour: hours_with_period(hour, pm) as u32,
            minute: minute_or_zero(minute),
        },
        TimeToken::Tomorrow => DuePlan::OnDay { days: 1, hour: 9, minute: 0 },
        TimeToken::TodayAt { hour, minute, pm } => DuePlan::OnDay {
            days: 0,
            hour: hours_with_period(hour, pm) as u32,
            minute: minute_or_zero(minute),
        },
        TimeToken::DayAt { day, hour, minute, pm } => DuePlan::OnDay {
            days: days_ahead(day, now.weekday),
            hour: hours_with_period(hour, pm) as u32,
            minute: minute_or_zero(minute),
        },
        TimeToken::At { hour, minute, is_pm } => {
            let h = hours_with_period(hour, Some(is_pm));
            let m = minute_or_zero(minute);
            DuePlan::OnDay {
                days: if now.hour > h || (now.hour == h && now.minute >= m) {
                    1
                } else {
                    0
                },
                hour: h as u32,
                minute: m,
            }
        },
        TimeToken::In { amount, minutes } => DuePlan::Offset {
            millis: (if minutes {
                amount * 60000
            } else {
                amount * 3600000
            }) as i64,
        },
        TimeToken::NextWeek => DuePlan::OnDay { days: 7, hour: 9, minute: 0 },
        TimeToken::Day { day } => DuePlan::OnDay { days: days_ahead(day, now.weekday), hour: 9, minute: 0 },
    }
}

/// The plan when only a recurrence was given: 9:00 one day, one week or
/// thirty days from now.
pub open spec fn default_plan(recurrence: u8) -> DuePlan {
    DuePlan::OnDay {
        days: if recurrence == 0 {
            1
        } else if recurrence == 1 {
            7
        } else {
            30
        },
        hour: 9,
        minute: 0,
    }
}

fn due_plan_exec(t: TimeToken, now: LocalNow) -> (r: DuePlan)
    requires
        now.wf(),
        t matches TimeToken::TomorrowAt { hour, .. } ==> hour <= 99,
        t matches TimeToken::TodayAt { hour, .. } ==> hour <= 99,
        t matches TimeToken::DayAt { hour, day, .. } ==> hour <= 99 && day < 7,
        t matches TimeToken::At { hour, .. } ==> hour <= 99,
        t matches TimeToken::In { amount, minutes } ==> (if minutes {
            amount * 60
        } else {
            amount * 3600
        }) <= max_duration_secs(),
        t matches TimeToken::Day { day } ==> day < 7,
    ensures
        r == due_plan(t, now),
{
    match t {
        TimeToken::TomorrowAt { hour, minute, pm } => DuePlan::OnDay {
            days: 1,
            hour: hours_with_period_exec(hour, pm),
            minute: match minute {
                Some(v) => v,
                None => 0,
            },
        },
        TimeToken::Tomorrow => DuePlan::OnDay { days: 1, hour: 9, minute: 0 },
        TimeToken::TodayAt { hour, minute, pm } => DuePlan::OnDay {
            days: 0,
            hour: hours_with_period_exec(hour, pm),
            minute: match minute {
                Some(v) => v,
                None => 0,
            },
        },
        TimeToken::DayAt { day, hour, minute, pm } => DuePlan::OnDay {
            days: days_ahead_exec(day, now.weekday),
            hour: hours_with_period_exec(hour, pm),
            minute: match minute {
                Some(v) => v,
                None => 0,
            },
        },
        TimeToken::At { hour, minute, is_pm } => {
            let h = hours_with_period_exec(hour, Some(is_pm));
            let m = match minute {
                Some(v) => v,
                None => 0,
            };
            DuePlan::OnDay {
                days: if now.hour > h || (now.hour == h && now.minute >= m) {
                    1
                } else {
                    0
                },
                hour: h,
                minute: m,
            }
        },
        TimeToken::In { amount, minutes } => {
            let ms: i64 = if minutes {
                (amount * 60000) as i64
            } else {
                (amount * 3600000) as i64
            };
            DuePlan::Offset { millis: ms }
        },
        TimeToken::NextWeek => DuePlan::OnDay { days: 7, hour: 9, minute: 0 },
        TimeToken::Day { day } => DuePlan::OnDay { days: days_ahead_exec(day, now.weekday), hour: 9, minute: 0 },
    }
}

fn days_ahead_exec(day: u32, today: u32) -> (r: i64)
    requires
        day < 7,
        today < 7,
    ensures
        r == days_ahead(day, today),
{
    let ahead: i64 = day as i64 - today as i64;
    if ahead <= 0 {
        ahead + 7
    } else {
        ahead
    }
}

/// The local date and time a plan on a given day asks for: the date `days`
/// after today's local date (days from the common era) with the plan's hour
/// and minute; `None` for an offset plan or a date outside `i32`.
pub open spec fn day_request_spec(plan: DuePlan, now: LocalNow) -> Option<(i32, u32, u32)> {
    match plan {
        DuePlan::Offset { .. } => None,
        DuePlan::OnDay { days, hour, minute } => {
            let d = now.day + days;
            if i32::MIN <= d <= i32::MAX {
                Some((d as i32, hour, minute))
            } else {
                None
            }
        },
    }
}

/// The local date and time a plan on a given day asks for.
pub fn day_request(plan: DuePlan, now: LocalNow) -> (r: Option<(i32, u32, u32)>)
    ensures
        r == day_request_spec(plan, now),
{
    match plan {
        DuePlan::Offset { .. } => None,
        DuePlan::OnDay { days, hour, minute } => {
            let d: i128 = now.day as i128 + days as i128;
            if i32::MIN as i128 <= d && d <= i32::MAX as i128 {
                Some((d as i32, hour, minute))
            } else {
                None
            }
        },
    }
}

/// What holds of the timestamp of the local time `q` (date, hour, minute)
/// whatever the time zone: when there is one, it is that date and time read
/// at some UTC offset of less than a day, a moment chrono represents.
pub open spec fn local_time_outcome(q: (i32, u32, u32), r: Option<i64>) -> bool {
    r matches Some(ms) ==> in_calendar(ms as int) && exists|off: int|
        -86400 < off < 86400 && ms == #[trigger] at_offset(naive_millis(q.0, q.1, q.2), off)
}

/// What holds of the timestamp a plan resolves to, whatever the time zone:
/// an offset lands exactly there (when chrono represents the result); a
/// plan on a given day gives the local time `day_request_spec` asks for,
/// `None` where that local time cannot be built (out of range, nonexistent
/// or ambiguous), and 0 for an invalid hour or minute as
/// `and_hms_opt(..).unwrap_or(0)` does.
pub open spec fn plan_outcome(plan: DuePlan, now: LocalNow, r: Option<i64>) -> bool {
    match plan {
        DuePlan::Offset { millis } => r == (if in_calendar(now.millis + millis) {
            Some((now.millis + millis) as i64)
        } else {
            None
        }),
        DuePlan::OnDay { .. } => match day_request_spec(plan, now) {
            None => r is None,
            Some(q) => if q.1 < 24 && q.2 < 60 {
                local_time_outcome(q, r)
            } else {
                r == Some(0i64)
            },
        },
    }
}

/// Carries out a plan on the local calendar: the request of `day_request`
/// goes unchanged to the local calendar.
pub fn resolve_plan(plan: DuePlan, now: LocalNow) -> (r: Option<i64>)
    requires
        now.wf(),
    ensures
        plan_outcome(plan, now, r),
{
    match plan {
        DuePlan::Offset { millis } => {
            let t: i128 = now.millis as i128 + millis as i128;
            if MIN_MILLIS as i128 <= t && t <= MAX_MILLIS as i128 {
                Some(t as i64)
            } else {
                None
            }
        },
        DuePlan::OnDay { .. } => match day_request(plan, now) {
            Some(q) => {
                if q.1 < 24 && q.2 < 60 {
                    local_millis_at(q.0, q.1, q.2)
                } else {
                    Some(0)
                }
            },
            None => None,
        },
    }
}

/// What holds of the due time of a parsed entry, for the moment `now`.
pub open spec fn due_outcome(input: Seq<char>, now: LocalNow, due_at: Option<i64>) -> bool {
    match parsed_due(input) {
        Some(t) => plan_outcome(due_plan(t, now), now, due_at),
        None => match parsed_recurrence(input) {
            Some(r) => plan_outcome(default_plan(r), now, due_at),
            None => due_at is None,
        },
    }
}

proof fn lemma_hour_bounds(input: Seq<char>)
    ensures
        parsed_due(input) matches Some(TimeToken::TomorrowAt { hour, .. }) ==> hour <= 99,
        parsed_due(input) matches Some(TimeToken::TodayAt { hour, .. }) ==> hour <= 99,
        parsed_due(input) matches Some(TimeToken::At { hour, .. }) ==> hour <= 99,
        parsed_due(input) matches Some(TimeToken::Day { day }) ==> day < 7,
        parsed_due(input) matches Some(TimeToken::DayAt { day, hour, .. }) ==> day < 7 && hour <= 99,
{
    hour_bounds_from(text_before_time(input), 0);
}

proof fn hour_bounds_from(s: Seq<char>, pos: int)
    ensures
        time_from(s, pos) matches Some(m) ==> (m.2 matches TimeToken::TomorrowAt { hour, .. } ==> hour
            <= 99) && (m.2 matches TimeToken::TodayAt { hour, .. } ==> hour <= 99) && (
        m.2 matches TimeToken::At { hour, .. } ==> hour <= 99) && (m.2 matches TimeToken::Day { day }
            ==> day < 7) && (m.2 matches TimeToken::DayAt { day, hour, .. } ==> day < 7 && hour <= 99),
    decreases 8 - pos,
{
    if 0 <= pos <= 7 {
        hour_bounds_from(s, pos + 1);
        lemma_first_from_bounds(time_id(pos), s, 0);
    }
}

fn to_i64_minutes(p: (u64, bool)) -> (r: i64)
    requires
        ping_minutes(p) <= i64::MAX,
    ensures
        r == ping_minutes(p),
{
    if p.1 {
        p.0 as i64
    } else {
        (p.0 * 60) as i64
    }
}

fn recurrence_string(r: u8) -> (s: String)
    ensures
        s@ == recurrence_name(r),
{
    if r == 0 {
        string_of(&vec!['d', 'a', 'i', 'l', 'y'])
    } else if r == 1 {
        string_of(&vec!['w', 'e', 'e', 'k', 'l', 'y'])
    } else {
        string_of(&vec!['m', 'o', 'n', 't', 'h', 'l', 'y'])
    }
}

/// Parses an entry as of the moment `now`.
pub fn parse_task_input_at(input: &str, now: LocalNow) -> (r: ParsedTask)
    requires
        entry_accepted(input@),
        now.wf(),
    ensures
        r.content@ == parsed_content(input@),
        r.priority == parsed_priority(input@),
        r.recurrence matches Some(x) ==> parsed_recurrence(input@) matches Some(k) && x@
            == recurrence_name(k),
        r.recurrence is None <==> parsed_recurrence(input@) is None,
        r.ping_interval matches Some(x) ==> parsed_ping(input@) matches Some(p) && x == ping_minutes(
            p,
        ),
        r.ping_interval is None <==> parsed_ping(input@) is None,
        due_outcome(input@, now, r.due_at),
{
    let text = parse_task_text(input);
    proof {
        lemma_hour_bounds(input@);
    }
    let due_at = match text.due {
        Some(t) => {
            let plan = due_plan_exec(t, now);
            resolve_plan(plan, now)
        },
        None => match text.recurrence {
            Some(x) => {
                let plan = DuePlan::OnDay {
                    days: if x == 0 {
                        1
                    } else if x == 1 {
                        7
                    } else {
                        30
                    },
                    hour: 9,
                    minute: 0,
                };
                resolve_plan(plan, now)
            },
            None => None,
        },
    };
    let ping_interval = match text.ping {
        Some(p) => Some(to_i64_minutes(p)),
        None => None,
    };
    let recurrence = match text.recurrence {
        Some(x) => Some(recurrence_string(x)),
        None => None,
    };
    ParsedTask {
        content: string_of(&text.content),
        due_at,
        ping_interval,
        priority: text.priority,
        recurrence,
    }
}

/// `p` is what parsing `text` gives at some moment.
pub open spec fn parsed_as(text: Seq<char>, p: ParsedTask) -> bool {
    &&& p.content@ == parsed_content(text)
    &&& p.priority == parsed_priority(text)
    &&& (p.recurrence matches Some(x) ==> parsed_recurrence(text) matches Some(k) && x@
        == recurrence_name(k))
    &&& (p.recurrence is None <==> parsed_recurrence(text) is None)
    &&& (p.ping_interval matches Some(x) ==> parsed_ping(text) matches Some(q) && x
        == ping_minutes(q))
    &&& (p.ping_interval is None <==> parsed_ping(text) is None)
    &&& exists|now: LocalNow| now.wf() && due_outcome(text, now, p.due_at)
}

/// Parses an entry as of the current moment.
pub fn parse_task_input(input: &str) -> (r: ParsedTask)
    requires
        entry_accepted(input@),
    ensures
        r.content@ == parsed_content(input@),
        r.priority == parsed_priority(input@),
        r.recurrence matches Some(x) ==> parsed_recurrence(input@) matches Some(k) && x@
            == recurrence_name(k),
        r.recurrence is None <==> parsed_recurrence(input@) is None,
        r.ping_interval matches Some(x) ==> parsed_ping(input@) matches Some(p) && x == ping_minutes(
            p,
        ),
        r.ping_interval is None <==> parsed_ping(input@) is None,
        exists|now: LocalNow| now.wf() && due_outcome(input@, now, r.due_at),
        parsed_as(input@, r),
{
    let now = local_now();
    parse_task_input_at(input, now)
}

// ======================= formatting =======================

/// `30m`, `1h`, `1h30m`: a ping interval in minutes as text.
pub open spec fn ping_interval_text(minutes: int) -> Seq<char> {
    if minutes < 60 {
        int_text(minutes) + seq!['m']
    } else if minutes % 60 > 0 {
        int_text(minutes / 60) + seq!['h'] + int_text(minutes % 60) + seq!['m']
    } else {
        int_text(minutes / 60) + seq!['h']
    }
}

fn push_ping_interval(out: &mut Vec<char>, minutes: i64)
    ensures
        final(out)@ == old(out)@ + ping_interval_text(minutes as int),
{
    let ghost start = out@;
    if minutes < 60 {
        push_int(out, minutes);
        out.push('m');
        assert(out@ == start + ping_interval_text(minutes as int));
    } else {
        let hours = minutes / 60;
        let mins = minutes % 60;
        push_int(out, hours);
        out.push('h');
        if mins > 0 {
            push_int(out, mins);
            out.push('m');
            assert(out@ == start + ping_interval_text(minutes as int));
        } else {
            assert(out@ == start + ping_interval_text(minutes as int));
        }
    }
}

/// The text of a ping interval given in minutes: minutes below an hour,
/// otherwise hours and the remaining minutes.
pub fn format_ping_interval(minutes: i64) -> (r: String)
    ensures
        r@ == ping_interval_text(minutes as int),
{
    let mut out: Vec<char> = Vec::new();
    push_ping_interval(&mut out, minutes);
    assert(out@ == ping_interval_text(minutes as int));
    string_of(&out)
}

/// `p1`, `p2`, `p3`, and `p?` for any other level.
pub open spec fn priority_label(p: u8) -> Seq<char> {
    if p == 1 {
        seq!['p', '1']
    } else if p == 2 {
        seq!['p', '2']
    } else if p == 3 {
        seq!['p', '3']
    } else {
        seq!['p', '?']
    }
}

/// The label of a priority level.
pub fn format_priority(p: u8) -> (r: &'static str)
    ensures
        r@ == priority_label(p),
{
    if p == 1 {
        proof {
            reveal_strlit("p1");
        }
        "p1"
    } else if p == 2 {
        proof {
            reveal_strlit("p2");
        }
        "p2"
    } else if p == 3 {
        proof {
            reveal_strlit("p3");
        }
        "p3"
    } else {
        proof {
            reveal_strlit("p?");
        }
        "p?"
    }
}

/// The edit text of a task: its content followed, space-separated, by the
/// due words, `ping <interval>`, `p<level>` and the recurrence, each when set.
pub open spec fn task_input_text(
    content: Seq<char>,
    due_words: Option<Seq<char>>,
    ping_interval: Option<i64>,
    priority: Option<u8>,
    recurrence: Option<Seq<char>>,
) -> Seq<char> {
    content + (match due_words {
        Some(t) => seq![' '] + t,
        None => Seq::<char>::empty(),
    }) + (match ping_interval {
        Some(i) => seq![' ', 'p', 'i', 'n', 'g', ' '] + ping_interval_text(i as int),
        None => Seq::<char>::empty(),
    }) + (match priority {
        Some(p) => seq![' ', 'p'] + decimal(p as nat),
        None => Seq::<char>::empty(),
    }) + (match recurrence {
        Some(r) => seq![' '] + r,
        None => Seq::<char>::empty(),
    })
}

/// Joins the parts of an edit text, the due words given as text.
pub fn join_task_input(
    content: &str,
    due_words: Option<&str>,
    ping_interval: Option<i64>,
    priority: Option<u8>,
    recurrence: Option<&str>,
) -> (r: String)
    ensures
        r@ == task_input_text(
            content@,
            match due_words {
                Some(t) => Some(t@),
                None => None,
            },
            ping_interval,
            priority,
            match recurrence {
                Some(t) => Some(t@),
                None => None,
            },
        ),
{
    let mut out = chars_of(content);
    let ghost a = out@;
    match due_words {
        Some(t) => {
            out.push(' ');
            let tv = chars_of(t);
            push_vec(&mut out, &tv);
        },
        None => {},
    }
    let ghost b = out@;
    match ping_interval {
        Some(i) => {
            push_all(&mut out, &[' ', 'p', 'i', 'n', 'g', ' ']);
            push_ping_interval(&mut out, i);
        },
        None => {},
    }
    let ghost c = out@;
    match priority {
        Some(p) => {
            push_all(&mut out, &[' ', 'p']);
            push_decimal(&mut out, p as u64);
        },
        None => {},
    }
    let ghost d = out@;
    match recurrence {
        Some(t) => {
            out.push(' ');
            let tv = chars_of(t);
            push_vec(&mut out, &tv);
        },
        None => {},
    }
    proof {
        let due_part = match due_words {
            Some(t) => seq![' '] + t@,
            None => Seq::<char>::empty(),
        };
        let ping_part = match ping_interval {
            Some(i) => seq![' ', 'p', 'i', 'n', 'g', ' '] + ping_interval_text(i as int),
            None => Seq::<char>::empty(),
        };
        let pri_part = match priority {
            Some(p) => seq![' ', 'p'] + decimal(p as nat),
            None => Seq::<char>::empty(),
        };
        let rec_part = match recurrence {
            Some(t) => seq![' '] + t@,
            None => Seq::<char>::empty(),
        };
        assert(b == a + due_part);
        assert(c == b + ping_part);
        assert(d == c + pri_part);
        assert(out@ == d + rec_part);
        assert(out@ == content@ + due_part + ping_part + pri_part + rec_part);
    }
    string_of(&out)
}

/// `today <time>`, `tomorrow <time>` or `<weekday> <time>`.
pub open spec fn due_words_text(
    on_today: bool,
    on_tomorrow: bool,
    weekday: Seq<char>,
    time: Seq<char>,
) -> Seq<char> {
    if on_today {
        seq!['t', 'o', 'd', 'a', 'y', ' '] + time
    } else if on_tomorrow {
        seq!['t', 'o', 'm', 'o', 'r', 'r', 'o', 'w', ' '] + time
    } else {
        weekday + seq![' '] + time
    }
}

/// The due words of a moment on local date `day`, when today is `today` and
/// tomorrow is `tomorrow`.
pub open spec fn due_words_of(day: i32, today: i32, tomorrow: Option<i32>, weekday: Seq<char>, time: Seq<char>) -> Seq<char> {
    due_words_text(day == today, tomorrow == Some(day), weekday, time)
}

/// The display text of a moment on local date `day`, when today is `today`
/// and tomorrow is `tomorrow`.
pub open spec fn due_date_of(day: i32, today: i32, tomorrow: Option<i32>, date: Seq<char>, time: Seq<char>) -> Seq<char> {
    due_date_text(day == today, tomorrow == Some(day), date, time)
}

/// The strftime pattern of a due time's clock time: `%-I%p` on the hour
/// (`5pm`), `%-I:%M%p` otherwise (`5:30pm`).
pub open spec fn clock_pattern(minute: u32) -> Seq<char> {
    if minute == 0 {
        seq!['%', '-', 'I', '%', 'p']
    } else {
        seq!['%', '-', 'I', ':', '%', 'M', '%', 'p']
    }
}

/// The pattern for the clock time of a due time whose local minute is
/// `minute`.
pub fn time_pattern(minute: u32) -> (r: &'static str)
    ensures
        r@ == clock_pattern(minute),
        known_format(r@),
{
    proof {
        reveal_strlit("%-I%p");
        reveal_strlit("%-I:%M%p");
        assert("%-I%p"@ =~= seq!['%', '-', 'I', '%', 'p']);
        assert("%-I:%M%p"@ =~= seq!['%', '-', 'I', ':', '%', 'M', '%', 'p']);
    }
    if minute == 0 {
        "%-I%p"
    } else {
        "%-I:%M%p"
    }
}

/// The due words of a moment on local date `day`, when today is `today` and
/// the date a day from now is `tomorrow` (`None` where the calendar has no
/// such date), with the lower-cased weekday name and clock time of the
/// moment.
pub fn due_words_from(day: i32, today: i32, tomorrow: Option<i32>, weekday: &str, time: &str) -> (r: String)
    ensures
        r@ == due_words_text(day == today, tomorrow == Some(day), weekday@, time@),
{
    let on_today = day == today;
    let on_tomorrow = match tomorrow {
        Some(t) => t == day,
        None => false,
    };
    let mut out: Vec<char> = Vec::new();
    if on_today {
        push_all(&mut out, &['t', 'o', 'd', 'a', 'y', ' ']);
    } else if on_tomorrow {
        push_all(&mut out, &['t', 'o', 'm', 'o', 'r', 'r', 'o', 'w', ' ']);
    } else {
        let wv = chars_of(weekday);
        push_vec(&mut out, &wv);
        out.push(' ');
    }
    let tv = chars_of(time);
    push_vec(&mut out, &tv);
    assert(out@ == due_words_text(on_today, on_tomorrow, weekday@, time@));
    string_of(&out)
}

/// The local date a day after the current moment `now`, where that moment
/// keeps a day clear of chrono's range.
fn tomorrow_of(now: LocalNow) -> (r: Option<i32>)
    requires
        now.wf(),
    ensures
        r matches Some(d) ==> utc_day(now.millis + DAY_MILLIS) - 1 <= d <= utc_day(now.millis + DAY_MILLIS) + 1,
{
    let next: i128 = now.millis as i128 + DAY_MILLIS as i128;
    if next <= MAX_LOCAL_MILLIS as i128 {
        Some(local_day_of(next as i64))
    } else {
        None
    }
}

/// The due words of a timestamp, from the local calendar: its local date
/// against today's and tomorrow's, its weekday name and its clock time.
fn reconstruct_due_text(timestamp: i64) -> (r: String)
    requires
        in_local_range(timestamp as int),
    ensures
        exists|day: i32, today: i32, tomorrow: Option<i32>, w: Seq<char>, t: Seq<char>|
            utc_day(timestamp as int) - 1 <= day <= utc_day(timestamp as int) + 1
            && r@ == #[trigger] due_words_of(day, today, tomorrow, w, t),
{
    let day = local_day_of(timestamp);
    let now = local_now();
    let tomorrow = tomorrow_of(now);
    let pattern = time_pattern(local_minute_of(timestamp));
    let time_text = to_lowercase(format_local(timestamp, pattern).as_str());
    proof {
        reveal_strlit("%A");
        assert("%A"@ =~= seq!['%', 'A']);
    }
    let weekday = to_lowercase(format_local(timestamp, "%A").as_str());
    let r = due_words_from(day, now.day, tomorrow, weekday.as_str(), time_text.as_str());
    assert(r@ == due_words_of(day, now.day, tomorrow, weekday@, time_text@));
    r
}

/// The text to edit a task with: what `parse_task_input` reads back into the
/// same content, due time, ping interval, priority and recurrence.
pub fn reconstruct_task_input(
    content: &str,
    due_at: Option<i64>,
    ping_interval: Option<i64>,
    priority: Option<u8>,
    recurrence: Option<&str>,
) -> (r: String)
    requires
        due_at matches Some(d) ==> in_local_range(d as int),
    ensures
        due_at is None ==> r@ == task_input_text(
            content@,
            None,
            ping_interval,
            priority,
            match recurrence {
                Some(t) => Some(t@),
                None => None,
            },
        ),
        due_at matches Some(ts) ==> exists|day: i32, today: i32, tomorrow: Option<i32>, w: Seq<char>, t: Seq<char>|
            utc_day(ts as int) - 1 <= day <= utc_day(ts as int) + 1 && r@ == task_input_text(
                content@,
                Some(#[trigger] due_words_of(day, today, tomorrow, w, t)),
                ping_interval,
                priority,
                match recurrence {
                    Some(t) => Some(t@),
                    None => None,
                },
            ),
{
    match due_at {
        Some(d) => {
            let words = reconstruct_due_text(d);
            join_task_input(content, Some(words.as_str()), ping_interval, priority, recurrence)
        },
        None => join_task_input(content, None, ping_interval, priority, recurrence),
    }
}

/// `Today <time>`, `Tomorrow <time>` or `<date> <time>`.
pub open spec fn due_date_text(on_today: bool, on_tomorrow: bool, date: Seq<char>, time: Seq<char>) -> Seq<char> {
    if on_today {
        seq!['T', 'o', 'd', 'a', 'y', ' '] + time
    } else if on_tomorrow {
        seq!['T', 'o', 'm', 'o', 'r', 'r', 'o', 'w', ' '] + time
    } else {
        date + seq![' '] + time
    }
}

/// The display text of a moment on local date `day`, when today is `today`
/// and the date a day from now is `tomorrow` (`None` where the calendar has
/// no such date), with the moment's date and clock time as text.
pub fn due_date_from(day: i32, today: i32, tomorrow: Option<i32>, date: &str, time: &str) -> (r: String)
    ensures
        r@ == due_date_text(day == today, tomorrow == Some(day), date@, time@),
{
    let on_today = day == today;
    let on_tomorrow = match tomorrow {
        Some(t) => t == day,
        None => false,
    };
    let mut out: Vec<char> = Vec::new();
    if on_today {
        push_all(&mut out, &['T', 'o', 'd', 'a', 'y', ' ']);
    } else if on_tomorrow {
        push_all(&mut out, &['T', 'o', 'm', 'o', 'r', 'r', 'o', 'w', ' ']);
    } else {
        let dv = chars_of(date);
        push_vec(&mut out, &dv);
        out.push(' ');
    }
    let tv = chars_of(time);
    push_vec(&mut out, &tv);
    assert(out@ == due_date_text(on_today, on_tomorrow, date@, time@));
    string_of(&out)
}

/// A due time for display, relative to today when it falls today or
/// tomorrow: the local date of `timestamp` against today's and tomorrow's,
/// with its date (`%a %b %-d`) and clock time (`%-I:%M %p`).
pub fn format_due_date(timestamp: i64) -> (r: String)
    requires
        in_local_range(timestamp as int),
    ensures
        exists|day: i32, today: i32, tomorrow: Option<i32>, d: Seq<char>, t: Seq<char>|
            utc_day(timestamp as int) - 1 <= day <= utc_day(timestamp as int) + 1
            && r@ == #[trigger] due_date_of(day, today, tomorrow, d, t),
{
    let day = local_day_of(timestamp);
    let now = local_now();
    let tomorrow = tomorrow_of(now);
    proof {
        reveal_strlit("%-I:%M %p");
        reveal_strlit("%a %b %-d");
        assert("%-I:%M %p"@ =~= seq!['%', '-', 'I', ':', '%', 'M', ' ', '%', 'p']);
        assert("%a %b %-d"@ =~= seq!['%', 'a', ' ', '%', 'b', ' ', '%', '-', 'd']);
    }
    let time_text = format_local(timestamp, "%-I:%M %p");
    let date_text = format_local(timestamp, "%a %b %-d");
    let r = due_date_from(day, now.day, tomorrow, date_text.as_str(), time_text.as_str());
    assert(r@ == due_date_of(day, now.day, tomorrow, date_text@, time_text@));
    r
}

/// Whether `timestamp` lies before the moment `now`.
pub fn overdue_at(timestamp: i64, now: i64) -> (r: bool)
    ensures
        r == (timestamp < now),
{
    timestamp < now
}

/// Whether the timestamp lies in the past, by the clock.
pub fn is_overdue(timestamp: i64) -> (r: bool)
    ensures
        exists|now: i64| in_calendar(now as int) && r == (timestamp < now),
{
    overdue_at(timestamp, now_millis())
}

// ======================= ping countdown =======================

/// Minutes as `XhYm` from an hour on, else `Ym` (at least one minute).
pub open spec fn remaining_text(remaining_ms: int) -> Seq<char> {
    let m = remaining_ms / 60000;
    if m >= 60 {
        decimal((m / 60) as nat) + seq!['h'] + decimal((m % 60) as nat) + seq!['m']
    } else {
        decimal((if m < 1 {
            1
        } else {
            m
        }) as nat) + seq!['m']
    }
}

/// Time until the next ping fires, as of `now`: `None` without an interval
/// or without anything to count from; `at due` while the due time is ahead
/// and no ping has fired; `now!` once the ping is due.
pub open spec fn countdown_text(
    last_ping_at: Option<i64>,
    ping_interval: Option<i64>,
    due_at: Option<i64>,
    now: int,
) -> Option<Seq<char>> {
    match ping_interval {
        None => None,
        Some(interval) => {
            let baseline: Option<int> = match last_ping_at {
                Some(l) => Some(l as int),
                None => match due_at {
                    Some(d) => if now >= d {
                        Some(d as int)
                    } else {
                        None
                    },
                    None => None,
                },
            };
            match baseline {
                Some(b) => {
                    let remaining = b + interval * 60000 - now;
                    if remaining <= 0 {
                        Some(seq!['n', 'o', 'w', '!'])
                    } else {
                        Some(remaining_text(remaining))
                    }
                },
                None => if last_ping_at is None && due_at is Some {
                    Some(seq!['a', 't', ' ', 'd', 'u', 'e'])
                } else {
                    None
                },
            }
        },
    }
}

/// The arithmetic of a countdown stays within `i64`.
pub open spec fn countdown_fits(last_ping_at: Option<i64>, ping_interval: Option<i64>, due_at: Option<i64>) -> bool {
    ping_interval matches Some(i) ==> {
        &&& i64::MIN <= i * 60000 <= i64::MAX
        &&& (last_ping_at matches Some(l) ==> i64::MIN <= l + i * 60000 <= i64::MAX)
        &&& (due_at matches Some(d) ==> i64::MIN <= d + i * 60000 <= i64::MAX)
    }
}

/// `ping_countdown` as of the moment `now`.
pub fn ping_countdown_at(
    last_ping_at: Option<i64>,
    ping_interval: Option<i64>,
    due_at: Option<i64>,
    now: i64,
) -> (r: Option<String>)
    requires
        countdown_fits(last_ping_at, ping_interval, due_at),
    ensures
        match r {
            Some(t) => countdown_text(last_ping_at, ping_interval, due_at, now as int) == Some(t@),
            None => countdown_text(last_ping_at, ping_interval, due_at, now as int) is None,
        },
{
    let interval = match ping_interval {
        Some(i) => i,
        None => {
            return None;
        },
    };
    let interval_ms = interval * 60000;
    let baseline = match last_ping_at {
        Some(l) => l,
        None => match due_at {
            Some(d) => {
                if now >= d {
                    d
                } else {
                    let mut t: Vec<char> = Vec::new();
                    push_all(&mut t, &['a', 't', ' ', 'd', 'u', 'e']);
                    return Some(string_of(&t));
                }
            },
            None => {
                return None;
            },
        },
    };
    let next = baseline + interval_ms;
    let remaining: i128 = next as i128 - now as i128;
    let mut out: Vec<char> = Vec::new();
    if remaining <= 0 {
        push_all(&mut out, &['n', 'o', 'w', '!']);
    } else {
        let m: i128 = remaining / 60000;
        assert(m == remaining / 60000);
        if m >= 60 {
            push_decimal(&mut out, (m / 60) as u64);
            out.push('h');
            push_decimal(&mut out, (m % 60) as u64);
            out.push('m');
        } else {
            let shown: u64 = if m < 1 {
                1
            } else {
                m as u64
            };
            push_decimal(&mut out, shown);
            out.push('m');
        }
        assert(out@ == remaining_text(remaining as int));
    }
    Some(string_of(&out))
}

/// Time remaining until the next ping fires; `None` when no countdown runs.
pub fn ping_countdown(last_ping_at: Option<i64>, ping_interval: Option<i64>, due_at: Option<i64>) -> (r: Option<String>)
    requires
        countdown_fits(last_ping_at, ping_interval, due_at),
    ensures
        exists|now: i64|
            in_calendar(now as int) && match r {
                Some(t) => countdown_text(last_ping_at, ping_interval, due_at, now as int) == Some(t@),
                None => countdown_text(last_ping_at, ping_interval, due_at, now as int) is None,
            },
{
    let now = now_millis();
    ping_countdown_at(last_ping_at, ping_interval, due_at, now)
}

// ======================= recurrence =======================

/// How far a recurrence moves a due time: a day, a week, or thirty days.
pub open spec fn recurrence_step(recurrence: Seq<char>) -> Option<int> {
    if recurrence == seq!['d', 'a', 'i', 'l', 'y'] {
        Some(DAY_MILLIS as int)
    } else if recurrence == seq!['w', 'e', 'e', 'k', 'l', 'y'] {
        Some(7 * DAY_MILLIS)
    } else if recurrence == seq!['m', 'o', 'n', 't', 'h', 'l', 'y'] {
        Some(30 * DAY_MILLIS)
    } else {
        None
    }
}

/// The length of one period of a recurrence, in milliseconds.
pub fn recurrence_step_of(recurrence: &str) -> (r: Option<i64>)
    ensures
        match r {
            Some(k) => recurrence_step(recurrence@) == Some(k as int),
            None => recurrence_step(recurrence@) is None,
        },
{
    let v = chars_of(recurrence);
    if equals_exec(&v, &['d', 'a', 'i', 'l', 'y']) {
        Some(DAY_MILLIS)
    } else if equals_exec(&v, &['w', 'e', 'e', 'k', 'l', 'y']) {
        Some(7 * DAY_MILLIS)
    } else if equals_exec(&v, &['m', 'o', 'n', 't', 'h', 'l', 'y']) {
        Some(30 * DAY_MILLIS)
    } else {
        None
    }
}

/// The due time after one more period of the recurrence, counted from the
/// current due time, or from now when there is none (then `None` where the
/// result's local time could leave chrono's range). `None` for an unknown
/// recurrence.
pub fn next_recurrence_due(current_due: Option<i64>, recurrence: &str) -> (r: Option<i64>)
    requires
        current_due matches Some(d) ==> in_calendar(d as int) && (recurrence_step(recurrence@) matches Some(
            k,
        ) ==> in_calendar(d + k)),
    ensures
        recurrence_step(recurrence@) is None ==> r is None,
        current_due matches Some(d) ==> (recurrence_step(recurrence@) matches Some(k) ==> r == Some(
            (d + k) as i64,
        )),
        current_due is None ==> (recurrence_step(recurrence@) matches Some(k) ==> exists|now: i64|
            #[trigger] in_calendar(now as int) && r == (if in_local_range(now + k) {
                Some((now + k) as i64)
            } else {
                None
            })),
{
    let step = match recurrence_step_of(recurrence) {
        Some(k) => k,
        None => {
            return None;
        },
    };
    match current_due {
        Some(d) => Some(d + step),
        None => {
            let now = now_millis();
            let t: i128 = now as i128 + step as i128;
            if t <= MAX_LOCAL_MILLIS as i128 {
                Some(t as i64)
            } else {
                None
            }
        },
    }
}

// ======================= ping interval strings =======================

/// The unit alternation anchored at the end: `(unit)$` at `q`, with whether
/// the unit is minutes.
pub open spec fn unit_to_end(t: Seq<char>, q: int) -> Option<bool> {
    let rest = t.len() - q;
    if ci_at(t, q, seq!['m']) && rest == 1 {
        Some(true)
    } else if ci_at(t, q, seq!['m', 'i', 'n']) && rest == 3 {
        Some(true)
    } else if ci_at(t, q, seq!['m', 'i', 'n', 's']) && rest == 4 {
        Some(true)
    } else if ci_at(t, q, seq!['m', 'i', 'n', 'u', 't', 'e', 's']) && rest == 7 {
        Some(true)
    } else if ci_at(t, q, seq!['m', 'i', 'n', 'u', 't', 'e']) && rest == 6 {
        Some(true)
    } else if ci_at(t, q, seq!['h']) && rest == 1 {
        Some(false)
    } else if ci_at(t, q, seq!['h', 'r']) && rest == 2 {
        Some(false)
    } else if ci_at(t, q, seq!['h', 'r', 's']) && rest == 3 {
        Some(false)
    } else if ci_at(t, q, seq!['h', 'o', 'u', 'r', 's']) && rest == 5 {
        Some(false)
    } else if ci_at(t, q, seq!['h', 'o', 'u', 'r']) && rest == 4 {
        Some(false)
    } else {
        None
    }
}

/// `^(\d+)\s*(unit)$` on the trimmed text: the amount and whether the unit
/// is minutes.
pub open spec fn ping_str_parts(s: Seq<char>) -> Option<(int, bool)> {
    let t = trim(s);
    let d = digit_end(t, 0);
    if d > 0 && unit_to_end(t, ws_end(t, d)) is Some {
        Some((digits_value(t, 0, d), unit_to_end(t, ws_end(t, d))->0))
    } else {
        None
    }
}

fn unit_to_end_exec(t: &Vec<char>, q: usize) -> (r: Option<bool>)
    requires
        q <= t.len(),
    ensures
        r == unit_to_end(t@, q as int),
{
    let rest = t.len() - q;
    if ci_at_exec(t, q, &['m']) && rest == 1 {
        Some(true)
    } else if ci_at_exec(t, q, &['m', 'i', 'n']) && rest == 3 {
        Some(true)
    } else if ci_at_exec(t, q, &['m', 'i', 'n', 's']) && rest == 4 {
        Some(true)
    } else if ci_at_exec(t, q, &['m', 'i', 'n', 'u', 't', 'e', 's']) && rest == 7 {
        Some(true)
    } else if ci_at_exec(t, q, &['m', 'i', 'n', 'u', 't', 'e']) && rest == 6 {
        Some(true)
    } else if ci_at_exec(t, q, &['h']) && rest == 1 {
        Some(false)
    } else if ci_at_exec(t, q, &['h', 'r']) && rest == 2 {
        Some(false)
    } else if ci_at_exec(t, q, &['h', 'r', 's']) && rest == 3 {
        Some(false)
    } else if ci_at_exec(t, q, &['h', 'o', 'u', 'r', 's']) && rest == 5 {
        Some(false)
    } else if ci_at_exec(t, q, &['h', 'o', 'u', 'r']) && rest == 4 {
        Some(false)
    } else {
        None
    }
}

/// The minutes a ping interval text gives: `None` when it is not an amount
/// and a unit, or the amount does not fit `i64`.
pub open spec fn ping_str_value(s: Seq<char>) -> Option<i64> {
    match ping_str_parts(s) {
        Some(p) => if p.0 <= i64::MAX {
            Some((if p.1 {
                p.0
            } else {
                p.0 * 60
            }) as i64)
        } else {
            None
        },
        None => None,
    }
}

/// Parsing the ping interval text does not overflow: an amount of hours
/// fits `i64` as minutes.
pub open spec fn ping_str_ok(s: Seq<char>) -> bool {
    ping_str_parts(s) matches Some(p) ==> (!p.1 && p.0 <= i64::MAX ==> p.0 * 60 <= i64::MAX)
}

/// Executable `ping_str_ok`.
pub fn ping_str_accepted(s: &str) -> (r: bool)
    ensures
        r == ping_str_ok(s@),
{
    let chars = chars_of(s);
    let t = trim_chars(&chars);
    let d = skip_digits(&t, 0);
    if d == 0 {
        return true;
    }
    let q = skip_ws(&t, d);
    match unit_to_end_exec(&t, q) {
        Some(true) => true,
        Some(false) => {
            proof {
                lemma_digit_end_bounds(t@, 0);
            }
            match digits_value_upto(&t, 0, d, 153722867280912930) {
                Some(_) => true,
                None => match digits_value_upto(&t, 0, d, i64::MAX as u64) {
                    Some(_) => false,
                    None => true,
                },
            }
        },
        None => true,
    }
}

/// Parses a ping interval such as `30m` or `2h` into minutes; `None` when the
/// text is not an amount and a unit, or the amount does not fit `i64`.
pub fn parse_ping_str(s: &str) -> (r: Option<i64>)
    requires
        ping_str_ok(s@),
    ensures
        r == ping_str_value(s@),
{
    let chars = chars_of(s);
    let t = trim_chars(&chars);
    let d = skip_digits(&t, 0);
    if d == 0 {
        return None;
    }
    let q = skip_ws(&t, d);
    let unit = match unit_to_end_exec(&t, q) {
        Some(u) => u,
        None => {
            return None;
        },
    };
    proof {
        lemma_digit_end_bounds(t@, 0);
    }
    match digits_value_upto(&t, 0, d, i64::MAX as u64) {
        Some(v) => {
            if unit {
                Some(v as i64)
            } else {
                Some((v as i64) * 60)
            }
        },
        None => None,
    }
}

} // verus!
