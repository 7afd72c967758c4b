//! The clock and the local calendar, read through `chrono`. What these
//! calls return depends on the moment and on the machine's time zone, so
//! their contracts state only what holds of every outcome; the verified
//! code around them takes their results as values.
use chrono::{Datelike, Local, TimeZone, Timelike, Utc};
use vstd::prelude::*;

verus! {

/// Earliest millisecond timestamp that `chrono` represents.
pub const MIN_MILLIS: i64 = -8334601315200000i64;

/// Latest millisecond timestamp that `chrono` represents.
pub const MAX_MILLIS: i64 = 8210266876799999i64;

/// Milliseconds in a day.
pub const DAY_MILLIS: i64 = 86400000i64;

/// Whether `chrono` represents the timestamp `ms`.
pub open spec fn in_calendar(ms: int) -> bool {
    MIN_MILLIS <= ms <= MAX_MILLIS
}

/// The earliest timestamp whose local time chrono represents in every time
/// zone: a day after `MIN_MILLIS` (offsets stay under a day).
pub const MIN_LOCAL_MILLIS: i64 = -8334601228800000i64;

/// The latest timestamp whose local time chrono represents in every time
/// zone: a day before `MAX_MILLIS`.
pub const MAX_LOCAL_MILLIS: i64 = 8210266790399999i64;

/// Whether the local time of `ms` is one chrono represents whatever the
/// time zone.
pub open spec fn in_local_range(ms: int) -> bool {
    MIN_LOCAL_MILLIS <= ms <= MAX_LOCAL_MILLIS
}

/// The date of `ms` in UTC, as days from the common era (day 719163 is
/// 1970-01-01).
pub open spec fn utc_day(ms: int) -> int {
    ms / 86400000 + 719163
}

/// The current moment as the local calendar shows it.
#[derive(Clone, Copy, Debug)]
pub struct LocalNow {
    /// milliseconds since the Unix epoch
    pub millis: i64,
    /// the local date, as days from the common era
    pub day: i32,
    /// the local hour, `0..24`
    pub hour: u32,
    /// the local minute, `0..60`
    pub minute: u32,
    /// the local day of the week, days from Sunday
    pub weekday: u32,
}

impl LocalNow {
    pub open spec fn wf(self) -> bool {
        &&& self.hour < 24
        &&& self.minute < 60
        &&& self.weekday < 7
        &&& in_calendar(self.millis as int)
    }
}

/// `chrono::Local::now`, taken apart with `timestamp_millis`,
/// `date_naive().num_days_from_ce()`, `hour`, `minute` and
/// `weekday().num_days_from_sunday()`. The contract states the ranges that
/// chrono documents for these parts; the moment itself is not stated.
#[verifier::external_body]
pub(crate) fn local_now() -> (r: LocalNow)
    ensures
        r.wf(),
{
    let n = Local::now();
    LocalNow {
        millis: n.timestamp_millis(),
        day: n.date_naive().num_days_from_ce(),
        hour: n.hour(),
        minute: n.minute(),
        weekday: n.weekday().num_days_from_sunday(),
    }
}

/// `chrono::Utc::now().timestamp_millis()`: the current time. Only its
/// range is stated.
#[verifier::external_body]
pub(crate) fn now_millis() -> (r: i64)
    ensures
        in_calendar(r as int),
{
    Utc::now().timestamp_millis()
}

/// `chrono::Local.timestamp_millis_opt(ms)` (a single moment for every
/// timestamp chrono represents), then `date_naive().num_days_from_ce()`:
/// the local date of `ms`. `date_naive` adds the zone's offset to the UTC
/// time and panics where the sum leaves chrono's range, so `ms` keeps a day
/// clear of its ends. The offset stays under a day (`FixedOffset`), so the
/// local date is the UTC date or a neighbour of it; which one depends on the
/// time zone and is left unsaid.
#[verifier::external_body]
pub(crate) fn local_day_of(ms: i64) -> (r: i32)
    requires
        in_local_range(ms as int),
    ensures
        utc_day(ms as int) - 1 <= r <= utc_day(ms as int) + 1,
{
    Local.timestamp_millis_opt(ms).unwrap().date_naive().num_days_from_ce()
}

/// The timestamp of the date `day` (days from the common era) at
/// `hour:minute:00` read as UTC: day 719163 is 1970-01-01.
pub open spec fn naive_millis(day: i32, hour: u32, minute: u32) -> int {
    (day - 719163) * 86400000 + hour * 3600000 + minute * 60000
}

/// The moment of a local time `naive` (read as UTC) at the UTC offset of
/// `off` seconds.
pub open spec fn at_offset(naive: int, off: int) -> int {
    naive - off * 1000
}

/// `chrono::Local.from_local_datetime` of the local date `day` (days from the
/// common era) at `hour:minute:00`, as a millisecond timestamp. `None` when
/// the date is out of range, the time is invalid, or the local time does not
/// exist or is ambiguous. The time zone decides the offset; the contract
/// states that the result is that local time read at the offset, which
/// `FixedOffset` keeps under a day (`from_local_datetime` subtracts it from
/// the local time with `checked_sub_offset`, and `timestamp_millis` counts
/// from day 719163), and that it is a moment chrono represents (the
/// subtraction gives `None` where the moment in UTC would leave chrono's
/// range). Which offset applies is left unsaid.
#[verifier::external_body]
pub(crate) fn local_millis_at(day: i32, hour: u32, minute: u32) -> (r: Option<i64>)
    ensures
        r matches Some(ms) ==> in_calendar(ms as int) && exists|off: int|
            -86400 < off < 86400 && ms == #[trigger] at_offset(naive_millis(day, hour, minute), off),
{
    let date = chrono::NaiveDate::from_num_days_from_ce_opt(day)?;
    let dt = date.and_hms_opt(hour, minute, 0)?;
    Local.from_local_datetime(&dt).single().map(|d| d.timestamp_millis())
}

/// The strftime patterns the library formats times with: `%-I%p`,
/// `%-I:%M%p`, `%A`, `%-I:%M %p` and `%a %b %-d`. Each is a valid pattern,
/// so formatting with it cannot fail.
pub open spec fn known_format(p: Seq<char>) -> bool {
    ||| p == seq!['%', '-', 'I', '%', 'p']
    ||| p == seq!['%', '-', 'I', ':', '%', 'M', '%', 'p']
    ||| p == seq!['%', 'A']
    ||| p == seq!['%', '-', 'I', ':', '%', 'M', ' ', '%', 'p']
    ||| p == seq!['%', 'a', ' ', '%', 'b', ' ', '%', '-', 'd']
}

/// `chrono::DateTime::format` of the local time of `ms` with the pattern
/// `pattern`, one of the valid patterns of `known_format` (an invalid one
/// would make `to_string` panic). Formatting reads the local time, which
/// panics where it leaves chrono's range, so `ms` keeps a day clear of its
/// ends. The text depends on the time zone; the contract states nothing of
/// it.
#[verifier::external_body]
pub(crate) fn format_local(ms: i64, pattern: &str) -> (r: String)
    requires
        in_local_range(ms as int),
        known_format(pattern@),
{
    Local.timestamp_millis_opt(ms).unwrap().format(pattern).to_string()
}

/// `chrono::Local.timestamp_millis_opt(ms)` then `Timelike::minute`: the
/// local minute of `ms` (read from the local time, so `ms` keeps a day clear
/// of chrono's range as for `local_day_of`).
#[verifier::external_body]
pub(crate) fn local_minute_of(ms: i64) -> (r: u32)
    requires
        in_local_range(ms as int),
    ensures
        r < 60,
{
    Local.timestamp_millis_opt(ms).unwrap().minute()
}

/// The lower-cased text of `s` by `str::to_lowercase`.
pub uninterp spec fn lowercase(s: Seq<char>) -> Seq<char>;

/// `str::to_lowercase`: the contract names the result.
#[verifier::external_body]
pub(crate) fn to_lowercase(s: &str) -> (r: String)
    ensures
        r@ == lowercase(s@),
{
    s.to_lowercase()
}

} // verus!
