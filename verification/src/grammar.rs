//! The input language of task entries: priorities (`p1`), recurrences
//! (`daily`), due dates (`tomorrow 5pm`, `in 2h`, `friday`, ...) and ping
//! intervals (`ping 30m`). Each recogniser is stated as a spec function that
//! gives the regex semantics of the pattern (case-insensitive, leftmost-first,
//! greedy with backtracking), and is computed by an executable function over
//! `Vec<char>` that is proved equal to it.
//!
//! Digits are ASCII digits. `\s` is Unicode `White_Space` and `\b` is the
//! Unicode word boundary of the `regex` crate.
use vstd::prelude::*;

use crate::text::{
    boundary, boundary_exec, ci_at, ci_at_exec, ci_eq, ci_eq_char, digit_end, digit_val,
    digits_value, digits_value_upto, is_digit, is_digit_char, is_ws, is_ws_char,
    lemma_digit_end_bounds, lemma_ws_end_bounds, skip_digits, skip_ws, ws_end,
};

verus! {

/// What a due-date expression captured, before it is turned into a time.
#[derive(Clone, Copy, Debug)]
pub enum TimeToken {
    /// `tomorrow H[:MM][am|pm]`
    TomorrowAt { hour: u32, minute: Option<u32>, pm: Option<bool> },
    /// `tomorrow`
    Tomorrow,
    /// `today H[:MM][am|pm]`
    TodayAt { hour: u32, minute: Option<u32>, pm: Option<bool> },
    /// a day name followed by `H[:MM][am|pm]`; `day` counts from Sunday
    DayAt { day: u32, hour: u32, minute: Option<u32>, pm: Option<bool> },
    /// `[at ]H[:MM]am|pm`
    At { hour: u32, minute: Option<u32>, is_pm: bool },
    /// `in N m|min|...|h|hr|...` (`minutes` tells the unit)
    In { amount: u64, minutes: bool },
    /// `next week`
    NextWeek,
    /// a day name; `day` counts from Sunday (`0`) to Saturday (`6`)
    Day { day: u32 },
}

/// A recognised piece of the input.
#[derive(Clone, Copy, Debug)]
pub enum Token {
    Priority(u8),
    /// `0`, `1`, `2` for daily, weekly, monthly
    Recurrence(u8),
    Time(TimeToken),
    Ping { amount: u64, minutes: bool },
}

pub open spec fn clamp_u64(v: int) -> u64 {
    if v <= u64::MAX {
        v as u64
    } else {
        u64::MAX
    }
}

// ---------- `(am|pm)`, `\s*`, `\b` ----------

/// `(am|pm)` at `q`: `Some(true)` for pm.
pub open spec fn ampm_at(s: Seq<char>, q: int) -> Option<bool> {
    if ci_at(s, q, seq!['a', 'm']) {
        Some(false)
    } else if ci_at(s, q, seq!['p', 'm']) {
        Some(true)
    } else {
        None
    }
}

/// `\s*(am|pm)?\b` (or `\s*(am|pm)\b` when `required`) after `p`, trying
/// `w` whitespace characters first and then fewer.
pub open spec fn period_try(s: Seq<char>, p: int, w: int, required: bool) -> Option<(int, Option<bool>)>
    decreases w,
{
    let r = p + w;
    if ampm_at(s, r) is Some && boundary(s, r + 2) {
        Some((r + 2, Some(ampm_at(s, r)->0)))
    } else if !required && boundary(s, r) {
        Some((r, None))
    } else if w <= 0 {
        None
    } else {
        period_try(s, p, w - 1, required)
    }
}

pub open spec fn period_tail(s: Seq<char>, p: int, required: bool) -> Option<(int, Option<bool>)> {
    period_try(s, p, ws_end(s, p) - p, required)
}

/// `(?::(\d{2}))?` followed by the period tail.
pub open spec fn colon_tail(s: Seq<char>, p: int, required: bool) -> Option<(int, Option<int>, Option<bool>)> {
    let with_minutes = p + 2 < s.len() && s[p] == ':' && is_digit(s[p + 1]) && is_digit(s[p + 2]);
    if with_minutes && period_tail(s, p + 3, required) is Some {
        let t = period_tail(s, p + 3, required)->0;
        Some((t.0, Some(digits_value(s, p + 1, p + 3)), t.1))
    } else if period_tail(s, p, required) is Some {
        let t = period_tail(s, p, required)->0;
        Some((t.0, None, t.1))
    } else {
        None
    }
}

/// `(\d{1,2})` followed by the colon tail: end, hour digits, minutes, period.
pub open spec fn hour_tail(s: Seq<char>, k: int, required: bool) -> Option<(int, int, Option<int>, Option<bool>)> {
    if 0 <= k && k + 1 < s.len() && is_digit(s[k]) && is_digit(s[k + 1]) && colon_tail(
        s,
        k + 2,
        required,
    ) is Some {
        let t = colon_tail(s, k + 2, required)->0;
        Some((t.0, digits_value(s, k, k + 2), t.1, t.2))
    } else if 0 <= k && k < s.len() && is_digit(s[k]) && colon_tail(s, k + 1, required) is Some {
        let t = colon_tail(s, k + 1, required)->0;
        Some((t.0, digit_val(s[k]), t.1, t.2))
    } else {
        None
    }
}

/// The unit alternation `(m|min|mins|minutes?|h|hr|hrs|hours?)\b` at `q`:
/// end and whether the unit is minutes.
pub open spec fn unit_at(s: Seq<char>, q: int) -> Option<(int, bool)> {
    if ci_at(s, q, seq!['m']) && boundary(s, q + 1) {
        Some((q + 1, true))
    } else if ci_at(s, q, seq!['m', 'i', 'n']) && boundary(s, q + 3) {
        Some((q + 3, true))
    } else if ci_at(s, q, seq!['m', 'i', 'n', 's']) && boundary(s, q + 4) {
        Some((q + 4, true))
    } else if ci_at(s, q, seq!['m', 'i', 'n', 'u', 't', 'e', 's']) && boundary(s, q + 7) {
        Some((q + 7, true))
    } else if ci_at(s, q, seq!['m', 'i', 'n', 'u', 't', 'e']) && boundary(s, q + 6) {
        Some((q + 6, true))
    } else if ci_at(s, q, seq!['h']) && boundary(s, q + 1) {
        Some((q + 1, false))
    } else if ci_at(s, q, seq!['h', 'r']) && boundary(s, q + 2) {
        Some((q + 2, false))
    } else if ci_at(s, q, seq!['h', 'r', 's']) && boundary(s, q + 3) {
        Some((q + 3, false))
    } else if ci_at(s, q, seq!['h', 'o', 'u', 'r', 's']) && boundary(s, q + 5) {
        Some((q + 5, false))
    } else if ci_at(s, q, seq!['h', 'o', 'u', 'r']) && boundary(s, q + 4) {
        Some((q + 4, false))
    } else {
        None
    }
}

/// `(\d+)\s*(unit)\b` at `k`: end, amount (clamped to `u64`), minutes.
/// Fewer digits or fewer spaces than the maximal runs leave a digit or a
/// space where a unit letter is needed, so only the maximal runs can match.
pub open spec fn amount_unit(s: Seq<char>, k: int) -> Option<(int, u64, bool)> {
    let d = digit_end(s, k);
    if d > k && unit_at(s, ws_end(s, d)) is Some {
        let u = unit_at(s, ws_end(s, d))->0;
        Some((u.0, clamp_u64(digits_value(s, k, d)), u.1))
    } else {
        None
    }
}

/// `\bKW\s+` at `i`: the position after the whitespace run.
pub open spec fn word_then_ws(s: Seq<char>, i: int, kw: Seq<char>) -> Option<int> {
    if boundary(s, i) && ci_at(s, i, kw) && i + kw.len() < s.len() && is_ws(s[i + kw.len()]) {
        Some(ws_end(s, i + kw.len()))
    } else {
        None
    }
}

/// `\bKW\b` at `i`.
pub open spec fn whole_word(s: Seq<char>, i: int, kw: Seq<char>) -> bool {
    boundary(s, i) && ci_at(s, i, kw) && boundary(s, i + kw.len())
}

pub open spec fn kw_tomorrow() -> Seq<char> {
    seq!['t', 'o', 'm', 'o', 'r', 'r', 'o', 'w']
}

pub open spec fn kw_today() -> Seq<char> {
    seq!['t', 'o', 'd', 'a', 'y']
}

pub open spec fn day_name(n: int) -> Seq<char> {
    if n == 0 {
        seq!['m', 'o', 'n', 'd', 'a', 'y']
    } else if n == 1 {
        seq!['t', 'u', 'e', 's', 'd', 'a', 'y']
    } else if n == 2 {
        seq!['w', 'e', 'd', 'n', 'e', 's', 'd', 'a', 'y']
    } else if n == 3 {
        seq!['t', 'h', 'u', 'r', 's', 'd', 'a', 'y']
    } else if n == 4 {
        seq!['f', 'r', 'i', 'd', 'a', 'y']
    } else if n == 5 {
        seq!['s', 'a', 't', 'u', 'r', 'd', 'a', 'y']
    } else {
        seq!['s', 'u', 'n', 'd', 'a', 'y']
    }
}

/// The first of the day names `n, n+1, ..., 6` that stands as a whole word at `i`.
pub open spec fn day_from(s: Seq<char>, i: int, n: int) -> Option<int>
    decreases 7 - n,
{
    if n >= 7 || n < 0 {
        None
    } else if ci_at(s, i, day_name(n)) && boundary(s, i + day_name(n).len()) {
        Some(n)
    } else {
        day_from(s, i, n + 1)
    }
}

/// `\b(monday|tuesday|wednesday|thursday|friday|saturday|sunday)\b` at `i`.
pub open spec fn day_match(s: Seq<char>, i: int) -> Option<(int, Token)> {
    if boundary(s, i) && day_from(s, i, 0) is Some {
        let n = day_from(s, i, 0)->0;
        Some((i + day_name(n).len(), Token::Time(TimeToken::Day { day: day_index_from_sunday(n) })))
    } else {
        None
    }
}

/// Days from Sunday of the `n`-th day name (Monday first).
pub open spec fn day_index_from_sunday(n: int) -> u32 {
    if n == 6 {
        0
    } else {
        (n + 1) as u32
    }
}

// ---------- the patterns ----------

/// `\b(monday|...|sunday)\s+(\d{1,2})(?::(\d{2}))?\s*(am|pm)?\b` at `i`.
pub open spec fn day_at_match(s: Seq<char>, i: int) -> Option<(int, Token)> {
    if boundary(s, i) && day_from(s, i, 0) is Some {
        let n = day_from(s, i, 0)->0;
        let e = i + day_name(n).len();
        if 0 <= e < s.len() && is_ws(s[e]) && hour_tail(s, ws_end(s, e), false) is Some {
            let t = hour_tail(s, ws_end(s, e), false)->0;
            Some(
                (
                    t.0,
                    Token::Time(
                        TimeToken::DayAt {
                            day: day_index_from_sunday(n),
                            hour: t.1 as u32,
                            minute: if t.2 is Some {
                                Some((t.2->0) as u32)
                            } else {
                                None
                            },
                            pm: t.3,
                        },
                    ),
                ),
            )
        } else {
            None
        }
    } else {
        None
    }
}

/// Pattern ids: `0` priority, `1` recurrence, `2..=8` and `11` due dates
/// (tried in the order of `time_id`), `9..=10` ping intervals.
pub open spec fn pat(id: int, s: Seq<char>, i: int) -> Option<(int, Token)> {
    if id == 0 {
        // \bp([1-3])\b
        if boundary(s, i) && 0 <= i && i + 1 < s.len() && ci_eq(s[i], 'p') && 49 <= (s[i
            + 1] as u32) && (s[i + 1] as u32) <= 51 && boundary(s, i + 2) {
            Some((i + 2, Token::Priority(((s[i + 1] as u32) - 48) as u8)))
        } else {
            None
        }
    } else if id == 1 {
        // \b(daily|weekly|monthly)\b
        if whole_word(s, i, seq!['d', 'a', 'i', 'l', 'y']) {
            Some((i + 5, Token::Recurrence(0)))
        } else if whole_word(s, i, seq!['w', 'e', 'e', 'k', 'l', 'y']) {
            Some((i + 6, Token::Recurrence(1)))
        } else if whole_word(s, i, seq!['m', 'o', 'n', 't', 'h', 'l', 'y']) {
            Some((i + 7, Token::Recurrence(2)))
        } else {
            None
        }
    } else if id == 2 {
        // \btomorrow\s+(\d{1,2})(?::(\d{2}))?\s*(am|pm)?\b
        if word_then_ws(s, i, kw_tomorrow()) is Some && hour_tail(
            s,
            word_then_ws(s, i, kw_tomorrow())->0,
            false,
        ) is Some {
            let t = hour_tail(s, word_then_ws(s, i, kw_tomorrow())->0, false)->0;
            Some(
                (
                    t.0,
                    Token::Time(
                        TimeToken::TomorrowAt {
                            hour: t.1 as u32,
                            minute: if t.2 is Some {
                                Some((t.2->0) as u32)
                            } else {
                                None
                            },
                            pm: t.3,
                        },
                    ),
                ),
            )
        } else {
            None
        }
    } else if id == 3 {
        // \btomorrow\b
        if whole_word(s, i, kw_tomorrow()) {
            Some((i + 8, Token::Time(TimeToken::Tomorrow)))
        } else {
            None
        }
    } else if id == 4 {
        // \btoday\s+(\d{1,2})(?::(\d{2}))?\s*(am|pm)?\b
        if word_then_ws(s, i, kw_today()) is Some && hour_tail(
            s,
            word_then_ws(s, i, kw_today())->0,
            false,
        ) is Some {
            let t = hour_tail(s, word_then_ws(s, i, kw_today())->0, false)->0;
            Some(
                (
                    t.0,
                    Token::Time(
                        TimeToken::TodayAt {
                            hour: t.1 as u32,
                            minute: if t.2 is Some {
                                Some((t.2->0) as u32)
                            } else {
                                None
                            },
                            pm: t.3,
                        },
                    ),
                ),
            )
        } else {
            None
        }
    } else if id == 5 {
        // \b(?:at\s+)?(\d{1,2})(?::(\d{2}))?\s*(am|pm)\b
        let at_path = if word_then_ws(s, i, seq!['a', 't']) is Some {
            hour_tail(s, word_then_ws(s, i, seq!['a', 't'])->0, true)
        } else {
            None
        };
        let t = if at_path is Some {
            at_path
        } else if boundary(s, i) {
            hour_tail(s, i, true)
        } else {
            None
        };
        if t is Some {
            let u = t->0;
            Some(
                (
                    u.0,
                    Token::Time(
                        TimeToken::At {
                            hour: u.1 as u32,
                            minute: if u.2 is Some {
                                Some((u.2->0) as u32)
                            } else {
                                None
                            },
                            is_pm: u.3 == Some(true),
                        },
                    ),
                ),
            )
        } else {
            None
        }
    } else if id == 6 {
        // \bin\s+(\d+)\s*(unit)\b
        if word_then_ws(s, i, seq!['i', 'n']) is Some && amount_unit(
            s,
            word_then_ws(s, i, seq!['i', 'n'])->0,
        ) is Some {
            let a = amount_unit(s, word_then_ws(s, i, seq!['i', 'n'])->0)->0;
            Some((a.0, Token::Time(TimeToken::In { amount: a.1, minutes: a.2 })))
        } else {
            None
        }
    } else if id == 7 {
        // \bnext\s+week\b
        if word_then_ws(s, i, seq!['n', 'e', 'x', 't']) is Some && ci_at(
            s,
            word_then_ws(s, i, seq!['n', 'e', 'x', 't'])->0,
            seq!['w', 'e', 'e', 'k'],
        ) && boundary(s, word_then_ws(s, i, seq!['n', 'e', 'x', 't'])->0 + 4) {
            Some((word_then_ws(s, i, seq!['n', 'e', 'x', 't'])->0 + 4, Token::Time(TimeToken::NextWeek)))
        } else {
            None
        }
    } else if id == 8 {
        day_match(s, i)
    } else if id == 9 {
        // \bping\s+(?:every\s+)?(\d+)\s*(unit)\b
        if word_then_ws(s, i, seq!['p', 'i', 'n', 'g']) is Some {
            let k = word_then_ws(s, i, seq!['p', 'i', 'n', 'g'])->0;
            let every = if ci_at(s, k, seq!['e', 'v', 'e', 'r', 'y']) && k + 5 < s.len() && is_ws(
                s[k + 5],
            ) {
                amount_unit(s, ws_end(s, k + 5))
            } else {
                None
            };
            let a = if every is Some {
                every
            } else {
                amount_unit(s, k)
            };
            if a is Some {
                let m = a->0;
                Some((m.0, Token::Ping { amount: m.1, minutes: m.2 }))
            } else {
                None
            }
        } else {
            None
        }
    } else if id == 11 {
        day_at_match(s, i)
    } else if id == 10 {
        // \bevery\s+(\d+)\s*(unit)\b
        if word_then_ws(s, i, seq!['e', 'v', 'e', 'r', 'y']) is Some && amount_unit(
            s,
            word_then_ws(s, i, seq!['e', 'v', 'e', 'r', 'y'])->0,
        ) is Some {
            let a = amount_unit(s, word_then_ws(s, i, seq!['e', 'v', 'e', 'r', 'y'])->0)->0;
            Some((a.0, Token::Ping { amount: a.1, minutes: a.2 }))
        } else {
            None
        }
    } else {
        None
    }
}

/// The leftmost match of pattern `id` at or after position `i`: start, end, token.
pub open spec fn first_from(id: int, s: Seq<char>, i: int) -> Option<(int, int, Token)>
    decreases s.len() + 1 - i,
{
    if i < 0 || i > s.len() {
        None
    } else if pat(id, s, i) is Some {
        let m = pat(id, s, i)->0;
        Some((i, m.0, m.1))
    } else {
        first_from(id, s, i + 1)
    }
}

/// The leftmost match of pattern `id` in `s`.
pub open spec fn find(id: int, s: Seq<char>) -> Option<(int, int, Token)> {
    first_from(id, s, 0)
}

/// Matches of `pat` stay inside the text.
pub open spec fn match_in_bounds(s: Seq<char>, i: int, r: Option<(int, Token)>) -> bool {
    r matches Some(m) ==> i <= m.0 <= s.len()
}

// ======================= executable recognisers =======================

pub open spec fn same_match<T>(r: Option<(usize, T)>, q: Option<(int, T)>) -> bool {
    match r {
        Some(m) => q == Some((m.0 as int, m.1)),
        None => q is None,
    }
}

fn ampm_exec(s: &Vec<char>, q: usize) -> (r: Option<bool>)
    ensures
        r == ampm_at(s@, q as int),
{
    if ci_at_exec(s, q, &['a', 'm']) {
        Some(false)
    } else if ci_at_exec(s, q, &['p', 'm']) {
        Some(true)
    } else {
        None
    }
}

proof fn lemma_ci_at_len(s: Seq<char>, q: int, kw: Seq<char>)
    requires
        ci_at(s, q, kw),
    ensures
        q + kw.len() <= s.len(),
{
}

fn period_tail_exec(s: &Vec<char>, p: usize, required: bool) -> (r: Option<(usize, Option<bool>)>)
    requires
        p <= s.len(),
    ensures
        same_match(r, period_tail(s@, p as int, required)),
        r matches Some(m) ==> p <= m.0 <= s.len(),
{
    let q = skip_ws(s, p);
    let mut w = q - p;
    loop
        invariant
            p + w <= s.len(),
            p <= s.len(),
            period_tail(s@, p as int, required) == period_try(s@, p as int, w as int, required),
        decreases w,
    {
        let r = p + w;
        let a = ampm_exec(s, r);
        if let Some(pm) = a {
            proof {
                if pm {
                    lemma_ci_at_len(s@, r as int, seq!['p', 'm']);
                } else {
                    lemma_ci_at_len(s@, r as int, seq!['a', 'm']);
                }
            }
            if boundary_exec(s, r + 2) {
                return Some((r + 2, Some(pm)));
            }
        }
        if !required && boundary_exec(s, r) {
            return Some((r, None));
        }
        if w == 0 {
            return None;
        }
        w -= 1;
    }
}

fn colon_tail_exec(s: &Vec<char>, p: usize, required: bool) -> (r: Option<(usize, Option<u32>, Option<bool>)>)
    requires
        p <= s.len(),
    ensures
        r matches Some(m) ==> colon_tail(s@, p as int, required) == Some(
            (m.0 as int, if m.1 is Some { Some(m.1->0 as int) } else { None }, m.2),
        ) && p <= m.0 <= s.len() && (m.1 matches Some(v) ==> v <= 99),
        r is None ==> colon_tail(s@, p as int, required) is None,
{
    if p < s.len() && s.len() - p > 2 && s[p] == ':' && is_digit_char(s[p + 1]) && is_digit_char(
        s[p + 2],
    ) {
        let t = period_tail_exec(s, p + 3, required);
        if let Some(m) = t {
            let c1 = s[p + 1];
            let c2 = s[p + 2];
            assert(is_digit(c1) && is_digit(c2));
            let v = (c1 as u32 - 48) * 10 + (c2 as u32 - 48);
            assert(digits_value(s@, p + 1, p + 3) == v) by {
                assert(digits_value(s@, p + 1, p + 1) == 0);
                assert(digits_value(s@, p + 1, p + 2) == digit_val(s@[p + 1]));
            }
            return Some((m.0, Some(v), m.1));
        }
    }
    let t = period_tail_exec(s, p, required);
    match t {
        Some(m) => Some((m.0, None, m.1)),
        None => None,
    }
}

fn hour_tail_exec(s: &Vec<char>, k: usize, required: bool) -> (r: Option<(usize, u32, Option<u32>, Option<bool>)>)
    requires
        k <= s.len(),
    ensures
        r matches Some(m) ==> hour_tail(s@, k as int, required) == Some(
            (
                m.0 as int,
                m.1 as int,
                if m.2 is Some { Some(m.2->0 as int) } else { None },
                m.3,
            ),
        ) && k <= m.0 <= s.len() && m.1 <= 99 && (m.2 matches Some(v) ==> v <= 99),
        r is None ==> hour_tail(s@, k as int, required) is None,
{
    if k < s.len() && s.len() - k > 1 && is_digit_char(s[k]) && is_digit_char(s[k + 1]) {
        let t = colon_tail_exec(s, k + 2, required);
        if let Some(m) = t {
            let c0 = s[k];
            let c1 = s[k + 1];
            assert(is_digit(c0) && is_digit(c1));
            let v = (c0 as u32 - 48) * 10 + (c1 as u32 - 48);
            assert(digits_value(s@, k as int, k + 2) == v) by {
                assert(digits_value(s@, k as int, k as int) == 0);
                assert(digits_value(s@, k as int, k + 1) == digit_val(s@[k as int]));
            }
            return Some((m.0, v, m.1, m.2));
        }
    }
    if k < s.len() && is_digit_char(s[k]) {
        let t = colon_tail_exec(s, k + 1, required);
        if let Some(m) = t {
            let c0 = s[k];
            assert(is_digit(c0));
            let v = c0 as u32 - 48;
            return Some((m.0, v, m.1, m.2));
        }
    }
    None
}

fn unit_exec(s: &Vec<char>, q: usize) -> (r: Option<(usize, bool)>)
    requires
        q <= s.len(),
    ensures
        same_match(r, unit_at(s@, q as int)),
        r matches Some(m) ==> q <= m.0 <= s.len(),
{
    proof {
        assert forall|kw: Seq<char>| ci_at(s@, q as int, kw) implies q + kw.len() <= s.len() by {}
    }
    if ci_at_exec(s, q, &['m']) && boundary_exec(s, q + 1) {
        Some((q + 1, true))
    } else if ci_at_exec(s, q, &['m', 'i', 'n']) && boundary_exec(s, q + 3) {
        Some((q + 3, true))
    } else if ci_at_exec(s, q, &['m', 'i', 'n', 's']) && boundary_exec(s, q + 4) {
        Some((q + 4, true))
    } else if ci_at_exec(s, q, &['m', 'i', 'n', 'u', 't', 'e', 's']) && boundary_exec(s, q + 7) {
        Some((q + 7, true))
    } else if ci_at_exec(s, q, &['m', 'i', 'n', 'u', 't', 'e']) && boundary_exec(s, q + 6) {
        Some((q + 6, true))
    } else if ci_at_exec(s, q, &['h']) && boundary_exec(s, q + 1) {
        Some((q + 1, false))
    } else if ci_at_exec(s, q, &['h', 'r']) && boundary_exec(s, q + 2) {
        Some((q + 2, false))
    } else if ci_at_exec(s, q, &['h', 'r', 's']) && boundary_exec(s, q + 3) {
        Some((q + 3, false))
    } else if ci_at_exec(s, q, &['h', 'o', 'u', 'r', 's']) && boundary_exec(s, q + 5) {
        Some((q + 5, false))
    } else if ci_at_exec(s, q, &['h', 'o', 'u', 'r']) && boundary_exec(s, q + 4) {
        Some((q + 4, false))
    } else {
        None
    }
}

fn amount_unit_exec(s: &Vec<char>, k: usize) -> (r: Option<(usize, u64, bool)>)
    requires
        k <= s.len(),
    ensures
        r matches Some(m) ==> amount_unit(s@, k as int) == Some((m.0 as int, m.1, m.2)) && k <= m.0
            <= s.len(),
        r is None ==> amount_unit(s@, k as int) is None,
{
    let d = skip_digits(s, k);
    if d == k {
        return None;
    }
    let q = skip_ws(s, d);
    match unit_exec(s, q) {
        Some(u) => {
            proof {
                lemma_digit_end_bounds(s@, k as int);
            }
            let v = digits_value_upto(s, k, d, u64::MAX);
            let amount = match v {
                Some(x) => x,
                None => u64::MAX,
            };
            Some((u.0, amount, u.1))
        },
        None => None,
    }
}

fn word_then_ws_exec(s: &Vec<char>, i: usize, kw: &[char]) -> (r: Option<usize>)
    requires
        i <= s.len(),
    ensures
        r matches Some(k) ==> word_then_ws(s@, i as int, kw@) == Some(k as int) && i <= k <= s.len(),
        r is None ==> word_then_ws(s@, i as int, kw@) is None,
{
    if boundary_exec(s, i) && ci_at_exec(s, i, kw) {
        assert(i + kw@.len() <= s@.len());
        let e = i + kw.len();
        if e < s.len() && is_ws_char(s[e]) {
            let k = skip_ws(s, e);
            return Some(k);
        }
    }
    None
}

fn whole_word_exec(s: &Vec<char>, i: usize, kw: &[char]) -> (b: bool)
    requires
        i <= s.len(),
    ensures
        b == whole_word(s@, i as int, kw@),
        b ==> i + kw.len() <= s.len(),
{
    boundary_exec(s, i) && ci_at_exec(s, i, kw) && boundary_exec(s, i + kw.len())
}

fn day_exec(s: &Vec<char>, i: usize) -> (r: Option<u32>)
    requires
        i <= s.len(),
    ensures
        r matches Some(n) ==> day_from(s@, i as int, 0) == Some(n as int) && n < 7 && i + day_name(
            n as int,
        ).len() <= s.len(),
        r is None ==> day_from(s@, i as int, 0) is None,
{
    let names: [&[char]; 7] = [
        &['m', 'o', 'n', 'd', 'a', 'y'],
        &['t', 'u', 'e', 's', 'd', 'a', 'y'],
        &['w', 'e', 'd', 'n', 'e', 's', 'd', 'a', 'y'],
        &['t', 'h', 'u', 'r', 's', 'd', 'a', 'y'],
        &['f', 'r', 'i', 'd', 'a', 'y'],
        &['s', 'a', 't', 'u', 'r', 'd', 'a', 'y'],
        &['s', 'u', 'n', 'd', 'a', 'y'],
    ];
    assert(forall|n: int| 0 <= n < 7 ==> (#[trigger] names@[n])@ == day_name(n));
    let mut n: usize = 0;
    while n < 7
        invariant
            n <= 7,
            i <= s.len(),
            forall|m: int| 0 <= m < 7 ==> (#[trigger] names@[m])@ == day_name(m),
            day_from(s@, i as int, 0) == day_from(s@, i as int, n as int),
        decreases 7 - n,
    {
        let name = names[n];
        if ci_at_exec(s, i, name) && boundary_exec(s, i + name.len()) {
            return Some(n as u32);
        }
        n += 1;
    }
    None
}

fn token_time(t: (usize, u32, Option<u32>, Option<bool>), which: u8) -> (r: TimeToken)
    requires
        which <= 2,
    ensures
        which == 0 ==> r == (TimeToken::TomorrowAt { hour: t.1, minute: t.2, pm: t.3 }),
        which == 1 ==> r == (TimeToken::TodayAt { hour: t.1, minute: t.2, pm: t.3 }),
        which == 2 ==> r == (TimeToken::At { hour: t.1, minute: t.2, is_pm: t.3 == Some(true) }),
{
    if which == 0 {
        TimeToken::TomorrowAt { hour: t.1, minute: t.2, pm: t.3 }
    } else if which == 1 {
        TimeToken::TodayAt { hour: t.1, minute: t.2, pm: t.3 }
    } else {
        TimeToken::At { hour: t.1, minute: t.2, is_pm: t.3 == Some(true) }
    }
}

fn pat_priority_exec(s: &Vec<char>, i: usize) -> (r: Option<(usize, Token)>)
    requires
        i <= s.len(),
    ensures
        same_match(r, pat(0, s@, i as int)),
        r matches Some(m) ==> i <= m.0 <= s.len(),
{
    if boundary_exec(s, i) && i < s.len() && s.len() - i > 1 && ci_eq_char(s[i], 'p') {
        let d = s[i + 1] as u32;
        if 49 <= d && d <= 51 && boundary_exec(s, i + 2) {
            return Some((i + 2, Token::Priority((d - 48) as u8)));
        }
    }
    None
}

#[verifier::spinoff_prover]
#[verifier::rlimit(40)]
fn pat_recurrence_exec(s: &Vec<char>, i: usize) -> (r: Option<(usize, Token)>)
    requires
        i <= s.len(),
    ensures
        same_match(r, pat(1, s@, i as int)),
        r matches Some(m) ==> i <= m.0 <= s.len(),
{
    if whole_word_exec(s, i, &['d', 'a', 'i', 'l', 'y']) {
        Some((i + 5, Token::Recurrence(0)))
    } else if whole_word_exec(s, i, &['w', 'e', 'e', 'k', 'l', 'y']) {
        Some((i + 6, Token::Recurrence(1)))
    } else if whole_word_exec(s, i, &['m', 'o', 'n', 't', 'h', 'l', 'y']) {
        Some((i + 7, Token::Recurrence(2)))
    } else {
        None
    }
}

fn pat_tomorrow_at_exec(s: &Vec<char>, i: usize) -> (r: Option<(usize, Token)>)
    requires
        i <= s.len(),
    ensures
        same_match(r, pat(2, s@, i as int)),
        r matches Some(m) ==> i <= m.0 <= s.len(),
{
    match word_then_ws_exec(s, i, &['t', 'o', 'm', 'o', 'r', 'r', 'o', 'w']) {
        Some(k) => match hour_tail_exec(s, k, false) {
            Some(t) => Some((t.0, Token::Time(token_time(t, 0)))),
            None => None,
        },
        None => None,
    }
}

fn pat_tomorrow_exec(s: &Vec<char>, i: usize) -> (r: Option<(usize, Token)>)
    requires
        i <= s.len(),
    ensures
        same_match(r, pat(3, s@, i as int)),
        r matches Some(m) ==> i <= m.0 <= s.len(),
{
    if whole_word_exec(s, i, &['t', 'o', 'm', 'o', 'r', 'r', 'o', 'w']) {
        Some((i + 8, Token::Time(TimeToken::Tomorrow)))
    } else {
        None
    }
}

fn pat_today_at_exec(s: &Vec<char>, i: usize) -> (r: Option<(usize, Token)>)
    requires
        i <= s.len(),
    ensures
        same_match(r, pat(4, s@, i as int)),
        r matches Some(m) ==> i <= m.0 <= s.len(),
{
    match word_then_ws_exec(s, i, &['t', 'o', 'd', 'a', 'y']) {
        Some(k) => match hour_tail_exec(s, k, false) {
            Some(t) => Some((t.0, Token::Time(token_time(t, 1)))),
            None => None,
        },
        None => None,
    }
}

fn pat_at_exec(s: &Vec<char>, i: usize) -> (r: Option<(usize, Token)>)
    requires
        i <= s.len(),
    ensures
        same_match(r, pat(5, s@, i as int)),
        r matches Some(m) ==> i <= m.0 <= s.len(),
{
    let at_path = match word_then_ws_exec(s, i, &['a', 't']) {
        Some(k) => hour_tail_exec(s, k, true),
        None => None,
    };
    let t = if at_path.is_some() {
        at_path
    } else if boundary_exec(s, i) {
        hour_tail_exec(s, i, true)
    } else {
        None
    };
    match t {
        Some(u) => Some((u.0, Token::Time(token_time(u, 2)))),
        None => None,
    }
}

fn pat_in_exec(s: &Vec<char>, i: usize) -> (r: Option<(usize, Token)>)
    requires
        i <= s.len(),
    ensures
        same_match(r, pat(6, s@, i as int)),
        r matches Some(m) ==> i <= m.0 <= s.len(),
{
    match word_then_ws_exec(s, i, &['i', 'n']) {
        Some(k) => match amount_unit_exec(s, k) {
            Some(a) => Some((a.0, Token::Time(TimeToken::In { amount: a.1, minutes: a.2 }))),
            None => None,
        },
        None => None,
    }
}

fn pat_next_week_exec(s: &Vec<char>, i: usize) -> (r: Option<(usize, Token)>)
    requires
        i <= s.len(),
    ensures
        same_match(r, pat(7, s@, i as int)),
        r matches Some(m) ==> i <= m.0 <= s.len(),
{
    match word_then_ws_exec(s, i, &['n', 'e', 'x', 't']) {
        Some(k) => {
            if ci_at_exec(s, k, &['w', 'e', 'e', 'k']) {
                assert(k + 4 <= s@.len());
                if boundary_exec(s, k + 4) {
                    return Some((k + 4, Token::Time(TimeToken::NextWeek)));
                }
            }
            None
        },
        None => None,
    }
}

fn pat_day_exec(s: &Vec<char>, i: usize) -> (r: Option<(usize, Token)>)
    requires
        i <= s.len(),
    ensures
        same_match(r, day_match(s@, i as int)),
        r matches Some(m) ==> i <= m.0 <= s.len(),
{
    if boundary_exec(s, i) {
        match day_exec(s, i) {
            Some(n) => {
                let len: usize = if n == 0 || n == 4 || n == 6 {
                    6
                } else if n == 1 {
                    7
                } else if n == 2 {
                    9
                } else {
                    8
                };
                assert(len == day_name(n as int).len());
                let d: u32 = if n == 6 {
                    0
                } else {
                    n + 1
                };
                Some((i + len, Token::Time(TimeToken::Day { day: d })))
            },
            None => None,
        }
    } else {
        None
    }
}

fn pat_day_at_exec(s: &Vec<char>, i: usize) -> (r: Option<(usize, Token)>)
    requires
        i <= s.len(),
    ensures
        same_match(r, day_at_match(s@, i as int)),
        r matches Some(m) ==> i <= m.0 <= s.len(),
{
    if boundary_exec(s, i) {
        match day_exec(s, i) {
            Some(n) => {
                let len: usize = if n == 0 || n == 4 || n == 6 {
                    6
                } else if n == 1 {
                    7
                } else if n == 2 {
                    9
                } else {
                    8
                };
                assert(len == day_name(n as int).len());
                let d: u32 = if n == 6 {
                    0
                } else {
                    n + 1
                };
                let e = i + len;
                if e < s.len() && is_ws_char(s[e]) {
                    let k = skip_ws(s, e);
                    match hour_tail_exec(s, k, false) {
                        Some(t) => Some((t.0, Token::Time(TimeToken::DayAt { day: d, hour: t.1, minute: t.2, pm: t.3 }))),
                        None => None,
                    }
                } else {
                    None
                }
            },
            None => None,
        }
    } else {
        None
    }
}

fn pat_ping_exec(s: &Vec<char>, i: usize) -> (r: Option<(usize, Token)>)
    requires
        i <= s.len(),
    ensures
        same_match(r, pat(9, s@, i as int)),
        r matches Some(m) ==> i <= m.0 <= s.len(),
{
    match word_then_ws_exec(s, i, &['p', 'i', 'n', 'g']) {
        Some(k) => {
            let every = if ci_at_exec(s, k, &['e', 'v', 'e', 'r', 'y']) && k < s.len() && s.len() - k
                > 5 && is_ws_char(s[k + 5]) {
                let k2 = skip_ws(s, k + 5);
                amount_unit_exec(s, k2)
            } else {
                None
            };
            let a = if every.is_some() {
                every
            } else {
                amount_unit_exec(s, k)
            };
            match a {
                Some(m) => Some((m.0, Token::Ping { amount: m.1, minutes: m.2 })),
                None => None,
            }
        },
        None => None,
    }
}

fn pat_every_exec(s: &Vec<char>, i: usize) -> (r: Option<(usize, Token)>)
    requires
        i <= s.len(),
    ensures
        same_match(r, pat(10, s@, i as int)),
        r matches Some(m) ==> i <= m.0 <= s.len(),
{
    match word_then_ws_exec(s, i, &['e', 'v', 'e', 'r', 'y']) {
        Some(k) => match amount_unit_exec(s, k) {
            Some(m) => Some((m.0, Token::Ping { amount: m.1, minutes: m.2 })),
            None => None,
        },
        None => None,
    }
}

/// Executable `pat`.
pub fn match_pat(id: u8, s: &Vec<char>, i: usize) -> (r: Option<(usize, Token)>)
    requires
        i <= s.len(),
    ensures
        same_match(r, pat(id as int, s@, i as int)),
        r matches Some(m) ==> i <= m.0 <= s.len(),
{
    if id == 0 {
        pat_priority_exec(s, i)
    } else if id == 1 {
        pat_recurrence_exec(s, i)
    } else if id == 2 {
        pat_tomorrow_at_exec(s, i)
    } else if id == 3 {
        pat_tomorrow_exec(s, i)
    } else if id == 4 {
        pat_today_at_exec(s, i)
    } else if id == 5 {
        pat_at_exec(s, i)
    } else if id == 6 {
        pat_in_exec(s, i)
    } else if id == 7 {
        pat_next_week_exec(s, i)
    } else if id == 8 {
        assert(pat(8, s@, i as int) == day_match(s@, i as int));
        pat_day_exec(s, i)
    } else if id == 9 {
        pat_ping_exec(s, i)
    } else if id == 10 {
        pat_every_exec(s, i)
    } else if id == 11 {
        assert(pat(11, s@, i as int) == day_at_match(s@, i as int));
        pat_day_at_exec(s, i)
    } else {
        None
    }
}

/// Executable `find`: the leftmost match of pattern `id`.
pub fn find_exec(id: u8, s: &Vec<char>) -> (r: Option<(usize, usize, Token)>)
    ensures
        r matches Some(m) ==> find(id as int, s@) == Some((m.0 as int, m.1 as int, m.2)) && m.0
            <= m.1 <= s.len(),
        r is None ==> find(id as int, s@) is None,
{
    let mut i: usize = 0;
    loop
        invariant
            i <= s.len(),
            find(id as int, s@) == first_from(id as int, s@, i as int),
        decreases s.len() - i,
    {
        match match_pat(id, s, i) {
            Some(m) => {
                return Some((i, m.0, m.1));
            },
            None => {},
        }
        if i == s.len() {
            assert(first_from(id as int, s@, i + 1) is None);
            return None;
        }
        i += 1;
    }
}

// ======================= bounds of captured values =======================

/// The captured hour fits two digits and the day index a week.
pub open spec fn token_bounded(t: Token) -> bool {
    match t {
        Token::Time(TimeToken::TomorrowAt { hour, minute, .. }) => hour <= 99 && (minute matches Some(
            m,
        ) ==> m <= 99),
        Token::Time(TimeToken::TodayAt { hour, minute, .. }) => hour <= 99 && (minute matches Some(
            m,
        ) ==> m <= 99),
        Token::Time(TimeToken::At { hour, minute, .. }) => hour <= 99 && (minute matches Some(m) ==> m
            <= 99),
        Token::Time(TimeToken::Day { day }) => day < 7,
        Token::Time(TimeToken::DayAt { day, hour, minute, .. }) => day < 7 && hour <= 99 && (minute matches Some(
            m,
        ) ==> m <= 99),
        _ => true,
    }
}

proof fn lemma_two_digits(s: Seq<char>, a: int)
    requires
        0 <= a,
        a + 1 < s.len(),
        is_digit(s[a]),
        is_digit(s[a + 1]),
    ensures
        0 <= digits_value(s, a, a + 2) <= 99,
{
    assert(digits_value(s, a, a) == 0);
    assert(digits_value(s, a, a + 1) == digit_val(s[a]));
}

proof fn lemma_colon_tail_bound(s: Seq<char>, p: int, required: bool)
    requires
        0 <= p,
    ensures
        colon_tail(s, p, required) matches Some(t) ==> (t.1 matches Some(m) ==> 0 <= m <= 99),
{
    if p + 2 < s.len() && 0 <= p && s[p] == ':' && is_digit(s[p + 1]) && is_digit(s[p + 2]) {
        lemma_two_digits(s, p + 1);
    }
}

proof fn lemma_hour_tail_bound(s: Seq<char>, k: int, required: bool)
    requires
        0 <= k,
    ensures
        hour_tail(s, k, required) matches Some(t) ==> 0 <= t.1 <= 99 && (t.2 matches Some(m) ==> 0
            <= m <= 99),
{
    lemma_colon_tail_bound(s, k + 2, required);
    lemma_colon_tail_bound(s, k + 1, required);
    if 0 <= k && k + 1 < s.len() && is_digit(s[k]) && is_digit(s[k + 1]) {
        lemma_two_digits(s, k);
    }
}

proof fn lemma_day_from_bound(s: Seq<char>, i: int, n: int)
    ensures
        day_from(s, i, n) matches Some(d) ==> 0 <= d < 7,
    decreases 7 - n,
{
    if 0 <= n < 7 {
        lemma_day_from_bound(s, i, n + 1);
    }
}

proof fn lemma_word_then_ws_pos(s: Seq<char>, i: int, kw: Seq<char>)
    requires
        0 <= i,
    ensures
        word_then_ws(s, i, kw) matches Some(k) ==> 0 <= k,
{
    if word_then_ws(s, i, kw) is Some {
        crate::text::lemma_ws_end_bounds(s, i + kw.len());
    }
}

pub proof fn lemma_pat_token_bounds(id: int, s: Seq<char>, i: int)
    requires
        0 <= i,
    ensures
        pat(id, s, i) matches Some(m) ==> token_bounded(m.1),
{
    if id == 2 {
        lemma_word_then_ws_pos(s, i, kw_tomorrow());
        if word_then_ws(s, i, kw_tomorrow()) is Some {
            lemma_hour_tail_bound(s, word_then_ws(s, i, kw_tomorrow())->0, false);
        }
    } else if id == 4 {
        lemma_word_then_ws_pos(s, i, kw_today());
        if word_then_ws(s, i, kw_today()) is Some {
            lemma_hour_tail_bound(s, word_then_ws(s, i, kw_today())->0, false);
        }
    } else if id == 5 {
        lemma_word_then_ws_pos(s, i, seq!['a', 't']);
        if word_then_ws(s, i, seq!['a', 't']) is Some {
            lemma_hour_tail_bound(s, word_then_ws(s, i, seq!['a', 't'])->0, true);
        }
        lemma_hour_tail_bound(s, i, true);
    } else if id == 8 {
        lemma_day_from_bound(s, i, 0);
    } else if id == 11 {
        lemma_day_from_bound(s, i, 0);
        if day_from(s, i, 0) is Some {
            let e = i + day_name(day_from(s, i, 0)->0).len();
            if 0 <= e < s.len() {
                crate::text::lemma_ws_end_bounds(s, e);
                lemma_hour_tail_bound(s, ws_end(s, e), false);
            }
        }
    }
}

pub proof fn lemma_first_from_bounds(id: int, s: Seq<char>, i: int)
    ensures
        first_from(id, s, i) matches Some(m) ==> token_bounded(m.2),
    decreases s.len() + 1 - i,
{
    if 0 <= i <= s.len() {
        lemma_pat_token_bounds(id, s, i);
        lemma_first_from_bounds(id, s, i + 1);
    }
}

} // verus!
