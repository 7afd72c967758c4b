//! What the screen shows, as text and tones: the task rows, the input line,
//! the key hints, the mode badge and the layout arithmetic. Drawing them is
//! the application's part.
use vstd::prelude::*;
use vstd::view::View as _;

use crate::app::{done_of, open_of, App, InputMode, View};
use crate::cli::list_name_of;
use crate::clock::in_local_range;
use crate::db::{opt_view, Task};
use crate::editing::char_at_byte;
use crate::parser::{
    countdown_fits, countdown_text, due_date_text, format_due_date, format_ping_interval,
    ping_countdown_at, ping_interval_text, priority_label,
};
use crate::text::{chars_of, decimal, push_all, push_decimal, push_vec, string_of};

verus! {

/// The colours of the theme.
#[derive(Debug, Clone, Copy, PartialEq, Eq, Structural)]
pub enum Tone {
    Accent,
    Text,
    Dim,
    Faint,
    Danger,
    Warn,
    Blue,
    Background,
    Surface,
    Elevated,
    /// the light grey of values in the detail pane
    Light,
}

/// A run of text in one style.
pub struct Piece {
    pub text: String,
    pub fg: Tone,
    pub bg: Option<Tone>,
    pub bold: bool,
    pub crossed: bool,
}

/// The piece shows `text` in `fg` on `bg`, bold or not, not crossed out.
pub open spec fn shows(p: Piece, text: Seq<char>, fg: Tone, bg: Option<Tone>, bold: bool) -> bool {
    p.text@ == text && p.fg == fg && p.bg == bg && p.bold == bold && !p.crossed
}

fn piece(text: &[char], fg: Tone, bg: Option<Tone>, bold: bool) -> (r: Piece)
    ensures
        shows(r, text@, fg, bg, bold),
{
    let mut v: Vec<char> = Vec::new();
    push_all(&mut v, text);
    Piece { text: string_of(&v), fg, bg, bold, crossed: false }
}

// ======================= layout =======================

/// The number of characters of `s`: the width the screen gives it.
pub fn unicode_width(s: &str) -> (r: usize)
    ensures
        r == s@.len(),
{
    chars_of(s).len()
}

/// A rectangle of the screen.
#[derive(Debug, Clone, Copy, PartialEq, Eq, Structural)]
pub struct Rect {
    pub x: u16,
    pub y: u16,
    pub width: u16,
    pub height: u16,
}

/// A `w` by `h` rectangle centred in `area`, shrunk to fit it.
pub fn centered(area: Rect, w: u16, h: u16) -> (r: Rect)
    requires
        area.x + area.width <= u16::MAX,
        area.y + area.height <= u16::MAX,
    ensures
        r.width == (if w < area.width {
            w
        } else {
            area.width
        }),
        r.height == (if h < area.height {
            h
        } else {
            area.height
        }),
        r.x == area.x + (area.width - r.width) / 2,
        r.y == area.y + (area.height - r.height) / 2,
{
    let w2 = if w < area.width {
        w
    } else {
        area.width
    };
    let h2 = if h < area.height {
        h
    } else {
        area.height
    };
    Rect { x: area.x + (area.width - w2) / 2, y: area.y + (area.height - h2) / 2, width: w2, height: h2 }
}

/// The row of the selected task among the rows (the heading counts), or 0.
pub open spec fn selected_row(a: App) -> int {
    let o = open_of(a.tasks@, a.filtered_indices@).len();
    let d = done_of(a.tasks@, a.filtered_indices@).len();
    if a.selected_task < o {
        a.selected_task as int
    } else if a.show_completed && d > 0 && a.selected_task < o + d {
        a.selected_task + 1
    } else {
        0
    }
}

/// The number of rows.
pub open spec fn row_count(a: App) -> int {
    let o = open_of(a.tasks@, a.filtered_indices@).len();
    let d = done_of(a.tasks@, a.filtered_indices@).len();
    (o + if a.show_completed && d > 0 {
        d + 1
    } else {
        0
    }) as int
}

/// The scroll offset that keeps the selected row within `height` rows.
pub open spec fn scroll_for(sel: int, scroll: int, height: int) -> int {
    if sel < scroll {
        sel
    } else if sel >= scroll + height {
        sel - height + 1
    } else {
        scroll
    }
}

impl App {
    /// Scrolls so that the selected task is within the `height` rows shown
    /// (nothing changes when there are no rows).
    pub fn follow_selection(&mut self, height: usize)
        requires
            old(self).filtered_indices@.len() < usize::MAX,
        ensures
            row_count(*old(self)) == 0 ==> *final(self) == *old(self),
            row_count(*old(self)) > 0 ==> *final(self) == (App {
                scroll_offset: scroll_for(
                    selected_row(*old(self)),
                    old(self).scroll_offset as int,
                    height as int,
                ) as usize,
                ..*old(self)
            }),
    {
        let (o, d) = self.shown_counts();
        proof {
            crate::app::lemma_open_done_len(self.tasks@, self.filtered_indices@);
        }
        if o == 0 && !(self.show_completed && d > 0) {
            return;
        }
        let sel: usize = if self.selected_task < o {
            self.selected_task
        } else if self.show_completed && d > 0 && self.selected_task - o < d {
            self.selected_task + 1
        } else {
            0
        };
        if sel < self.scroll_offset {
            self.scroll_offset = sel;
        } else if (sel as u128) >= (self.scroll_offset as u128) + (height as u128) {
            self.scroll_offset = sel - height + 1;
        }
    }
}

// ======================= messages and the input line =======================

pub open spec fn no_matches_text() -> Seq<char> {
    seq!['n', 'o', ' ', 'm', 'a', 't', 'c', 'h', 'e', 's']
}

pub open spec fn no_tasks_text() -> Seq<char> {
    seq![
        'n', 'o', ' ', 't', 'a', 's', 'k', 's', ' ', 'y', 'e', 't', ' ', '\u{2014}', ' ', 'p',
        'r', 'e', 's', 's', ' ', 'i', ' ', 't', 'o', ' ', 'a', 'd', 'd', ' ', 'o', 'n', 'e',
    ]
}

pub open spec fn nothing_today_text() -> Seq<char> {
    seq!['n', 'o', 't', 'h', 'i', 'n', 'g', ' ', 'd', 'u', 'e', ' ', 't', 'o', 'd', 'a', 'y']
}

pub open spec fn all_done_text() -> Seq<char> {
    seq!['a', 'l', 'l', ' ', 'd', 'o', 'n', 'e']
}

/// The line shown when no rows are: `None` when there are rows.
pub open spec fn empty_text(a: App) -> Option<Seq<char>> {
    if row_count(a) > 0 {
        None
    } else if a.search_mode && a.input@.len() > 0 {
        Some(no_matches_text())
    } else if a.viewing_today {
        Some(nothing_today_text())
    } else if a.tasks@.len() == 0 {
        Some(no_tasks_text())
    } else {
        Some(all_done_text())
    }
}

/// The line shown in place of an empty task list.
pub fn empty_message(a: &App) -> (r: Option<String>)
    ensures
        opt_view(r) == empty_text(*a),
{
    let (o, d) = a.shown_counts();
    if o > 0 || (a.show_completed && d > 0) {
        return None;
    }
    if a.search_mode && !a.input.as_str().is_empty() {
        Some(string_of(&vec!['n', 'o', ' ', 'm', 'a', 't', 'c', 'h', 'e', 's']))
    } else if a.viewing_today {
        Some(string_of(&vec!['n', 'o', 't', 'h', 'i', 'n', 'g', ' ', 'd', 'u', 'e', ' ', 't', 'o', 'd', 'a', 'y']))
    } else if a.tasks.len() == 0 {
        Some(
            string_of(
                &vec![
                    'n', 'o', ' ', 't', 'a', 's', 'k', 's', ' ', 'y', 'e', 't', ' ', '\u{2014}',
                    ' ', 'p', 'r', 'e', 's', 's', ' ', 'i', ' ', 't', 'o', ' ', 'a', 'd', 'd', ' ',
                    'o', 'n', 'e',
                ],
            ),
        )
    } else {
        Some(string_of(&vec!['a', 'l', 'l', ' ', 'd', 'o', 'n', 'e']))
    }
}

/// The input line: an icon and a text, each with its tone.
pub struct InputLine {
    pub icon: String,
    pub icon_tone: Tone,
    pub text: String,
    pub text_tone: Tone,
}

pub open spec fn type_to_search_text() -> Seq<char> {
    seq!['t', 'y', 'p', 'e', ' ', 't', 'o', ' ', 's', 'e', 'a', 'r', 'c', 'h', '.', '.', '.']
}

pub open spec fn example_text() -> Seq<char> {
    seq![
        'b', 'u', 'y', ' ', 'm', 'i', 'l', 'k', ' ', 't', 'o', 'm', 'o', 'r', 'r', 'o', 'w', ' ',
        '5', 'p', 'm', ' ', 'p', 'i', 'n', 'g', ' ', '2', 'h', ' ', 'p', '1', ' ', 'd', 'a', 'i',
        'l', 'y',
    ]
}

pub open spec fn pending_text(n: nat) -> Seq<char> {
    decimal(n) + seq![' ', 'p', 'e', 'n', 'd', 'i', 'n', 'g']
}

/// Typing goes to the input line.
pub open spec fn typing(a: App) -> bool {
    a.input_mode == InputMode::Insert && a.view == View::Tasks
}

/// The input line for the state `a`, whose list has `pending` open tasks.
pub open spec fn input_line_is(a: App, pending: nat, r: InputLine) -> bool {
    &&& r.icon@ == (if a.search_mode {
        seq!['/']
    } else if a.editing_task_id is Some {
        seq!['~']
    } else {
        seq!['\u{25b8}']
    })
    &&& r.icon_tone == (if a.search_mode {
        Tone::Warn
    } else if a.editing_task_id is Some {
        Tone::Blue
    } else if typing(a) {
        Tone::Accent
    } else {
        Tone::Dim
    })
    &&& if a.input@.len() == 0 && !typing(a) {
        match a.status_message {
            Some(m) => r.text@ == m@ && r.text_tone == Tone::Accent,
            None => r.text@ == pending_text(pending) && r.text_tone == Tone::Dim,
        }
    } else if a.input@.len() == 0 {
        r.text@ == (if a.search_mode {
            type_to_search_text()
        } else {
            example_text()
        }) && r.text_tone == Tone::Faint
    } else {
        r.text@ == a.input@ && r.text_tone == Tone::Text
    }
}

/// The input line: the entry being typed, a hint while it is empty, or
/// else the last message or the number of open tasks.
pub fn input_line(a: &App) -> (r: InputLine)
    ensures
        input_line_is(*a, crate::db::keep(a.tasks@, |t: Task| !t.completed).len(), r),
{
    let active = a.input_mode == InputMode::Insert && a.view == View::Tasks;
    let icon = if a.search_mode {
        string_of(&vec!['/'])
    } else if a.editing_task_id.is_some() {
        string_of(&vec!['~'])
    } else {
        string_of(&vec!['\u{25b8}'])
    };
    let icon_tone = if a.search_mode {
        Tone::Warn
    } else if a.editing_task_id.is_some() {
        Tone::Blue
    } else if active {
        Tone::Accent
    } else {
        Tone::Dim
    };
    let empty = a.input.as_str().is_empty();
    let (text, text_tone) = if empty && !active {
        match &a.status_message {
            Some(m) => (m.clone(), Tone::Accent),
            None => {
                let mut v: Vec<char> = Vec::new();
                let n = a.pending_count();
                push_decimal(&mut v, n as u64);
                push_all(&mut v, &[' ', 'p', 'e', 'n', 'd', 'i', 'n', 'g']);
                assert(v@ =~= pending_text(n as nat));
                (string_of(&v), Tone::Dim)
            },
        }
    } else if empty {
        if a.search_mode {
            (
                string_of(
                    &vec!['t', 'y', 'p', 'e', ' ', 't', 'o', ' ', 's', 'e', 'a', 'r', 'c', 'h', '.', '.', '.'],
                ),
                Tone::Faint,
            )
        } else {
            (
                string_of(
                    &vec![
                        'b', 'u', 'y', ' ', 'm', 'i', 'l', 'k', ' ', 't', 'o', 'm', 'o', 'r', 'r',
                        'o', 'w', ' ', '5', 'p', 'm', ' ', 'p', 'i', 'n', 'g', ' ', '2', 'h', ' ',
                        'p', '1', ' ', 'd', 'a', 'i', 'l', 'y',
                    ],
                ),
                Tone::Faint,
            )
        }
    } else {
        (a.input.clone(), Tone::Text)
    };
    let r = InputLine { icon, icon_tone, text, text_tone };
    assert(r.icon@ == (if a.search_mode {
        seq!['/']
    } else if a.editing_task_id is Some {
        seq!['~']
    } else {
        seq!['\u{25b8}']
    }));
    assert(r.icon_tone == (if a.search_mode {
        Tone::Warn
    } else if a.editing_task_id is Some {
        Tone::Blue
    } else if typing(*a) {
        Tone::Accent
    } else {
        Tone::Dim
    }));
    r
}

/// The screen column of the cursor within the input text: the number of
/// characters before it.
pub fn input_cursor_column(a: &App) -> (r: usize)
    requires
        a.wf(),
    ensures
        r == char_at_byte(a.input@, a.cursor_pos as int)->0,
{
    let v = chars_of(a.input.as_str());
    match crate::editing::char_index(&v, a.cursor_pos) {
        Some(k) => k,
        None => 0,
    }
}

// ======================= key hints and the mode badge =======================

/// The key hints for the state `a`.
pub open spec fn hints_for(a: App) -> Seq<(Seq<char>, Seq<char>)> {
    if a.view == View::ConfirmDeleteList || a.view == View::ConfirmDeleteTask {
        seq![(seq!['y'], seq!['y', 'e', 's']), (seq!['n'], seq!['n', 'o'])]
    } else if a.view == View::Help {
        seq![(seq!['a', 'n', 'y'], seq!['c', 'l', 'o', 's', 'e'])]
    } else if a.view == View::NewList || a.view == View::RenameList {
        seq![(seq!['\u{21b5}'], seq!['s', 'a', 'v', 'e']), (seq!['e', 's', 'c'], seq!['c', 'a', 'n', 'c', 'e', 'l'])]
    } else if a.search_mode {
        seq![(seq!['e', 's', 'c'], seq!['c', 'a', 'n', 'c', 'e', 'l']), (seq!['\u{21b5}'], seq!['s', 'e', 'l', 'e', 'c', 't'])]
    } else if a.input_mode == InputMode::Insert && a.editing_task_id is Some {
        seq![(seq!['\u{21b5}'], seq!['s', 'a', 'v', 'e']), (seq!['e', 's', 'c'], seq!['c', 'a', 'n', 'c', 'e', 'l'])]
    } else if a.input_mode == InputMode::Insert {
        seq![(seq!['\u{21b5}'], seq!['a', 'd', 'd']), (seq!['e', 's', 'c'], seq!['c', 'a', 'n', 'c', 'e', 'l'])]
    } else {
        seq![
            (seq!['i'], seq!['a', 'd', 'd']),
            (seq!['e'], seq!['e', 'd', 'i', 't']),
            (seq!['\u{21b5}'], seq!['d', 'e', 't', 'a', 'i', 'l']),
            (seq!['\u{2423}'], seq!['d', 'o', 'n', 'e']),
            (seq!['s'], seq!['s', 'n', 'o', 'o', 'z', 'e']),
            (seq!['d'], seq!['d', 'e', 'l']),
            (seq!['/'], seq!['s', 'e', 'a', 'r', 'c', 'h']),
            (seq!['t'], seq!['t', 'o', 'd', 'a', 'y']),
            (seq!['?'], seq!['h', 'e', 'l', 'p']),
            (seq!['q'], seq!['q', 'u', 'i', 't']),
        ]
    }
}

fn hint(v: &mut Vec<(String, String)>, key: &[char], desc: &[char])
    ensures
        final(v)@.len() == old(v)@.len() + 1,
        forall|k: int| 0 <= k < old(v)@.len() ==> final(v)@[k] == old(v)@[k],
        final(v)@.last().0@ == key@,
        final(v)@.last().1@ == desc@,
{
    let mut a: Vec<char> = Vec::new();
    push_all(&mut a, key);
    let mut b: Vec<char> = Vec::new();
    push_all(&mut b, desc);
    v.push((string_of(&a), string_of(&b)));
}

/// The key hints shown at the bottom: a key and what it does.
pub fn key_hints(a: &App) -> (r: Vec<(String, String)>)
    ensures
        r@.len() == hints_for(*a).len(),
        forall|k: int|
            0 <= k < r@.len() ==> (#[trigger] r@[k]).0@ == hints_for(*a)[k].0 && r@[k].1@ == hints_for(
                *a,
            )[k].1,
{
    let mut v: Vec<(String, String)> = Vec::new();
    if a.view == View::ConfirmDeleteList || a.view == View::ConfirmDeleteTask {
        hint(&mut v, &['y'], &['y', 'e', 's']);
        hint(&mut v, &['n'], &['n', 'o']);
    } else if a.view == View::Help {
        hint(&mut v, &['a', 'n', 'y'], &['c', 'l', 'o', 's', 'e']);
    } else if a.view == View::NewList || a.view == View::RenameList {
        hint(&mut v, &['\u{21b5}'], &['s', 'a', 'v', 'e']);
        hint(&mut v, &['e', 's', 'c'], &['c', 'a', 'n', 'c', 'e', 'l']);
    } else if a.search_mode {
        hint(&mut v, &['e', 's', 'c'], &['c', 'a', 'n', 'c', 'e', 'l']);
        hint(&mut v, &['\u{21b5}'], &['s', 'e', 'l', 'e', 'c', 't']);
    } else if a.input_mode == InputMode::Insert && a.editing_task_id.is_some() {
        hint(&mut v, &['\u{21b5}'], &['s', 'a', 'v', 'e']);
        hint(&mut v, &['e', 's', 'c'], &['c', 'a', 'n', 'c', 'e', 'l']);
    } else if a.input_mode == InputMode::Insert {
        hint(&mut v, &['\u{21b5}'], &['a', 'd', 'd']);
        hint(&mut v, &['e', 's', 'c'], &['c', 'a', 'n', 'c', 'e', 'l']);
    } else {
        hint(&mut v, &['i'], &['a', 'd', 'd']);
        hint(&mut v, &['e'], &['e', 'd', 'i', 't']);
        hint(&mut v, &['\u{21b5}'], &['d', 'e', 't', 'a', 'i', 'l']);
        hint(&mut v, &['\u{2423}'], &['d', 'o', 'n', 'e']);
        hint(&mut v, &['s'], &['s', 'n', 'o', 'o', 'z', 'e']);
        hint(&mut v, &['d'], &['d', 'e', 'l']);
        hint(&mut v, &['/'], &['s', 'e', 'a', 'r', 'c', 'h']);
        hint(&mut v, &['t'], &['t', 'o', 'd', 'a', 'y']);
        hint(&mut v, &['?'], &['h', 'e', 'l', 'p']);
        hint(&mut v, &['q'], &['q', 'u', 'i', 't']);
    }
    v
}

/// The badge of the current mode.
pub fn mode_badge(a: &App) -> (r: Piece)
    ensures
        a.search_mode ==> shows(r, seq![' ', 'S', 'E', 'A', 'R', 'C', 'H', ' '], Tone::Background, Some(Tone::Warn), true),
        !a.search_mode && a.editing_task_id is Some ==> shows(r, seq![' ', 'E', 'D', 'I', 'T', ' '], Tone::Background, Some(Tone::Blue), true),
        !a.search_mode && a.editing_task_id is None && a.input_mode == InputMode::Insert ==> shows(
            r,
            seq![' ', 'I', 'N', 'S', 'E', 'R', 'T', ' '],
            Tone::Background,
            Some(Tone::Accent),
            true,
        ),
        !a.search_mode && a.editing_task_id is None && a.input_mode == InputMode::Normal ==> shows(
            r,
            seq![' ', 'N', 'O', 'R', 'M', 'A', 'L', ' '],
            Tone::Dim,
            Some(Tone::Elevated),
            false,
        ),
{
    if a.search_mode {
        piece(&[' ', 'S', 'E', 'A', 'R', 'C', 'H', ' '], Tone::Background, Some(Tone::Warn), true)
    } else if a.editing_task_id.is_some() {
        piece(&[' ', 'E', 'D', 'I', 'T', ' '], Tone::Background, Some(Tone::Blue), true)
    } else if a.input_mode == InputMode::Insert {
        piece(&[' ', 'I', 'N', 'S', 'E', 'R', 'T', ' '], Tone::Background, Some(Tone::Accent), true)
    } else {
        piece(&[' ', 'N', 'O', 'R', 'M', 'A', 'L', ' '], Tone::Dim, Some(Tone::Elevated), false)
    }
}

// ======================= the header =======================

/// The tab of a list: its name between spaces.
pub open spec fn tab_text(name: Seq<char>) -> Seq<char> {
    seq![' '] + name + seq![' ']
}

/// The list tab `k` is highlighted: it is the current list and the today
/// view is closed.
pub open spec fn tab_on(a: App, k: int) -> bool {
    !a.viewing_today && k == a.selected_list
}

/// The header's left part: the title and a gap, the today tab, then for
/// each list a space and its tab; the view shown is highlighted.
pub open spec fn header_is(a: App, r: Seq<Piece>) -> bool {
    &&& r.len() == 3 + 2 * a.lists@.len()
    &&& shows(r[0], seq![' ', 'c', 'h', 'i', 'r', 'p'], Tone::Accent, None, true)
    &&& shows(r[1], seq![' ', ' '], Tone::Text, None, false)
    &&& (if a.viewing_today {
        shows(r[2], seq![' ', 't', 'o', 'd', 'a', 'y', ' '], Tone::Background, Some(Tone::Warn), true)
    } else {
        shows(r[2], seq![' ', 't', 'o', 'd', 'a', 'y', ' '], Tone::Dim, None, false)
    })
    &&& forall|k: int|
        0 <= k < a.lists@.len() ==> shows(#[trigger] r[3 + 2 * k], seq![' '], Tone::Text, None, false)
            && shows(
            r[4 + 2 * k],
            tab_text(a.lists@[k].name@),
            if tab_on(a, k) {
                Tone::Background
            } else {
                Tone::Dim
            },
            if tab_on(a, k) {
                Some(Tone::Accent)
            } else {
                None
            },
            tab_on(a, k),
        )
}

/// The header's title, today tab and list tabs; the mode badge goes at its
/// right end.
pub fn header_tabs(a: &App) -> (r: Vec<Piece>)
    requires
        a.lists@.len() < usize::MAX / 4,
    ensures
        header_is(*a, r@),
{
    let mut out: Vec<Piece> = Vec::new();
    out.push(piece(&[' ', 'c', 'h', 'i', 'r', 'p'], Tone::Accent, None, true));
    out.push(piece(&[' ', ' '], Tone::Text, None, false));
    if a.viewing_today {
        out.push(piece(&[' ', 't', 'o', 'd', 'a', 'y', ' '], Tone::Background, Some(Tone::Warn), true));
    } else {
        out.push(piece(&[' ', 't', 'o', 'd', 'a', 'y', ' '], Tone::Dim, None, false));
    }
    let mut i: usize = 0;
    while i < a.lists.len()
        invariant
            i <= a.lists@.len(),
            a.lists@.len() < usize::MAX / 4,
            out@.len() == 3 + 2 * i,
            shows(out@[0], seq![' ', 'c', 'h', 'i', 'r', 'p'], Tone::Accent, None, true),
            shows(out@[1], seq![' ', ' '], Tone::Text, None, false),
            if a.viewing_today {
                shows(out@[2], seq![' ', 't', 'o', 'd', 'a', 'y', ' '], Tone::Background, Some(Tone::Warn), true)
            } else {
                shows(out@[2], seq![' ', 't', 'o', 'd', 'a', 'y', ' '], Tone::Dim, None, false)
            },
            forall|k: int|
                0 <= k < i ==> shows(#[trigger] out@[3 + 2 * k], seq![' '], Tone::Text, None, false)
                    && shows(
                    out@[4 + 2 * k],
                    tab_text(a.lists@[k].name@),
                    if tab_on(*a, k) {
                        Tone::Background
                    } else {
                        Tone::Dim
                    },
                    if tab_on(*a, k) {
                        Some(Tone::Accent)
                    } else {
                        None
                    },
                    tab_on(*a, k),
                ),
        decreases a.lists@.len() - i,
    {
        let mut v: Vec<char> = Vec::new();
        v.push(' ');
        push_vec(&mut v, &chars_of(a.lists[i].name.as_str()));
        v.push(' ');
        assert(v@ =~= tab_text(a.lists@[i as int].name@));
        let on = !a.viewing_today && i == a.selected_list;
        let tab = if on {
            Piece { text: string_of(&v), fg: Tone::Background, bg: Some(Tone::Accent), bold: true, crossed: false }
        } else {
            Piece { text: string_of(&v), fg: Tone::Dim, bg: None, bold: false, crossed: false }
        };
        let ghost before = out@;
        let gap = piece(&[' '], Tone::Text, None, false);
        assert(gap.text@ =~= seq![' ']);
        out.push(gap);
        out.push(tab);
        proof {
            assert forall|k: int|
                0 <= k < i + 1 implies shows(#[trigger] out@[3 + 2 * k], seq![' '], Tone::Text, None, false)
                && shows(
                out@[4 + 2 * k],
                tab_text(a.lists@[k].name@),
                if tab_on(*a, k) {
                    Tone::Background
                } else {
                    Tone::Dim
                },
                if tab_on(*a, k) {
                    Some(Tone::Accent)
                } else {
                    None
                },
                tab_on(*a, k),
            ) by {
                if k < i {
                    assert(out@[3 + 2 * k] == before[3 + 2 * k]);
                    assert(out@[4 + 2 * k] == before[4 + 2 * k]);
                } else {
                    assert(k == i);
                    assert(out@[3 + 2 * k] == gap);
                    assert(out@[4 + 2 * k] == tab);
                    assert(on == tab_on(*a, k));
                }
            }
            assert(out@[0] == before[0]);
            assert(out@[1] == before[1]);
            assert(out@[2] == before[2]);
        }
        i += 1;
    }
    out
}

// ======================= a task's row =======================

/// The tone of a priority level.
pub open spec fn priority_tone(p: u8) -> Tone {
    if p == 1 {
        Tone::Danger
    } else if p == 2 {
        Tone::Warn
    } else if p == 3 {
        Tone::Blue
    } else {
        Tone::Dim
    }
}

/// The row of task `t` can be built: the local time of its due time is one
/// chrono represents in every time zone,
/// and its countdown stays within `i64`.
pub open spec fn row_ok(t: Task) -> bool {
    &&& t.due_at matches Some(d) ==> in_local_range(d as int)
    &&& countdown_fits(t.last_ping_at, t.ping_interval, t.due_at)
}

/// Executable `row_ok`.
pub fn row_accepted(t: &Task) -> (r: bool)
    ensures
        r == row_ok(*t),
{
    let due_ok = match t.due_at {
        Some(d) => crate::clock::MIN_LOCAL_MILLIS <= d && d <= crate::clock::MAX_LOCAL_MILLIS,
        None => true,
    };
    let fits = match t.ping_interval {
        Some(i) => {
            let ms: i128 = i as i128 * 60000;
            let a = ms >= i64::MIN as i128 && ms <= i64::MAX as i128;
            let b = match t.last_ping_at {
                Some(l) => {
                    let s: i128 = l as i128 + ms;
                    s >= i64::MIN as i128 && s <= i64::MAX as i128
                },
                None => true,
            };
            let c = match t.due_at {
                Some(d) => {
                    let s: i128 = d as i128 + ms;
                    s >= i64::MIN as i128 && s <= i64::MAX as i128
                },
                None => true,
            };
            a && b && c
        },
        None => true,
    };
    due_ok && fits
}

/// A described piece: its text (`None` for a due time's text, which is
/// left open), tone, bold and crossed out.
pub type PieceSpec = (Option<Seq<char>>, Tone, bool, bool);

pub open spec fn sel_segment(selected: bool) -> Seq<PieceSpec> {
    if selected {
        seq![(Some(seq![' ', '\u{25b8}', ' ']), Tone::Accent, true, false)]
    } else {
        seq![(Some(seq![' ', ' ', ' ']), Tone::Text, false, false)]
    }
}

pub open spec fn pri_segment(t: Task) -> Seq<PieceSpec> {
    match t.priority {
        Some(p) => seq![
            (
                Some(priority_label(p) + seq![' ']),
                if t.completed {
                    Tone::Faint
                } else {
                    priority_tone(p)
                },
                true,
                false,
            ),
        ],
        None => Seq::empty(),
    }
}

pub open spec fn check_segment(t: Task) -> Seq<PieceSpec> {
    if t.completed {
        seq![(Some(seq!['\u{2713}', ' ']), Tone::Accent, false, false)]
    } else {
        seq![(Some(seq!['\u{25cb}', ' ']), Tone::Dim, false, false)]
    }
}

pub open spec fn content_segment(t: Task, selected: bool) -> Seq<PieceSpec> {
    if t.completed {
        seq![(Some(t.content@), Tone::Faint, false, true)]
    } else {
        seq![(Some(t.content@), Tone::Text, selected, false)]
    }
}

pub open spec fn tag_segment(tag: Option<Seq<char>>) -> Seq<PieceSpec> {
    match tag {
        Some(n) => seq![(Some(seq![' ', ' '] + n), Tone::Faint, false, false)],
        None => Seq::empty(),
    }
}

pub open spec fn due_segment(t: Task, now: i64) -> Seq<PieceSpec> {
    match t.due_at {
        Some(d) => seq![
            (
                None,
                if d < now && !t.completed {
                    Tone::Danger
                } else {
                    Tone::Warn
                },
                false,
                false,
            ),
        ],
        None => Seq::empty(),
    }
}

pub open spec fn rec_segment(t: Task) -> Seq<PieceSpec> {
    match t.recurrence {
        Some(r) => if !t.completed {
            seq![(Some(seq![' ', ' '] + r@), Tone::Accent, false, false)]
        } else {
            Seq::empty()
        },
        None => Seq::empty(),
    }
}

pub open spec fn countdown_tone(c: Seq<char>) -> Tone {
    if c == seq!['n', 'o', 'w', '!'] {
        Tone::Danger
    } else if c == seq!['a', 't', ' ', 'd', 'u', 'e'] {
        Tone::Warn
    } else {
        Tone::Accent
    }
}

pub open spec fn ping_segment(t: Task, now: i64) -> Seq<PieceSpec> {
    match t.ping_interval {
        Some(i) => if !t.completed {
            match countdown_text(t.last_ping_at, t.ping_interval, t.due_at, now as int) {
                Some(c) => seq![
                    (
                        Some(seq![' ', ' ', '~'] + ping_interval_text(i as int) + seq![' '] + c),
                        countdown_tone(c),
                        false,
                        false,
                    ),
                ],
                None => seq![
                    (Some(seq![' ', ' ', '~'] + ping_interval_text(i as int)), Tone::Blue, false, false),
                ],
            }
        } else {
            Seq::empty()
        },
        None => Seq::empty(),
    }
}

pub open spec fn note_segment(t: Task) -> Seq<PieceSpec> {
    if t.note is Some && !t.completed {
        seq![(Some(seq![' ', ' ', '+']), Tone::Faint, false, false)]
    } else {
        Seq::empty()
    }
}

/// The pieces of the row of task `t` at time `now`, in order.
pub open spec fn row_pieces(t: Task, selected: bool, tag: Option<Seq<char>>, now: i64) -> Seq<PieceSpec> {
    sel_segment(selected) + pri_segment(t) + check_segment(t) + content_segment(t, selected)
        + tag_segment(tag) + due_segment(t, now) + rec_segment(t) + ping_segment(t, now)
        + note_segment(t)
}

/// The piece matches its description.
pub open spec fn piece_is(p: Piece, d: PieceSpec) -> bool {
    &&& p.fg == d.1
    &&& p.bg is None
    &&& p.bold == d.2
    &&& p.crossed == d.3
    &&& match d.0 {
        Some(text) => p.text@ == text,
        None => exists|a: bool, b: bool, w: Seq<char>, x: Seq<char>|
            p.text@ == seq![' ', ' '] + #[trigger] due_date_text(a, b, w, x),
    }
}

/// The pieces match their descriptions, one by one.
pub open spec fn pieces_are(ps: Seq<Piece>, ds: Seq<PieceSpec>) -> bool {
    ps.len() == ds.len() && forall|k: int| 0 <= k < ds.len() ==> piece_is(#[trigger] ps[k], ds[k])
}

fn one(text: Vec<char>, fg: Tone, bold: bool, crossed: bool) -> (r: Vec<Piece>)
    ensures
        pieces_are(r@, seq![(Some(text@), fg, bold, crossed)]),
{
    let mut out: Vec<Piece> = Vec::new();
    out.push(Piece { text: string_of(&text), fg, bg: None, bold, crossed });
    out
}

fn append(out: &mut Vec<Piece>, more: Vec<Piece>, Ghost(a): Ghost<Seq<PieceSpec>>, Ghost(b): Ghost<Seq<PieceSpec>>)
    requires
        pieces_are(old(out)@, a),
        pieces_are(more@, b),
    ensures
        pieces_are(final(out)@, a + b),
{
    let mut more = more;
    let ghost start = out@;
    let ghost m = more@;
    out.append(&mut more);
    proof {
        assert(out@ == start + m);
        assert forall|k: int| 0 <= k < (a + b).len() implies piece_is(#[trigger] out@[k], (a + b)[k]) by {
            if k < a.len() {
                assert(out@[k] == start[k]);
            } else {
                assert(out@[k] == m[k - a.len()]);
            }
        }
    }
}

fn text_of(prefix: &[char], rest: &str) -> (r: Vec<char>)
    ensures
        r@ == prefix@ + rest@,
{
    let mut v: Vec<char> = Vec::new();
    push_all(&mut v, prefix);
    push_vec(&mut v, &chars_of(rest));
    v
}

fn pri_pieces(t: &Task) -> (r: Vec<Piece>)
    ensures
        pieces_are(r@, pri_segment(*t)),
{
    match t.priority {
        Some(p) => {
            let label = crate::parser::format_priority(p);
            let mut text = text_of(&[], label);
            text.push(' ');
            assert(text@ =~= priority_label(p) + seq![' ']);
            let tone = if t.completed {
                Tone::Faint
            } else if p == 1 {
                Tone::Danger
            } else if p == 2 {
                Tone::Warn
            } else if p == 3 {
                Tone::Blue
            } else {
                Tone::Dim
            };
            one(text, tone, true, false)
        },
        None => Vec::new(),
    }
}

fn due_pieces(t: &Task, now: i64) -> (r: Vec<Piece>)
    requires
        row_ok(*t),
    ensures
        pieces_are(r@, due_segment(*t, now)),
{
    match t.due_at {
        Some(d) => {
            let tone = if d < now && !t.completed {
                Tone::Danger
            } else {
                Tone::Warn
            };
            let when = format_due_date(d);
            let text = text_of(&[' ', ' '], when.as_str());
            let mut out: Vec<Piece> = Vec::new();
            out.push(Piece { text: string_of(&text), fg: tone, bg: None, bold: false, crossed: false });
            proof {
                let (a, b, w, x) = choose|a: bool, b: bool, w: Seq<char>, x: Seq<char>|
                    when@ == due_date_text(a, b, w, x);
                assert(out@[0].text@ == seq![' ', ' '] + due_date_text(a, b, w, x));
                assert(piece_is(out@[0], due_segment(*t, now)[0]));
            }
            out
        },
        None => Vec::new(),
    }
}

fn ping_pieces(t: &Task, now: i64) -> (r: Vec<Piece>)
    requires
        row_ok(*t),
    ensures
        pieces_are(r@, ping_segment(*t, now)),
{
    match t.ping_interval {
        Some(i) => {
            if t.completed {
                return Vec::new();
            }
            let itxt = format_ping_interval(i);
            match ping_countdown_at(t.last_ping_at, t.ping_interval, t.due_at, now) {
                Some(c) => {
                    let cv = chars_of(c.as_str());
                    let tone = if crate::text::equals_exec(&cv, &['n', 'o', 'w', '!']) {
                        Tone::Danger
                    } else if crate::text::equals_exec(&cv, &['a', 't', ' ', 'd', 'u', 'e']) {
                        Tone::Warn
                    } else {
                        Tone::Accent
                    };
                    let mut v = text_of(&[' ', ' ', '~'], itxt.as_str());
                    v.push(' ');
                    push_vec(&mut v, &cv);
                    assert(v@ =~= seq![' ', ' ', '~'] + ping_interval_text(i as int) + seq![' '] + c@);
                    one(v, tone, false, false)
                },
                None => one(text_of(&[' ', ' ', '~'], itxt.as_str()), Tone::Blue, false, false),
            }
        },
        None => Vec::new(),
    }
}

/// The list name shown in a task's row: in the today view, which mixes
/// lists, the name of the task's list; otherwise none.
pub fn row_tag(a: &App, t: &Task) -> (r: Option<String>)
    ensures
        opt_view(r) == (if a.viewing_today {
            Some(list_name_of(a.lists@, t.list_id@, 0))
        } else {
            None
        }),
{
    if a.viewing_today {
        Some(a.list_name_for_id(t.list_id.as_str()))
    } else {
        None
    }
}

/// The pieces of a task's row: selection mark, priority, checkbox, content,
/// the list's name (when given), due time, recurrence, ping countdown and a
/// mark for a note; a done task shows fewer of them, faded.
pub fn task_row(t: &Task, selected: bool, tag: Option<&str>, now: i64) -> (r: Vec<Piece>)
    requires
        row_ok(*t),
    ensures
        pieces_are(
            r@,
            row_pieces(
                *t,
                selected,
                match tag {
                    Some(n) => Some(n@),
                    None => None,
                },
                now,
            ),
        ),
{
    let ghost tagv = match tag {
        Some(n) => Some(n@),
        None => None::<Seq<char>>,
    };
    let mut out = if selected {
        one(vec![' ', '\u{25b8}', ' '], Tone::Accent, true, false)
    } else {
        one(vec![' ', ' ', ' '], Tone::Text, false, false)
    };
    append(&mut out, pri_pieces(t), Ghost(sel_segment(selected)), Ghost(pri_segment(*t)));
    let ghost s2 = sel_segment(selected) + pri_segment(*t);
    let check = if t.completed {
        one(vec!['\u{2713}', ' '], Tone::Accent, false, false)
    } else {
        one(vec!['\u{25cb}', ' '], Tone::Dim, false, false)
    };
    append(&mut out, check, Ghost(s2), Ghost(check_segment(*t)));
    let ghost s3 = s2 + check_segment(*t);
    let content = if t.completed {
        one(chars_of(t.content.as_str()), Tone::Faint, false, true)
    } else {
        one(chars_of(t.content.as_str()), Tone::Text, selected, false)
    };
    append(&mut out, content, Ghost(s3), Ghost(content_segment(*t, selected)));
    let ghost s4 = s3 + content_segment(*t, selected);
    let tag_p = match tag {
        Some(n) => one(text_of(&[' ', ' '], n), Tone::Faint, false, false),
        None => Vec::new(),
    };
    append(&mut out, tag_p, Ghost(s4), Ghost(tag_segment(tagv)));
    let ghost s5 = s4 + tag_segment(tagv);
    append(&mut out, due_pieces(t, now), Ghost(s5), Ghost(due_segment(*t, now)));
    let ghost s6 = s5 + due_segment(*t, now);
    let rec = match &t.recurrence {
        Some(r) => if !t.completed {
            one(text_of(&[' ', ' '], r.as_str()), Tone::Accent, false, false)
        } else {
            Vec::new()
        },
        None => Vec::new(),
    };
    append(&mut out, rec, Ghost(s6), Ghost(rec_segment(*t)));
    let ghost s7 = s6 + rec_segment(*t);
    append(&mut out, ping_pieces(t, now), Ghost(s7), Ghost(ping_segment(*t, now)));
    let ghost s8 = s7 + ping_segment(*t, now);
    let note = if t.note.is_some() && !t.completed {
        one(vec![' ', ' ', '+'], Tone::Faint, false, false)
    } else {
        Vec::new()
    };
    append(&mut out, note, Ghost(s8), Ghost(note_segment(*t)));
    out
}

// ======================= the detail pane =======================

/// A described piece of the detail pane: its text (`None` for a due time's
/// text, which is left open) and tone; it is never bold or crossed out.
pub type DetailSpec = (Option<Seq<char>>, Tone);

pub open spec fn detail_piece_is(p: Piece, d: DetailSpec) -> bool {
    &&& p.fg == d.1
    &&& p.bg is None
    &&& !p.bold
    &&& !p.crossed
    &&& match d.0 {
        Some(text) => p.text@ == text,
        None => exists|a: bool, b: bool, w: Seq<char>, x: Seq<char>|
            p.text@ == #[trigger] due_date_text(a, b, w, x),
    }
}

pub open spec fn details_are(ps: Seq<Piece>, ds: Seq<DetailSpec>) -> bool {
    ps.len() == ds.len() && forall|k: int| 0 <= k < ds.len() ==> detail_piece_is(#[trigger] ps[k], ds[k])
}

/// The first line of a task's details: its list, due time and priority.
pub open spec fn detail_first(t: Task, list: Seq<char>, now: i64) -> Seq<DetailSpec> {
    seq![(Some(seq![' ', ' ', 'l', 'i', 's', 't', ':', ' ']), Tone::Dim), (Some(list), Tone::Light)]
        + match t.due_at {
        Some(d) => seq![
            (Some(seq![' ', ' ', 'd', 'u', 'e', ':', ' ']), Tone::Dim),
            (
                None,
                if d < now {
                    Tone::Danger
                } else {
                    Tone::Warn
                },
            ),
        ],
        None => Seq::empty(),
    } + match t.priority {
        Some(p) => seq![
            (Some(seq![' ', ' ', 'p', 'r', 'i', ':', ' ']), Tone::Dim),
            (Some(priority_label(p)), priority_tone(p)),
        ],
        None => Seq::empty(),
    }
}

/// The second line: the ping interval with its countdown, and the
/// recurrence.
pub open spec fn detail_second(t: Task, now: i64) -> Seq<DetailSpec> {
    seq![(Some(seq![' ', ' ']), Tone::Dim)] + match t.ping_interval {
        Some(i) => seq![
            (Some(seq!['p', 'i', 'n', 'g', ':', ' ']), Tone::Dim),
            (Some(seq!['e', 'v', 'e', 'r', 'y', ' '] + ping_interval_text(i as int)), Tone::Blue),
        ] + match countdown_text(t.last_ping_at, t.ping_interval, t.due_at, now as int) {
            Some(c) => seq![(Some(seq![' ', '('] + c + seq![')']), Tone::Accent)],
            None => Seq::empty(),
        } + seq![(Some(seq![' ', ' ']), Tone::Dim)],
        None => Seq::empty(),
    } + match t.recurrence {
        Some(r) => seq![
            (Some(seq!['r', 'e', 'c', 'u', 'r', 's', ':', ' ']), Tone::Dim),
            (Some(r@), Tone::Accent),
        ],
        None => Seq::empty(),
    }
}

/// The third line: the note, or `(no note)`.
pub open spec fn detail_third(t: Task) -> Seq<DetailSpec> {
    seq![(Some(seq![' ', ' ', 'n', 'o', 't', 'e', ':', ' ']), Tone::Dim)] + match t.note {
        Some(n) => seq![(Some(n@), Tone::Light)],
        None => seq![(Some(seq!['(', 'n', 'o', ' ', 'n', 'o', 't', 'e', ')']), Tone::Dim)],
    }
}

fn dpiece(text: Vec<char>, tone: Tone) -> (r: Vec<Piece>)
    ensures
        details_are(r@, seq![(Some(text@), tone)]),
{
    let mut out: Vec<Piece> = Vec::new();
    out.push(Piece { text: string_of(&text), fg: tone, bg: None, bold: false, crossed: false });
    out
}

fn dappend(out: &mut Vec<Piece>, more: Vec<Piece>, Ghost(a): Ghost<Seq<DetailSpec>>, Ghost(b): Ghost<Seq<DetailSpec>>)
    requires
        details_are(old(out)@, a),
        details_are(more@, b),
    ensures
        details_are(final(out)@, a + b),
{
    let mut more = more;
    let ghost start = out@;
    let ghost m = more@;
    out.append(&mut more);
    proof {
        assert(out@ == start + m);
        assert forall|k: int| 0 <= k < (a + b).len() implies detail_piece_is(#[trigger] out@[k], (a + b)[k]) by {
            if k < a.len() {
                assert(out@[k] == start[k]);
            } else {
                assert(out@[k] == m[k - a.len()]);
            }
        }
    }
}

/// The three lines of the detail pane for task `t` in the list named
/// `list`, at time `now`.
pub fn task_details(t: &Task, list: &str, now: i64) -> (r: (Vec<Piece>, Vec<Piece>, Vec<Piece>))
    requires
        row_ok(*t),
    ensures
        details_are(r.0@, detail_first(*t, list@, now)),
        details_are(r.1@, detail_second(*t, now)),
        details_are(r.2@, detail_third(*t)),
{
    // the list, due time and priority
    let mut first = dpiece(vec![' ', ' ', 'l', 'i', 's', 't', ':', ' '], Tone::Dim);
    let ghost s1 = seq![(Some(seq![' ', ' ', 'l', 'i', 's', 't', ':', ' ']), Tone::Dim)];
    let ghost g1: Seq<DetailSpec> = seq![(Some(list@), Tone::Light)];
    dappend(&mut first, dpiece(chars_of(list), Tone::Light), Ghost(s1), Ghost(g1));
    let ghost s2 = s1 + seq![(Some(list@), Tone::Light)];
    let ghost due_spec = match t.due_at {
        Some(d) => seq![
            (Some(seq![' ', ' ', 'd', 'u', 'e', ':', ' ']), Tone::Dim),
            (
                None,
                if d < now {
                    Tone::Danger
                } else {
                    Tone::Warn
                },
            ),
        ],
        None => Seq::<DetailSpec>::empty(),
    };
    let due = match t.due_at {
        Some(d) => {
            let mut v = dpiece(vec![' ', ' ', 'd', 'u', 'e', ':', ' '], Tone::Dim);
            let tone = if d < now {
                Tone::Danger
            } else {
                Tone::Warn
            };
            let when = format_due_date(d);
            v.push(Piece { text: when, fg: tone, bg: None, bold: false, crossed: false });
            proof {
                assert(detail_piece_is(v@[1], due_spec[1]));
                assert(detail_piece_is(v@[0], due_spec[0]));
            }
            v
        },
        None => Vec::new(),
    };
    dappend(&mut first, due, Ghost(s2), Ghost(due_spec));
    let ghost s3 = s2 + due_spec;
    let ghost pri_spec = match t.priority {
        Some(p) => seq![
            (Some(seq![' ', ' ', 'p', 'r', 'i', ':', ' ']), Tone::Dim),
            (Some(priority_label(p)), priority_tone(p)),
        ],
        None => Seq::<DetailSpec>::empty(),
    };
    let pri = match t.priority {
        Some(p) => {
            let mut v = dpiece(vec![' ', ' ', 'p', 'r', 'i', ':', ' '], Tone::Dim);
            let tone = if p == 1 {
                Tone::Danger
            } else if p == 2 {
                Tone::Warn
            } else if p == 3 {
                Tone::Blue
            } else {
                Tone::Dim
            };
            let label = text_of(&[], crate::parser::format_priority(p));
            let ghost g2: Seq<DetailSpec> = seq![(Some(seq![' ', ' ', 'p', 'r', 'i', ':', ' ']), Tone::Dim)];
            let ghost g3: Seq<DetailSpec> = seq![(Some(priority_label(p)), priority_tone(p))];
            dappend(
                &mut v,
                dpiece(label, tone),
                Ghost(g2),
                Ghost(g3),
            );
            v
        },
        None => Vec::new(),
    };
    dappend(&mut first, pri, Ghost(s3), Ghost(pri_spec));
    assert(s3 + pri_spec =~= detail_first(*t, list@, now));

    // the ping and the recurrence
    let mut second = dpiece(vec![' ', ' '], Tone::Dim);
    let ghost p1 = seq![(Some(seq![' ', ' ']), Tone::Dim)];
    let ghost ping_spec = match t.ping_interval {
        Some(i) => seq![
            (Some(seq!['p', 'i', 'n', 'g', ':', ' ']), Tone::Dim),
            (Some(seq!['e', 'v', 'e', 'r', 'y', ' '] + ping_interval_text(i as int)), Tone::Blue),
        ] + match countdown_text(t.last_ping_at, t.ping_interval, t.due_at, now as int) {
            Some(c) => seq![(Some(seq![' ', '('] + c + seq![')']), Tone::Accent)],
            None => Seq::empty(),
        } + seq![(Some(seq![' ', ' ']), Tone::Dim)],
        None => Seq::<DetailSpec>::empty(),
    };
    let ping = match t.ping_interval {
        Some(i) => {
            let mut v = dpiece(vec!['p', 'i', 'n', 'g', ':', ' '], Tone::Dim);
            let every = text_of(&['e', 'v', 'e', 'r', 'y', ' '], format_ping_interval(i).as_str());
            let ghost e1 = seq![(Some(seq!['p', 'i', 'n', 'g', ':', ' ']), Tone::Dim)];
            let ghost e2 = seq![(Some(seq!['e', 'v', 'e', 'r', 'y', ' '] + ping_interval_text(i as int)), Tone::Blue)];
            dappend(&mut v, dpiece(every, Tone::Blue), Ghost(e1), Ghost(e2));
            let ghost cd_spec = match countdown_text(t.last_ping_at, t.ping_interval, t.due_at, now as int) {
                Some(c) => seq![(Some(seq![' ', '('] + c + seq![')']), Tone::Accent)],
                None => Seq::<DetailSpec>::empty(),
            };
            let cd = match ping_countdown_at(t.last_ping_at, t.ping_interval, t.due_at, now) {
                Some(c) => {
                    let mut w = text_of(&[' ', '('], c.as_str());
                    w.push(')');
                    assert(w@ =~= seq![' ', '('] + c@ + seq![')']);
                    let r = dpiece(w, Tone::Accent);
                    assert(cd_spec == seq![(Some(seq![' ', '('] + c@ + seq![')']), Tone::Accent)]);
                    r
                },
                None => Vec::new(),
            };
            dappend(&mut v, cd, Ghost(e1 + e2), Ghost(cd_spec));
            let ghost g4: Seq<DetailSpec> = seq![(Some(seq![' ', ' ']), Tone::Dim)];
            dappend(&mut v, dpiece(vec![' ', ' '], Tone::Dim), Ghost(e1 + e2 + cd_spec), Ghost(g4));
            assert(e1 + e2 + cd_spec + seq![(Some(seq![' ', ' ']), Tone::Dim)] =~= ping_spec);
            v
        },
        None => Vec::new(),
    };
    dappend(&mut second, ping, Ghost(p1), Ghost(ping_spec));
    let ghost p2 = p1 + ping_spec;
    let ghost rec_spec = match &t.recurrence {
        Some(r) => seq![
            (Some(seq!['r', 'e', 'c', 'u', 'r', 's', ':', ' ']), Tone::Dim),
            (Some(r@), Tone::Accent),
        ],
        None => Seq::<DetailSpec>::empty(),
    };
    let rec = match &t.recurrence {
        Some(r) => {
            let mut v = dpiece(vec!['r', 'e', 'c', 'u', 'r', 's', ':', ' '], Tone::Dim);
            let ghost g5: Seq<DetailSpec> = seq![(Some(seq!['r', 'e', 'c', 'u', 'r', 's', ':', ' ']), Tone::Dim)];
            let ghost g6: Seq<DetailSpec> = seq![(Some(r@), Tone::Accent)];
            dappend(
                &mut v,
                dpiece(chars_of(r.as_str()), Tone::Accent),
                Ghost(g5),
                Ghost(g6),
            );
            v
        },
        None => Vec::new(),
    };
    dappend(&mut second, rec, Ghost(p2), Ghost(rec_spec));
    assert(p2 + rec_spec =~= detail_second(*t, now));

    // the note
    let mut third = dpiece(vec![' ', ' ', 'n', 'o', 't', 'e', ':', ' '], Tone::Dim);
    let ghost n1 = seq![(Some(seq![' ', ' ', 'n', 'o', 't', 'e', ':', ' ']), Tone::Dim)];
    match &t.note {
        Some(n) => {
            let ghost g7: Seq<DetailSpec> = seq![(Some(n@), Tone::Light)];
            dappend(&mut third, dpiece(chars_of(n.as_str()), Tone::Light), Ghost(n1), Ghost(g7));
        },
        None => {
            let ghost g8: Seq<DetailSpec> = seq![(Some(seq!['(', 'n', 'o', ' ', 'n', 'o', 't', 'e', ')']), Tone::Dim)];
            dappend(
                &mut third,
                dpiece(vec!['(', 'n', 'o', ' ', 'n', 'o', 't', 'e', ')'], Tone::Dim),
                Ghost(n1),
                Ghost(g8),
            );
        },
    }
    assert(third@.len() == detail_third(*t).len());
    (first, second, third)
}

} // verus!
