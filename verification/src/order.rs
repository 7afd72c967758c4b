//! The orders in which tasks are listed, and a verified insertion sort.
use vstd::prelude::*;

use crate::db::{copy_task, Task};

verus! {

broadcast use vstd::seq_lib::group_to_multiset_ensures;

/// Lexicographic order of texts by code point (SQLite's `BINARY` collation on
/// UTF-8 text orders the same way).
pub open spec fn text_le(a: Seq<char>, b: Seq<char>) -> bool
    decreases a.len(),
{
    if a.len() == 0 {
        true
    } else if b.len() == 0 {
        false
    } else if (a[0] as u32) < (b[0] as u32) {
        true
    } else if (a[0] as u32) > (b[0] as u32) {
        false
    } else {
        text_le(a.drop_first(), b.drop_first())
    }
}

/// A missing priority sorts after every level (`COALESCE(priority, 4)`).
pub open spec fn priority_rank(p: Option<u8>) -> int {
    match p {
        Some(v) => v as int,
        None => 4,
    }
}

pub open spec fn triple_le(a: (int, int, int), b: (int, int, int)) -> bool {
    a.0 < b.0 || (a.0 == b.0 && (a.1 < b.1 || (a.1 == b.1 && a.2 <= b.2)))
}

/// `completed ASC, COALESCE(priority,4) ASC, sort_order ASC`
pub open spec fn list_key(t: Task) -> (int, int, int) {
    (if t.completed {
        1
    } else {
        0
    }, priority_rank(t.priority), t.sort_order as int)
}

/// `completed ASC, COALESCE(priority,4) ASC, due_at ASC`
pub open spec fn due_key(t: Task) -> (int, int, int) {
    (if t.completed {
        1
    } else {
        0
    }, priority_rank(t.priority), match t.due_at {
        Some(d) => d as int,
        None => 0,
    })
}

/// The orders: `0` within a list, `1` across all lists (by list id first),
/// `2` by due time.
pub open spec fn task_le(kind: u8, a: Task, b: Task) -> bool {
    if kind == 0 {
        triple_le(list_key(a), list_key(b))
    } else if kind == 1 {
        if a.list_id@ == b.list_id@ {
            triple_le(list_key(a), list_key(b))
        } else {
            text_le(a.list_id@, b.list_id@)
        }
    } else {
        triple_le(due_key(a), due_key(b))
    }
}

pub open spec fn sorted_by(kind: u8, s: Seq<Task>) -> bool {
    forall|i: int, j: int| 0 <= i < j < s.len() ==> task_le(kind, #[trigger] s[i], #[trigger] s[j])
}

// ---------- total preorder ----------

pub proof fn lemma_text_le_total(a: Seq<char>, b: Seq<char>)
    ensures
        text_le(a, b) || text_le(b, a),
    decreases a.len(),
{
    if a.len() > 0 && b.len() > 0 && (a[0] as u32) == (b[0] as u32) {
        lemma_text_le_total(a.drop_first(), b.drop_first());
    }
}

pub proof fn lemma_text_le_trans(a: Seq<char>, b: Seq<char>, c: Seq<char>)
    requires
        text_le(a, b),
        text_le(b, c),
    ensures
        text_le(a, c),
    decreases a.len(),
{
    if a.len() > 0 && b.len() > 0 && c.len() > 0 && (a[0] as u32) == (b[0] as u32) && (b[0] as u32)
        == (c[0] as u32) {
        lemma_text_le_trans(a.drop_first(), b.drop_first(), c.drop_first());
    }
}

pub proof fn lemma_text_le_antisym(a: Seq<char>, b: Seq<char>)
    requires
        text_le(a, b),
        text_le(b, a),
    ensures
        a == b,
    decreases a.len(),
{
    if a.len() > 0 && b.len() > 0 {
        lemma_text_le_antisym(a.drop_first(), b.drop_first());
        vstd::utf8::char_u32_cast(a[0], a[0] as u32);
        vstd::utf8::char_u32_cast(b[0], b[0] as u32);
        assert(a[0] == b[0]);
        assert(a =~= seq![a[0]] + a.drop_first());
        assert(b =~= seq![b[0]] + b.drop_first());
    }
}

pub proof fn lemma_task_le_total(kind: u8, a: Task, b: Task)
    ensures
        task_le(kind, a, b) || task_le(kind, b, a),
{
    if kind == 1 && a.list_id@ != b.list_id@ {
        lemma_text_le_total(a.list_id@, b.list_id@);
    }
}

pub proof fn lemma_task_le_trans(kind: u8, a: Task, b: Task, c: Task)
    requires
        task_le(kind, a, b),
        task_le(kind, b, c),
    ensures
        task_le(kind, a, c),
{
    if kind == 1 {
        if a.list_id@ != b.list_id@ && b.list_id@ != c.list_id@ {
            lemma_text_le_trans(a.list_id@, b.list_id@, c.list_id@);
            if a.list_id@ == c.list_id@ {
                lemma_text_le_antisym(a.list_id@, b.list_id@);
            }
        } else if a.list_id@ != b.list_id@ {
            assert(b.list_id@ == c.list_id@);
        } else if b.list_id@ != c.list_id@ {
            assert(a.list_id@ == b.list_id@);
        }
    }
}

// ---------- executable comparisons ----------

fn text_le_exec(a: &str, b: &str) -> (r: bool)
    ensures
        r == text_le(a@, b@),
{
    let av = crate::text::chars_of(a);
    let bv = crate::text::chars_of(b);
    let mut i: usize = 0;
    proof {
        assert(av@.subrange(0, av@.len() as int) =~= av@);
        assert(bv@.subrange(0, bv@.len() as int) =~= bv@);
    }
    loop
        invariant
            av@ == a@,
            bv@ == b@,
            i <= av.len(),
            i <= bv.len(),
            text_le(av@, bv@) == text_le(av@.subrange(i as int, av@.len() as int), bv@.subrange(
                i as int,
                bv@.len() as int,
            )),
        decreases av.len() - i,
    {
        let ghost sa = av@.subrange(i as int, av@.len() as int);
        let ghost sb = bv@.subrange(i as int, bv@.len() as int);
        if i == av.len() {
            return true;
        }
        if i == bv.len() {
            return false;
        }
        let x = av[i] as u32;
        let y = bv[i] as u32;
        assert(sa[0] == av@[i as int] && sb[0] == bv@[i as int]);
        if x < y {
            return true;
        }
        if x > y {
            return false;
        }
        assert(sa.drop_first() =~= av@.subrange(i + 1, av@.len() as int));
        assert(sb.drop_first() =~= bv@.subrange(i + 1, bv@.len() as int));
        i += 1;
    }
}

fn key_of(kind: u8, t: &Task) -> (r: (i64, i64, i64))
    ensures
        kind >= 2 ==> (r.0 as int, r.1 as int, r.2 as int) == due_key(*t),
        kind < 2 ==> (r.0 as int, r.1 as int, r.2 as int) == list_key(*t),
{
    let c: i64 = if t.completed {
        1
    } else {
        0
    };
    let p: i64 = match t.priority {
        Some(v) => v as i64,
        None => 4,
    };
    let last: i64 = if kind >= 2 {
        match t.due_at {
            Some(d) => d,
            None => 0,
        }
    } else {
        t.sort_order
    };
    (c, p, last)
}

/// Executable `task_le`.
pub fn task_le_exec(kind: u8, a: &Task, b: &Task) -> (r: bool)
    ensures
        r == task_le(kind, *a, *b),
{
    let ka = key_of(kind, a);
    let kb = key_of(kind, b);
    let triple = ka.0 < kb.0 || (ka.0 == kb.0 && (ka.1 < kb.1 || (ka.1 == kb.1 && ka.2 <= kb.2)));
    if kind == 1 {
        let av = crate::text::chars_of(a.list_id.as_str());
        let bv = crate::text::chars_of(b.list_id.as_str());
        let eq = same_chars(&av, &bv);
        if eq {
            triple
        } else {
            text_le_exec(a.list_id.as_str(), b.list_id.as_str())
        }
    } else {
        triple
    }
}

/// Whether two character vectors are equal.
pub fn same_chars(a: &Vec<char>, b: &Vec<char>) -> (r: bool)
    ensures
        r == (a@ == b@),
{
    if a.len() != b.len() {
        return false;
    }
    let mut i: usize = 0;
    while i < a.len()
        invariant
            i <= a.len(),
            a.len() == b.len(),
            forall|k: int| 0 <= k < i ==> a@[k] == b@[k],
        decreases a.len() - i,
    {
        if a[i] != b[i] {
            return false;
        }
        i += 1;
    }
    assert(a@ =~= b@);
    true
}

/// Sorts tasks by the order `kind` (stable insertion sort).
pub fn sort_tasks(kind: u8, v: Vec<Task>) -> (r: Vec<Task>)
    ensures
        sorted_by(kind, r@),
        r@.to_multiset() == v@.to_multiset(),
        r@.len() == v@.len(),
{
    let mut out: Vec<Task> = Vec::new();
    let mut i: usize = 0;
    while i < v.len()
        invariant
            i <= v.len(),
            sorted_by(kind, out@),
            out@.to_multiset() == v@.subrange(0, i as int).to_multiset(),
            out@.len() == i,
        decreases v.len() - i,
    {
        let x = copy_task(&v[i]);
        let mut p: usize = 0;
        while p < out.len() && task_le_exec(kind, &out[p], &x)
            invariant
                p <= out.len(),
                forall|k: int| 0 <= k < p ==> task_le(kind, #[trigger] out@[k], x),
            decreases out.len() - p,
        {
            p += 1;
        }
        proof {
            assert forall|k: int| p <= k < out@.len() implies task_le(kind, x, #[trigger] out@[k]) by {
                lemma_task_le_total(kind, out@[p as int], x);
                if k > p {
                    lemma_task_le_trans(kind, x, out@[p as int], out@[k]);
                }
            }
        }
        let ghost before = out@;
        out.insert(p, x);
        proof {
            assert(out@ == before.insert(p as int, x));
            assert forall|a: int, b: int| 0 <= a < b < out@.len() implies task_le(
                kind,
                #[trigger] out@[a],
                #[trigger] out@[b],
            ) by {
                if a < p && b == p {
                } else if a < p && b > p {
                    assert(out@[b] == before[b - 1]);
                } else if a == p {
                    assert(out@[b] == before[b - 1]);
                } else if a > p {
                    assert(out@[a] == before[a - 1]);
                    assert(out@[b] == before[b - 1]);
                }
            }
            assert(v@.subrange(0, i + 1) == v@.subrange(0, i as int).push(v@[i as int]));
        }
        i += 1;
    }
    proof {
        assert(v@.subrange(0, v@.len() as int) == v@);
    }
    out
}

} // verus!
