//! Byte offsets into UTF-8 text. The input line keeps its cursor as a byte
//! offset, as `String` does; these functions relate such offsets to
//! character positions.
use vstd::prelude::*;
use vstd::utf8::{encode_scalar, encode_utf8};

use crate::text::{is_ws, is_ws_char, ws_start};

verus! {

/// The number of bytes of `c` in UTF-8.
pub open spec fn width(c: char) -> int {
    encode_scalar(c as u32).len() as int
}

/// The number of bytes of `s` in UTF-8.
pub open spec fn byte_len(s: Seq<char>) -> int {
    encode_utf8(s).len() as int
}

/// The character index at byte offset `pos` of `s`, when `pos` falls on a
/// character boundary.
pub open spec fn char_at_byte(s: Seq<char>, pos: int) -> Option<int>
    decreases s.len(),
{
    if pos == 0 {
        Some(0)
    } else if s.len() == 0 || pos < width(s[0]) {
        None
    } else {
        match char_at_byte(s.drop_first(), pos - width(s[0])) {
            Some(k) => Some(k + 1),
            None => None,
        }
    }
}

pub open spec fn shifted(o: Option<int>, by: int) -> Option<int> {
    match o {
        Some(k) => Some(k + by),
        None => None,
    }
}

pub proof fn lemma_width(c: char)
    ensures
        1 <= width(c) <= 4,
        width(c) == 1 <==> (c as u32) <= 0x7F,
{
    vstd::utf8::char_is_scalar(c);
}

pub proof fn lemma_byte_len_concat(a: Seq<char>, b: Seq<char>)
    ensures
        byte_len(a + b) == byte_len(a) + byte_len(b),
    decreases a.len(),
{
    if a.len() == 0 {
        assert(a + b =~= b);
    } else {
        lemma_byte_len_concat(a.drop_first(), b);
        assert((a + b).drop_first() =~= a.drop_first() + b);
        assert((a + b)[0] == a[0]);
    }
}

pub proof fn lemma_byte_len_one(c: char)
    ensures
        byte_len(seq![c]) == width(c),
{
    assert(seq![c].drop_first() =~= Seq::<char>::empty());
    assert(encode_utf8(Seq::<char>::empty()) =~= Seq::<u8>::empty());
    assert(encode_utf8(seq![c]) == encode_scalar(c as u32) + encode_utf8(seq![c].drop_first()));
    assert(encode_scalar(c as u32) + Seq::<u8>::empty() =~= encode_scalar(c as u32));
}

pub proof fn lemma_byte_len_push(s: Seq<char>, c: char)
    ensures
        byte_len(s.push(c)) == byte_len(s) + width(c),
{
    lemma_byte_len_concat(s, seq![c]);
    lemma_byte_len_one(c);
    assert(s + seq![c] =~= s.push(c));
}

pub proof fn lemma_byte_len_take(s: Seq<char>, k: int)
    requires
        0 <= k < s.len(),
    ensures
        byte_len(s.take(k + 1)) == byte_len(s.take(k)) + width(s[k]),
{
    assert(s.take(k + 1) =~= s.take(k).push(s[k]));
    lemma_byte_len_push(s.take(k), s[k]);
}

pub proof fn lemma_byte_len_split(s: Seq<char>, k: int)
    requires
        0 <= k <= s.len(),
    ensures
        byte_len(s) == byte_len(s.take(k)) + byte_len(s.skip(k)),
        byte_len(s.take(k)) <= byte_len(s),
{
    assert(s =~= s.take(k) + s.skip(k));
    lemma_byte_len_concat(s.take(k), s.skip(k));
}

/// A boundary found by `char_at_byte` is where the first `k` characters end.
pub proof fn lemma_char_at_byte_sound(s: Seq<char>, pos: int)
    requires
        char_at_byte(s, pos) is Some,
    ensures
        0 <= char_at_byte(s, pos)->0 <= s.len(),
        byte_len(s.take(char_at_byte(s, pos)->0)) == pos,
    decreases s.len(),
{
    if pos == 0 {
        assert(s.take(0) =~= Seq::<char>::empty());
    } else {
        let w = width(s[0]);
        lemma_char_at_byte_sound(s.drop_first(), pos - w);
        let k = char_at_byte(s.drop_first(), pos - w)->0;
        assert(s.take(k + 1) =~= seq![s[0]] + s.drop_first().take(k));
        lemma_byte_len_concat(seq![s[0]], s.drop_first().take(k));
        lemma_byte_len_one(s[0]);
    }
}

/// The end of the first `k` characters is a boundary, found at `k`.
pub proof fn lemma_char_at_byte_complete(s: Seq<char>, k: int)
    requires
        0 <= k <= s.len(),
    ensures
        char_at_byte(s, byte_len(s.take(k))) == Some(k),
    decreases k,
{
    if k == 0 {
        assert(s.take(0) =~= Seq::<char>::empty());
    } else {
        lemma_char_at_byte_complete(s.drop_first(), k - 1);
        assert(s.take(k) =~= seq![s[0]] + s.drop_first().take(k - 1));
        lemma_byte_len_concat(seq![s[0]], s.drop_first().take(k - 1));
        lemma_byte_len_one(s[0]);
        lemma_width(s[0]);
    }
}

/// The index of the last whitespace character before position `j`, or -1.
pub open spec fn last_ws(s: Seq<char>, j: int) -> int
    decreases j,
{
    if j <= 0 || j > s.len() {
        -1
    } else if is_ws(s[j - 1]) {
        j - 1
    } else {
        last_ws(s, j - 1)
    }
}

pub proof fn lemma_last_ws(s: Seq<char>, j: int)
    requires
        0 <= j <= s.len(),
    ensures
        -1 <= last_ws(s, j) < j,
        last_ws(s, j) >= 0 ==> is_ws(s[last_ws(s, j)]),
        forall|t: int| last_ws(s, j) < t < j ==> !is_ws(#[trigger] s[t]),
    decreases j,
{
    if j > 0 && !is_ws(s[j - 1]) {
        lemma_last_ws(s, j - 1);
    }
}

/// Executable `width`: `char::len_utf8`.
pub fn char_width(c: char) -> (r: usize)
    ensures
        r == width(c),
{
    proof {
        vstd::utf8::char_is_scalar(c);
    }
    let v = c as u32;
    if v <= 0x7F {
        1
    } else if v <= 0x7FF {
        2
    } else if v <= 0xFFFF {
        3
    } else {
        4
    }
}

/// The character index at byte offset `pos` of `s`, if `pos` is a boundary.
pub fn char_index(s: &Vec<char>, pos: usize) -> (r: Option<usize>)
    ensures
        match r {
            Some(k) => char_at_byte(s@, pos as int) == Some(k as int),
            None => char_at_byte(s@, pos as int) is None,
        },
{
    let mut i: usize = 0;
    let mut acc: usize = 0;
    proof {
        assert(s@.skip(0) =~= s@);
    }
    while acc < pos && i < s.len()
        invariant
            i <= s.len(),
            acc <= pos,
            char_at_byte(s@, pos as int) == shifted(
                char_at_byte(s@.skip(i as int), pos - acc),
                i as int,
            ),
        decreases s.len() - i,
    {
        let w = char_width(s[i]);
        assert(s@.skip(i as int)[0] == s@[i as int]);
        if pos - acc < w {
            return None;
        }
        assert(s@.skip(i as int).drop_first() =~= s@.skip(i + 1));
        acc += w;
        i += 1;
    }
    if acc == pos {
        Some(i)
    } else {
        assert(s@.skip(i as int).len() == 0);
        None
    }
}

/// The index of the last whitespace character before position `j`.
pub fn last_ws_exec(s: &Vec<char>, j: usize) -> (r: Option<usize>)
    requires
        j <= s.len(),
    ensures
        match r {
            Some(t) => last_ws(s@, j as int) == t,
            None => last_ws(s@, j as int) == -1,
        },
{
    let mut k = j;
    while k > 0
        invariant
            k <= j <= s.len(),
            last_ws(s@, j as int) == last_ws(s@, k as int),
        decreases k,
    {
        if is_ws_char(s[k - 1]) {
            return Some(k - 1);
        }
        k -= 1;
    }
    None
}

/// Executable `ws_start`: where the trailing whitespace of `s[..j]` begins.
pub fn ws_start_exec(s: &Vec<char>, j: usize) -> (r: usize)
    requires
        j <= s.len(),
    ensures
        r == ws_start(s@, j as int),
        r <= j,
{
    let mut b = j;
    while b > 0 && is_ws_char(s[b - 1])
        invariant
            b <= j <= s.len(),
            ws_start(s@, b as int) == ws_start(s@, j as int),
        decreases b,
    {
        b -= 1;
    }
    b
}

} // verus!
