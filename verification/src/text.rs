//! Character classes and small text operations on `Seq<char>`, with
//! executable counterparts over `Vec<char>`.
use vstd::prelude::*;

verus! {

// ===================== character classes =====================

/// Unicode `White_Space`: what `char::is_whitespace`, `str::trim` and the
/// regex class `\s` accept.
pub open spec fn is_ws(c: char) -> bool {
    let v = c as u32;
    ||| (9 <= v && v <= 13)
    ||| v == 32
    ||| v == 0x85
    ||| v == 0xA0
    ||| v == 0x1680
    ||| (0x2000 <= v && v <= 0x200A)
    ||| v == 0x2028
    ||| v == 0x2029
    ||| v == 0x202F
    ||| v == 0x205F
    ||| v == 0x3000
}

/// An ASCII decimal digit.
pub open spec fn is_digit(c: char) -> bool {
    48 <= (c as u32) && (c as u32) <= 57
}

/// The value of an ASCII decimal digit.
pub open spec fn digit_val(c: char) -> int {
    (c as u32) - 48
}

/// The character of a decimal digit `d < 10`.
pub open spec fn digit_char(d: nat) -> char {
    (48 + d) as char
}

/// Case-insensitive match of `c` against the lower-case ASCII letter `l`,
/// under Unicode simple case folding (which also folds the Kelvin sign onto
/// `k` and the long s onto `s`).
pub open spec fn ci_eq(c: char, l: char) -> bool {
    ||| c == l
    ||| (c as u32) + 32 == (l as u32)
    ||| (l == 'k' && (c as u32) == 0x212A)
    ||| (l == 's' && (c as u32) == 0x17F)
}

/// Whether `regex_syntax::is_word_character` holds of `c` (the `\w` class
/// behind the regex word boundary `\b`).
pub uninterp spec fn regex_word_char(c: char) -> bool;

/// `regex_syntax::is_word_character`: whether `c` is a Unicode word
/// character (Alphabetic, Join_Control, Decimal_Number, Mark or
/// Connector_Punctuation). The contract names the result and states the
/// ASCII part of the definition that the crate's documentation gives.
#[verifier::external_body]
pub(crate) fn word_char(c: char) -> (b: bool)
    ensures
        b == regex_word_char(c),
        (c as u32) < 128 ==> (b <==> (is_digit(c) || c == '_' || (65 <= (c as u32) && (c as u32)
            <= 90) || (97 <= (c as u32) && (c as u32) <= 122))),
{
    regex_syntax::is_word_character(c)
}

/// Executable `is_ws`.
pub fn is_ws_char(c: char) -> (b: bool)
    ensures
        b == is_ws(c),
{
    let v = c as u32;
    (9 <= v && v <= 13) || v == 32 || v == 0x85 || v == 0xA0 || v == 0x1680 || (0x2000 <= v && v
        <= 0x200A) || v == 0x2028 || v == 0x2029 || v == 0x202F || v == 0x205F || v == 0x3000
}

/// Executable `is_digit`.
pub fn is_digit_char(c: char) -> (b: bool)
    ensures
        b == is_digit(c),
{
    let v = c as u32;
    48 <= v && v <= 57
}

/// Executable `ci_eq`.
pub fn ci_eq_char(c: char, l: char) -> (b: bool)
    ensures
        b == ci_eq(c, l),
{
    let v = c as u32;
    let w = l as u32;
    c == l || (v as u64) + 32 == w as u64 || (l == 'k' && v == 0x212A) || (l == 's' && v == 0x17F)
}

// ===================== positions in a sequence =====================

/// Whether `c` is a word character of `\w`: for ASCII, a digit, `_` or a
/// letter; beyond ASCII, as `regex_syntax` decides.
pub open spec fn is_word_char(c: char) -> bool {
    if (c as u32) < 128 {
        is_digit(c) || c == '_' || (65 <= (c as u32) && (c as u32) <= 90) || (97 <= (c as u32) && (c as u32)
            <= 122)
    } else {
        regex_word_char(c)
    }
}

/// Whether position `k` of `s` holds a word character.
pub open spec fn word_at(s: Seq<char>, k: int) -> bool {
    0 <= k < s.len() && is_word_char(s[k])
}

/// The regex assertion `\b` at position `k`.
pub open spec fn boundary(s: Seq<char>, k: int) -> bool {
    word_at(s, k - 1) != word_at(s, k)
}

/// End of the maximal run of whitespace starting at `i`.
pub open spec fn ws_end(s: Seq<char>, i: int) -> int
    decreases s.len() - i,
{
    if 0 <= i < s.len() && is_ws(s[i]) {
        ws_end(s, i + 1)
    } else {
        i
    }
}

/// End of the maximal run of ASCII digits starting at `i`.
pub open spec fn digit_end(s: Seq<char>, i: int) -> int
    decreases s.len() - i,
{
    if 0 <= i < s.len() && is_digit(s[i]) {
        digit_end(s, i + 1)
    } else {
        i
    }
}

/// Start of the maximal run of whitespace ending at `j`.
pub open spec fn ws_start(s: Seq<char>, j: int) -> int
    decreases j,
{
    if 0 < j <= s.len() && is_ws(s[j - 1]) {
        ws_start(s, j - 1)
    } else {
        j
    }
}

/// The decimal value of the digits `s[i..j]`.
pub open spec fn digits_value(s: Seq<char>, i: int, j: int) -> int
    decreases j - i,
{
    if j <= i {
        0
    } else {
        digits_value(s, i, j - 1) * 10 + digit_val(s[j - 1])
    }
}

/// `s[i..]` starts with `kw` case-insensitively (`kw` lower-case ASCII letters).
pub open spec fn ci_at(s: Seq<char>, i: int, kw: Seq<char>) -> bool {
    &&& 0 <= i
    &&& i + kw.len() <= s.len()
    &&& forall|j: int| 0 <= j < kw.len() ==> ci_eq(#[trigger] s[i + j], kw[j])
}

pub proof fn lemma_ws_end_bounds(s: Seq<char>, i: int)
    requires
        0 <= i <= s.len(),
    ensures
        i <= ws_end(s, i) <= s.len(),
        ws_end(s, i) == s.len() || !is_ws(s[ws_end(s, i)]),
        forall|k: int| i <= k < ws_end(s, i) ==> is_ws(#[trigger] s[k]),
    decreases s.len() - i,
{
    if i < s.len() && is_ws(s[i]) {
        lemma_ws_end_bounds(s, i + 1);
    }
}

pub proof fn lemma_digit_end_bounds(s: Seq<char>, i: int)
    requires
        0 <= i <= s.len(),
    ensures
        i <= digit_end(s, i) <= s.len(),
        digit_end(s, i) == s.len() || !is_digit(s[digit_end(s, i)]),
        forall|k: int| i <= k < digit_end(s, i) ==> is_digit(#[trigger] s[k]),
    decreases s.len() - i,
{
    if i < s.len() && is_digit(s[i]) {
        lemma_digit_end_bounds(s, i + 1);
    }
}

pub proof fn lemma_ws_start_bounds(s: Seq<char>, j: int)
    requires
        0 <= j <= s.len(),
    ensures
        0 <= ws_start(s, j) <= j,
        ws_start(s, j) == 0 || !is_ws(s[ws_start(s, j) - 1]),
        forall|k: int| ws_start(s, j) <= k < j ==> is_ws(#[trigger] s[k]),
    decreases j,
{
    if 0 < j && is_ws(s[j - 1]) {
        lemma_ws_start_bounds(s, j - 1);
    }
}

/// Executable `word_at`.
pub fn word_at_exec(s: &Vec<char>, k: usize) -> (b: bool)
    ensures
        b == word_at(s@, k as int),
{
    if k < s.len() {
        word_char(s[k])
    } else {
        false
    }
}

/// Executable `boundary`.
pub fn boundary_exec(s: &Vec<char>, k: usize) -> (b: bool)
    ensures
        b == boundary(s@, k as int),
{
    let before = if k == 0 {
        false
    } else {
        word_at_exec(s, k - 1)
    };
    before != word_at_exec(s, k)
}

/// Executable `ws_end`.
pub fn skip_ws(s: &Vec<char>, i: usize) -> (j: usize)
    requires
        i <= s.len(),
    ensures
        j == ws_end(s@, i as int),
        i <= j <= s.len(),
{
    let mut j = i;
    while j < s.len() && is_ws_char(s[j])
        invariant
            i <= j <= s.len(),
            ws_end(s@, j as int) == ws_end(s@, i as int),
        decreases s.len() - j,
    {
        j += 1;
    }
    j
}

/// Executable `digit_end`.
pub fn skip_digits(s: &Vec<char>, i: usize) -> (j: usize)
    requires
        i <= s.len(),
    ensures
        j == digit_end(s@, i as int),
        i <= j <= s.len(),
{
    let mut j = i;
    while j < s.len() && is_digit_char(s[j])
        invariant
            i <= j <= s.len(),
            digit_end(s@, j as int) == digit_end(s@, i as int),
        decreases s.len() - j,
    {
        j += 1;
    }
    j
}

/// Executable `ci_at` against a keyword given as a character slice.
pub fn ci_at_exec(s: &Vec<char>, i: usize, kw: &[char]) -> (b: bool)
    ensures
        b == ci_at(s@, i as int, kw@),
{
    if i > s.len() || kw.len() > s.len() - i {
        return false;
    }
    let mut j: usize = 0;
    while j < kw.len()
        invariant
            j <= kw.len(),
            i + kw@.len() <= s@.len(),
            i + kw.len() <= s.len(),
            forall|t: int| 0 <= t < j ==> ci_eq(#[trigger] s@[i + t], kw@[t]),
        decreases kw.len() - j,
    {
        if !ci_eq_char(s[i + j], kw[j]) {
            assert(!ci_eq(s@[i + j as int], kw@[j as int]));
            return false;
        }
        j += 1;
    }
    true
}

/// Value of the digit run `s[i..j]`, or `None` when it exceeds `bound`.
pub fn digits_value_upto(s: &Vec<char>, i: usize, j: usize, bound: u64) -> (r: Option<u64>)
    requires
        i <= j <= s.len(),
        forall|k: int| i <= k < j ==> is_digit(#[trigger] s@[k]),
    ensures
        r matches Some(v) ==> v == digits_value(s@, i as int, j as int) && v <= bound,
        r is None ==> digits_value(s@, i as int, j as int) > bound,
{
    let mut acc: u64 = 0;
    let mut k = i;
    while k < j
        invariant
            i <= k <= j <= s.len(),
            forall|t: int| i <= t < j ==> is_digit(#[trigger] s@[t]),
            acc == digits_value(s@, i as int, k as int),
            acc <= bound,
        decreases j - k,
    {
        let d = (s[k] as u32 - 48) as u64;
        assert(is_digit(s@[k as int]));
        assert(digits_value(s@, i as int, k + 1) == acc * 10 + d);
        let next: u128 = acc as u128 * 10 + d as u128;
        if next > bound as u128 {
            proof {
                lemma_digits_value_mono(s@, i as int, k + 1, j as int);
            }
            return None;
        }
        acc = next as u64;
        k += 1;
    }
    Some(acc)
}

pub proof fn lemma_digits_value_mono(s: Seq<char>, i: int, k: int, j: int)
    requires
        i <= k <= j <= s.len(),
        forall|t: int| i <= t < j ==> is_digit(#[trigger] s[t]),
    ensures
        digits_value(s, i, k) <= digits_value(s, i, j),
    decreases j - k,
{
    if k < j {
        lemma_digits_value_mono(s, i, k, j - 1);
        assert(is_digit(s[j - 1]));
        assert(digits_value(s, i, j - 1) >= 0) by {
            lemma_digits_value_nonneg(s, i, j - 1);
        }
    }
}

pub proof fn lemma_digits_value_nonneg(s: Seq<char>, i: int, j: int)
    requires
        i <= j <= s.len(),
        forall|t: int| i <= t < j ==> is_digit(#[trigger] s[t]),
    ensures
        digits_value(s, i, j) >= 0,
    decreases j - i,
{
    if i < j {
        lemma_digits_value_nonneg(s, i, j - 1);
        assert(is_digit(s[j - 1]));
    }
}

// ===================== trimming and whitespace collapsing =====================

/// `str::trim`: `s` without its leading and trailing whitespace.
pub open spec fn trim(s: Seq<char>) -> Seq<char> {
    let a = ws_end(s, 0);
    if a >= s.len() {
        Seq::<char>::empty()
    } else {
        s.subrange(a, ws_start(s, s.len() as int))
    }
}

/// Replacing each maximal run of whitespace in `s[i..]` by one space;
/// `in_ws` tells whether `s[i - 1]` was already part of such a run.
pub open spec fn collapse_from(s: Seq<char>, i: int, in_ws: bool) -> Seq<char>
    decreases s.len() - i,
{
    if i < 0 || i >= s.len() {
        Seq::<char>::empty()
    } else if is_ws(s[i]) {
        if in_ws {
            collapse_from(s, i + 1, true)
        } else {
            seq![' '] + collapse_from(s, i + 1, true)
        }
    } else {
        seq![s[i]] + collapse_from(s, i + 1, false)
    }
}

/// The regex replacement of every `\s+` in `s` by a single space.
pub open spec fn collapse_ws(s: Seq<char>) -> Seq<char> {
    collapse_from(s, 0, false)
}

/// `s` with `s[a..b]` cut out and the rest trimmed.
pub open spec fn cut_and_trim(s: Seq<char>, a: int, b: int) -> Seq<char> {
    trim(s.subrange(0, a) + s.subrange(b, s.len() as int))
}

/// Copy of `s[a..b]`.
pub fn copy_range(s: &Vec<char>, a: usize, b: usize) -> (r: Vec<char>)
    requires
        a <= b <= s.len(),
    ensures
        r@ == s@.subrange(a as int, b as int),
{
    let mut r: Vec<char> = Vec::new();
    let mut k = a;
    while k < b
        invariant
            a <= k <= b <= s.len(),
            r@ == s@.subrange(a as int, k as int),
        decreases b - k,
    {
        r.push(s[k]);
        proof {
            assert(s@.subrange(a as int, k + 1) == s@.subrange(a as int, k as int).push(s@[k as int]));
        }
        k += 1;
    }
    r
}

/// Appends `t[a..b]` to `out`.
pub fn push_range(out: &mut Vec<char>, t: &Vec<char>, a: usize, b: usize)
    requires
        a <= b <= t.len(),
    ensures
        final(out)@ == old(out)@ + t@.subrange(a as int, b as int),
{
    let ghost start = out@;
    let mut k = a;
    while k < b
        invariant
            a <= k <= b <= t.len(),
            out@ == start + t@.subrange(a as int, k as int),
        decreases b - k,
    {
        out.push(t[k]);
        proof {
            assert(t@.subrange(a as int, k + 1) == t@.subrange(a as int, k as int).push(t@[k as int]));
        }
        k += 1;
    }
}

/// Executable `trim`.
pub fn trim_chars(s: &Vec<char>) -> (r: Vec<char>)
    ensures
        r@ == trim(s@),
{
    let a = skip_ws(s, 0);
    proof {
        lemma_ws_end_bounds(s@, 0);
    }
    if a >= s.len() {
        return Vec::new();
    }
    let mut b = s.len();
    while b > 0 && is_ws_char(s[b - 1])
        invariant
            0 <= b <= s.len(),
            ws_start(s@, b as int) == ws_start(s@, s@.len() as int),
        decreases b,
    {
        b -= 1;
    }
    proof {
        lemma_ws_start_bounds(s@, s@.len() as int);
        assert(!is_ws(s@[a as int]));
        if b <= a {
            assert(a < s@.len());
            assert(is_ws(s@[a as int]));
        }
    }
    copy_range(s, a, b)
}

/// Executable `collapse_ws`.
pub fn collapse_ws_chars(s: &Vec<char>) -> (r: Vec<char>)
    ensures
        r@ == collapse_ws(s@),
{
    let mut out: Vec<char> = Vec::new();
    let mut in_ws = false;
    let mut i: usize = 0;
    while i < s.len()
        invariant
            i <= s.len(),
            out@ + collapse_from(s@, i as int, in_ws) == collapse_ws(s@),
        decreases s.len() - i,
    {
        let c = s[i];
        if is_ws_char(c) {
            if !in_ws {
                proof {
                    assert(out@ + collapse_from(s@, i as int, in_ws) == out@.push(' ') + collapse_from(
                        s@,
                        i + 1,
                        true,
                    ));
                }
                out.push(' ');
            }
            in_ws = true;
        } else {
            proof {
                assert(out@ + collapse_from(s@, i as int, in_ws) == out@.push(c) + collapse_from(
                    s@,
                    i + 1,
                    false,
                ));
            }
            out.push(c);
            in_ws = false;
        }
        i += 1;
    }
    out
}

/// Executable `cut_and_trim`.
pub fn cut_and_trim_chars(s: &Vec<char>, a: usize, b: usize) -> (r: Vec<char>)
    requires
        a <= b <= s.len(),
    ensures
        r@ == cut_and_trim(s@, a as int, b as int),
{
    let mut joined = copy_range(s, 0, a);
    push_range(&mut joined, s, b, s.len());
    trim_chars(&joined)
}

// ===================== conversions =====================

/// The characters of `s`, collected with `str::chars`.
#[verifier::external_body]
pub(crate) fn chars_of(s: &str) -> (r: Vec<char>)
    ensures
        r@ == s@,
{
    s.chars().collect()
}

/// The string made of `v`, collected with `String::from_iter`.
#[verifier::external_body]
pub(crate) fn string_of(v: &Vec<char>) -> (r: String)
    ensures
        r@ == v@,
{
    v.iter().collect()
}

// ===================== decimal numerals =====================

/// Decimal numeral of a natural number.
pub open spec fn decimal(n: nat) -> Seq<char>
    decreases n,
{
    if n < 10 {
        seq![digit_char(n)]
    } else {
        decimal(n / 10).push(digit_char(n % 10))
    }
}

/// Decimal numeral of an integer, with a leading `-` when negative.
pub open spec fn int_text(n: int) -> Seq<char> {
    if n < 0 {
        seq!['-'] + decimal((-n) as nat)
    } else {
        decimal(n as nat)
    }
}

/// Appends the decimal numeral of `m` to `out`.
pub fn push_decimal(out: &mut Vec<char>, m: u64)
    ensures
        final(out)@ == old(out)@ + decimal(m as nat),
    decreases m,
{
    let ghost start = out@;
    if m >= 10 {
        push_decimal(out, m / 10);
    }
    let d = (m % 10) as u8;
    let c = (48u8 + d) as char;
    assert(c == digit_char((m % 10) as nat));
    out.push(c);
    proof {
        if m >= 10 {
            assert(out@ == start + decimal(m as nat));
        } else {
            assert(out@ == start + decimal(m as nat));
        }
    }
}

/// Appends the decimal numeral of `n` to `out`.
pub fn push_int(out: &mut Vec<char>, n: i64)
    ensures
        final(out)@ == old(out)@ + int_text(n as int),
{
    if n < 0 {
        let ghost start = out@;
        out.push('-');
        let m: u64 = if n == i64::MIN {
            9223372036854775808u64
        } else {
            (-n) as u64
        };
        push_decimal(out, m);
        assert(out@ == start + (seq!['-'] + decimal((-n) as nat)));
    } else {
        push_decimal(out, n as u64);
    }
}

/// Whether `v` is exactly `kw`.
pub fn equals_exec(v: &Vec<char>, kw: &[char]) -> (b: bool)
    ensures
        b == (v@ == kw@),
{
    if v.len() != kw.len() {
        return false;
    }
    let mut j: usize = 0;
    while j < kw.len()
        invariant
            j <= kw.len(),
            v.len() == kw.len(),
            forall|t: int| 0 <= t < j ==> v@[t] == kw@[t],
        decreases kw.len() - j,
    {
        if v[j] != kw[j] {
            return false;
        }
        j += 1;
    }
    assert(v@ =~= kw@);
    true
}

/// Appends the characters of `kw` to `out`.
pub fn push_all(out: &mut Vec<char>, kw: &[char])
    ensures
        final(out)@ == old(out)@ + kw@,
{
    let ghost start = out@;
    let mut j: usize = 0;
    while j < kw.len()
        invariant
            j <= kw.len(),
            out@ == start + kw@.subrange(0, j as int),
        decreases kw.len() - j,
    {
        out.push(kw[j]);
        proof {
            assert(kw@.subrange(0, j + 1) == kw@.subrange(0, j as int).push(kw@[j as int]));
        }
        j += 1;
    }
    assert(kw@.subrange(0, kw@.len() as int) == kw@);
}

/// Appends the characters of `t` to `out`.
pub fn push_vec(out: &mut Vec<char>, t: &Vec<char>)
    ensures
        final(out)@ == old(out)@ + t@,
{
    push_range(out, t, 0, t.len());
    assert(t@.subrange(0, t@.len() as int) == t@);
}

} // verus!
