//! A small vim-flavored line/paragraph editor operating on a `String` plus a
//! char-index cursor. Word motions treat text as two classes (whitespace vs.
//! non-whitespace) rather than vim's full word/punctuation/whitespace split,
//! which suits short task-form fields. A "line" is a run of characters between
//! `\n` boundaries (or the buffer start/end); single-line fields have exactly
//! one line, so everything degrades correctly for them too.
//!
//! Normal-mode functions keep the cursor resting *on* a character (at most
//! `len - 1`); the caret functions serve Insert mode, where the cursor may sit
//! after the last character of a line (at most `len`).
use vstd::prelude::*;
use crate::chars::{char_is_whitespace, from_chars, is_white_space, to_chars};

verus! {

// ---------------------------------------------------------------------------
// The model: a buffer is the sequence of its characters.
// ---------------------------------------------------------------------------

/// Word characters are the non-whitespace ones.
pub open spec fn is_word(c: char) -> bool {
    !is_white_space(c)
}

/// The index where the line holding position `c` begins: just after the
/// nearest `\n` before `c`, or 0.
pub open spec fn line_start_of(t: Seq<char>, c: int) -> int
    decreases c,
{
    if c <= 0 {
        0
    } else if t[c - 1] == '\n' {
        c
    } else {
        line_start_of(t, c - 1)
    }
}

/// The index where the line holding position `c` ends: the first `\n` at or
/// after `c`, or the buffer length.
pub open spec fn line_end_of(t: Seq<char>, c: int) -> int
    decreases t.len() - c,
{
    if c >= t.len() {
        t.len() as int
    } else if t[c] == '\n' {
        c
    } else {
        line_end_of(t, c + 1)
    }
}

/// The last position a Normal-mode cursor may rest on in the line `[start, end)`.
pub open spec fn last_pos(start: int, end: int) -> int {
    if end > start {
        end - 1
    } else {
        start
    }
}

/// A Normal-mode cursor clamped onto the buffer (for a non-empty buffer).
pub open spec fn rest(t: Seq<char>, cursor: int) -> int {
    if cursor < t.len() - 1 {
        cursor
    } else {
        t.len() - 1
    }
}

/// An Insert-mode caret clamped onto the buffer.
pub open spec fn caret(t: Seq<char>, cursor: int) -> int {
    if cursor < t.len() {
        cursor
    } else {
        t.len() as int
    }
}

/// The position `clamp_normal` gives: the cursor moved onto the buffer and
/// then onto a character of its own line.
pub open spec fn normal_pos(t: Seq<char>, cursor: int) -> int {
    if t.len() == 0 {
        0
    } else {
        let c = rest(t, cursor);
        let s = line_start_of(t, c);
        let e = line_end_of(t, c);
        if c < s {
            s
        } else if c > last_pos(s, e) {
            last_pos(s, e)
        } else {
            c
        }
    }
}

/// `j` starts a word: a word character preceded by whitespace or the buffer start.
pub open spec fn word_start(t: Seq<char>, j: int) -> bool {
    0 <= j < t.len() && is_word(t[j]) && (j == 0 || !is_word(t[j - 1]))
}

/// `j` ends a word: a word character followed by whitespace or the buffer end.
pub open spec fn word_end_at(t: Seq<char>, j: int) -> bool {
    0 <= j < t.len() && is_word(t[j]) && (j + 1 == t.len() || !is_word(t[j + 1]))
}

/// `r` is where vim `w` lands from `c`: the first word start after `c`, or the
/// last character when there is none.
pub open spec fn forward_word_target(t: Seq<char>, c: int, r: int) -> bool {
    ||| (c < r < t.len() && word_start(t, r) && forall|j: int| c < j < r ==> !word_start(t, j))
    ||| (r == t.len() - 1 && forall|j: int| c < j < t.len() ==> !word_start(t, j))
}

/// `r` is where vim `e` lands from `c`: the first word end after `c`, or the
/// last character when there is none.
pub open spec fn end_word_target(t: Seq<char>, c: int, r: int) -> bool {
    ||| (c < r < t.len() && word_end_at(t, r) && forall|j: int| c < j < r ==> !word_end_at(t, j))
    ||| (r == t.len() - 1 && forall|j: int| c < j < t.len() ==> !word_end_at(t, j))
}

/// `r` is where vim `b` lands from `c`: the last word start before `c`, or 0
/// when there is none.
pub open spec fn back_word_target(t: Seq<char>, c: int, r: int) -> bool {
    ||| (0 <= r < c && word_start(t, r) && forall|j: int| r < j < c ==> !word_start(t, j))
    ||| (r == 0 && forall|j: int| 0 <= j < c ==> !word_start(t, j))
}

// ---------------------------------------------------------------------------
// Facts about lines.
// ---------------------------------------------------------------------------

/// `line_start_of` is the position after the nearest preceding newline.
pub proof fn lemma_line_start(t: Seq<char>, c: int)
    requires
        0 <= c <= t.len(),
    ensures
        0 <= line_start_of(t, c) <= c,
        line_start_of(t, c) == 0 || t[line_start_of(t, c) - 1] == '\n',
        forall|j: int| line_start_of(t, c) <= j < c ==> t[j] != '\n',
    decreases c,
{
    if c > 0 && t[c - 1] != '\n' {
        lemma_line_start(t, c - 1);
    }
}

/// `line_end_of` is the position of the nearest following newline.
pub proof fn lemma_line_end(t: Seq<char>, c: int)
    requires
        0 <= c <= t.len(),
    ensures
        c <= line_end_of(t, c) <= t.len(),
        line_end_of(t, c) == t.len() || t[line_end_of(t, c)] == '\n',
        forall|j: int| c <= j < line_end_of(t, c) ==> t[j] != '\n',
    decreases t.len() - c,
{
    if c < t.len() && t[c] != '\n' {
        lemma_line_end(t, c + 1);
    }
}

/// Positions with no newline between them share their line start.
pub proof fn lemma_same_line_start(t: Seq<char>, a: int, b: int)
    requires
        0 <= a <= b <= t.len(),
        forall|j: int| a <= j < b ==> t[j] != '\n',
    ensures
        line_start_of(t, b) == line_start_of(t, a),
    decreases b - a,
{
    if a < b {
        assert(t[b - 1] != '\n');
        lemma_same_line_start(t, a, b - 1);
    }
}

/// Positions with no newline between them share their line end.
pub proof fn lemma_same_line_end(t: Seq<char>, a: int, b: int)
    requires
        0 <= a <= b <= t.len(),
        forall|j: int| a <= j < b ==> t[j] != '\n',
    ensures
        line_end_of(t, a) == line_end_of(t, b),
    decreases b - a,
{
    if a < b {
        assert(t[a] != '\n');
        lemma_same_line_end(t, a + 1, b);
    }
}

/// Whatever the cursor, `normal_pos` rests on a character of the buffer (or
/// is 0 for an empty buffer) and stays on the line of the clamped cursor.
pub proof fn lemma_normal_pos_in_line(t: Seq<char>, cursor: int)
    requires
        t.len() > 0,
        cursor >= 0,
    ensures
        0 <= normal_pos(t, cursor) < t.len(),
        line_start_of(t, rest(t, cursor)) <= normal_pos(t, cursor),
        normal_pos(t, cursor) <= last_pos(
            line_start_of(t, rest(t, cursor)),
            line_end_of(t, rest(t, cursor)),
        ),
{
    let c = rest(t, cursor);
    lemma_line_start(t, c);
    lemma_line_end(t, c);
}

// ---------------------------------------------------------------------------
// Executable helpers.
// ---------------------------------------------------------------------------

fn is_word_char(c: char) -> (b: bool)
    ensures
        b == is_word(c),
{
    !char_is_whitespace(c)
}

/// The start and end of the line holding `cursor` (clamped to the buffer).
fn line_bounds(chars: &Vec<char>, cursor: usize) -> (r: (usize, usize))
    ensures
        r.0 == line_start_of(chars@, caret(chars@, cursor as int)),
        r.1 == line_end_of(chars@, caret(chars@, cursor as int)),
        r.0 <= caret(chars@, cursor as int) <= r.1 <= chars@.len(),
{
    let n = chars.len();
    let cursor = if cursor < n {
        cursor
    } else {
        n
    };
    let mut start = cursor;
    while start > 0 && chars[start - 1] != '\n'
        invariant
            start <= cursor <= n == chars@.len(),
            line_start_of(chars@, start as int) == line_start_of(chars@, cursor as int),
        decreases start,
    {
        start = start - 1;
    }
    let mut end = cursor;
    while end < n && chars[end] != '\n'
        invariant
            cursor <= end <= n == chars@.len(),
            line_end_of(chars@, end as int) == line_end_of(chars@, cursor as int),
        decreases n - end,
    {
        end = end + 1;
    }
    proof {
        lemma_line_start(chars@, cursor as int);
        lemma_line_end(chars@, cursor as int);
    }
    (start, end)
}

fn last_pos_of(start: usize, end: usize) -> (r: usize)
    ensures
        r == last_pos(start as int, end as int),
{
    if end > start {
        end - 1
    } else {
        start
    }
}

/// `clamp_normal` over a character vector.
fn clamp_normal_chars(chars: &Vec<char>, cursor: usize) -> (r: usize)
    ensures
        r == normal_pos(chars@, cursor as int),
{
    let n = chars.len();
    if n == 0 {
        return 0;
    }
    let c = if cursor < n - 1 {
        cursor
    } else {
        n - 1
    };
    let (start, end) = line_bounds(chars, c);
    let last = last_pos_of(start, end);
    if c < start {
        start
    } else if c > last {
        last
    } else {
        c
    }
}

/// `chars[..lo] ++ chars[hi..]`.
fn cut(chars: &Vec<char>, lo: usize, hi: usize) -> (r: Vec<char>)
    requires
        lo <= hi <= chars@.len(),
    ensures
        r@ == chars@.subrange(0, lo as int) + chars@.subrange(hi as int, chars@.len() as int),
{
    let n = chars.len();
    let mut r: Vec<char> = Vec::new();
    let mut i: usize = 0;
    while i < lo
        invariant
            i <= lo <= hi <= n == chars@.len(),
            r@ == chars@.subrange(0, i as int),
        decreases lo - i,
    {
        r.push(chars[i]);
        assert(chars@.subrange(0, i + 1) == chars@.subrange(0, i as int).push(chars@[i as int]));
        i = i + 1;
    }
    let mut j: usize = hi;
    while j < n
        invariant
            lo <= hi <= j <= n == chars@.len(),
            r@ == chars@.subrange(0, lo as int) + chars@.subrange(hi as int, j as int),
        decreases n - j,
    {
        r.push(chars[j]);
        assert(chars@.subrange(hi as int, j + 1) == chars@.subrange(hi as int, j as int).push(
            chars@[j as int],
        ));
        j = j + 1;
    }
    r
}

/// `chars[..at] ++ ins ++ chars[at..]`.
fn splice_in(chars: &Vec<char>, at: usize, ins: &Vec<char>) -> (r: Vec<char>)
    requires
        at <= chars@.len(),
        chars@.len() + ins@.len() <= usize::MAX,
    ensures
        r@ == chars@.subrange(0, at as int) + ins@ + chars@.subrange(at as int, chars@.len() as int),
{
    let n = chars.len();
    let m = ins.len();
    let mut r: Vec<char> = Vec::new();
    let mut i: usize = 0;
    while i < at
        invariant
            i <= at <= n == chars@.len(),
            r@ == chars@.subrange(0, i as int),
        decreases at - i,
    {
        r.push(chars[i]);
        assert(chars@.subrange(0, i + 1) == chars@.subrange(0, i as int).push(chars@[i as int]));
        i = i + 1;
    }
    let mut k: usize = 0;
    while k < m
        invariant
            k <= m == ins@.len(),
            at <= n == chars@.len(),
            r@ == chars@.subrange(0, at as int) + ins@.subrange(0, k as int),
        decreases m - k,
    {
        r.push(ins[k]);
        assert(ins@.subrange(0, k + 1) == ins@.subrange(0, k as int).push(ins@[k as int]));
        k = k + 1;
    }
    assert(ins@.subrange(0, m as int) == ins@);
    let mut j: usize = at;
    while j < n
        invariant
            at <= j <= n == chars@.len(),
            r@ == chars@.subrange(0, at as int) + ins@ + chars@.subrange(at as int, j as int),
        decreases n - j,
    {
        r.push(chars[j]);
        assert(chars@.subrange(at as int, j + 1) == chars@.subrange(at as int, j as int).push(
            chars@[j as int],
        ));
        j = j + 1;
    }
    r
}

// ---------------------------------------------------------------------------
// Public API.
// ---------------------------------------------------------------------------

/// The number of characters in `s`.
pub fn char_len(s: &str) -> (r: usize)
    ensures
        r == s@.len(),
{
    to_chars(s).len()
}

/// Clamps a cursor to a valid "resting on a character" position for Normal
/// mode (never past the last char of its line, matching vim).
pub fn clamp_normal(s: &str, cursor: usize) -> (r: usize)
    ensures
        r == normal_pos(s@, cursor as int),
        s@.len() > 0 ==> r < s@.len(),
{
    proof {
        if s@.len() > 0 {
            lemma_normal_pos_in_line(s@, cursor as int);
        }
    }
    let chars = to_chars(s);
    clamp_normal_chars(&chars, cursor)
}

/// vim `h`: one character left, never leaving the line.
pub fn move_left(s: &str, cursor: usize) -> (r: usize)
    ensures
        r == (if s@.len() == 0 {
            0
        } else {
            let c = rest(s@, cursor as int);
            if c > line_start_of(s@, c) {
                c - 1
            } else {
                c
            }
        }),
        s@.len() > 0 ==> r < s@.len() && line_start_of(s@, r as int) == line_start_of(
            s@,
            rest(s@, cursor as int),
        ),
{
    let chars = to_chars(s);
    let n = chars.len();
    if n == 0 {
        return 0;
    }
    proof {
        let c = rest(s@, cursor as int);
        lemma_line_start(s@, c);
        if c > line_start_of(s@, c) {
            lemma_same_line_start(s@, c - 1, c);
        }
    }
    let cursor = if cursor < n - 1 {
        cursor
    } else {
        n - 1
    };
    let (start, _) = line_bounds(&chars, cursor);
    let left = if cursor > 0 {
        cursor - 1
    } else {
        0
    };
    if left > start {
        left
    } else {
        start
    }
}

/// vim `l`: one character right, never past the last character of the line.
pub fn move_right(s: &str, cursor: usize) -> (r: usize)
    ensures
        r == (if s@.len() == 0 {
            0
        } else {
            let c = rest(s@, cursor as int);
            let last = last_pos(line_start_of(s@, c), line_end_of(s@, c));
            if c + 1 < last {
                c + 1
            } else {
                last
            }
        }),
        s@.len() > 0 ==> r < s@.len() && line_start_of(s@, r as int) == line_start_of(
            s@,
            rest(s@, cursor as int),
        ),
{
    let chars = to_chars(s);
    let n = chars.len();
    if n == 0 {
        return 0;
    }
    proof {
        let c = rest(s@, cursor as int);
        let st = line_start_of(s@, c);
        let en = line_end_of(s@, c);
        lemma_line_start(s@, c);
        lemma_line_end(s@, c);
        let target = if c + 1 < last_pos(st, en) { c + 1 } else { last_pos(st, en) };
        if target >= c {
            lemma_same_line_start(s@, c, target);
        } else {
            lemma_same_line_start(s@, target, c);
        }
    }
    let cursor = if cursor < n - 1 {
        cursor
    } else {
        n - 1
    };
    let (start, end) = line_bounds(&chars, cursor);
    let last = last_pos_of(start, end);
    if cursor + 1 < last {
        cursor + 1
    } else {
        last
    }
}

/// The target of a vertical move into the line `[start, end)` keeping column
/// `col`, clamped to `limit`.
pub open spec fn column_in(start: int, col: int, limit: int) -> int {
    if start + col < limit {
        start + col
    } else {
        limit
    }
}

/// vim `k`: same column on the previous line, clamped onto that line.
pub fn move_up(s: &str, cursor: usize) -> (r: usize)
    ensures
        r == (if s@.len() == 0 {
            0
        } else {
            let c = rest(s@, cursor as int);
            let start = line_start_of(s@, c);
            if start == 0 {
                c
            } else {
                let prev_start = line_start_of(s@, start - 1);
                column_in(prev_start, c - start, last_pos(prev_start, start - 1))
            }
        }),
{
    let chars = to_chars(s);
    let n = chars.len();
    if n == 0 {
        return 0;
    }
    let cursor = if cursor < n - 1 {
        cursor
    } else {
        n - 1
    };
    let (start, _) = line_bounds(&chars, cursor);
    if start == 0 {
        return cursor;
    }
    let col = cursor - start;
    let prev_end = start - 1;
    let (prev_start, _) = line_bounds(&chars, prev_end);
    let limit = last_pos_of(prev_start, prev_end);
    if col < limit - prev_start {
        prev_start + col
    } else {
        limit
    }
}

/// vim `j`: same column on the next line, clamped onto that line.
pub fn move_down(s: &str, cursor: usize) -> (r: usize)
    ensures
        r == (if s@.len() == 0 {
            0
        } else {
            let c = rest(s@, cursor as int);
            let start = line_start_of(s@, c);
            let end = line_end_of(s@, c);
            if end >= s@.len() {
                c
            } else {
                let next_start = end + 1;
                let next_end = line_end_of(s@, next_start);
                column_in(next_start, c - start, last_pos(next_start, next_end))
            }
        }),
{
    let chars = to_chars(s);
    let n = chars.len();
    if n == 0 {
        return 0;
    }
    let cursor = if cursor < n - 1 {
        cursor
    } else {
        n - 1
    };
    let (start, end) = line_bounds(&chars, cursor);
    if end >= n {
        return cursor;
    }
    let col = cursor - start;
    let next_start = end + 1;
    let (_, next_end) = line_bounds(&chars, next_start);
    proof {
        lemma_line_end(chars@, next_start as int);
    }
    let limit = last_pos_of(next_start, next_end);
    if col < limit - next_start {
        next_start + col
    } else {
        limit
    }
}

/// Insert-mode left arrow: one character left, never leaving the line.
pub fn caret_left(s: &str, cursor: usize) -> (r: usize)
    ensures
        r == ({
            let c = caret(s@, cursor as int);
            if c > line_start_of(s@, c) {
                c - 1
            } else {
                c
            }
        }),
{
    let chars = to_chars(s);
    let n = chars.len();
    let cursor = if cursor < n {
        cursor
    } else {
        n
    };
    let (start, _) = line_bounds(&chars, cursor);
    let left = if cursor > 0 {
        cursor - 1
    } else {
        0
    };
    if left > start {
        left
    } else {
        start
    }
}

/// Insert-mode right arrow: one character right, up to just past the line's
/// last character.
pub fn caret_right(s: &str, cursor: usize) -> (r: usize)
    ensures
        r == ({
            let c = caret(s@, cursor as int);
            if c < line_end_of(s@, c) {
                c + 1
            } else {
                c
            }
        }),
{
    let chars = to_chars(s);
    let n = chars.len();
    let cursor = if cursor < n {
        cursor
    } else {
        n
    };
    let (_, end) = line_bounds(&chars, cursor);
    if cursor < end {
        cursor + 1
    } else {
        end
    }
}

/// Insert-mode up arrow: same column on the previous line, clamped to just
/// past that line's last character.
pub fn caret_up(s: &str, cursor: usize) -> (r: usize)
    ensures
        r == ({
            let c = caret(s@, cursor as int);
            let start = line_start_of(s@, c);
            if start == 0 {
                c
            } else {
                let prev_start = line_start_of(s@, start - 1);
                column_in(prev_start, c - start, start - 1)
            }
        }),
{
    let chars = to_chars(s);
    let n = chars.len();
    let cursor = if cursor < n {
        cursor
    } else {
        n
    };
    let (start, _) = line_bounds(&chars, cursor);
    if start == 0 {
        return cursor;
    }
    let col = cursor - start;
    let prev_end = start - 1;
    let (prev_start, _) = line_bounds(&chars, prev_end);
    proof {
        lemma_line_start(chars@, cursor as int);
        lemma_line_start(chars@, prev_end as int);
    }
    if col < prev_end - prev_start {
        prev_start + col
    } else {
        prev_end
    }
}

/// Insert-mode down arrow: same column on the next line, clamped to just past
/// that line's last character.
pub fn caret_down(s: &str, cursor: usize) -> (r: usize)
    ensures
        r == ({
            let c = caret(s@, cursor as int);
            let start = line_start_of(s@, c);
            let end = line_end_of(s@, c);
            if end >= s@.len() {
                c
            } else {
                let next_start = end + 1;
                column_in(next_start, c - start, line_end_of(s@, next_start))
            }
        }),
{
    let chars = to_chars(s);
    let n = chars.len();
    let cursor = if cursor < n {
        cursor
    } else {
        n
    };
    let (start, end) = line_bounds(&chars, cursor);
    if end >= n {
        return cursor;
    }
    let col = cursor - start;
    let next_start = end + 1;
    let (_, next_end) = line_bounds(&chars, next_start);
    if col < next_end - next_start {
        next_start + col
    } else {
        next_end
    }
}

/// vim `0`: the first character of the cursor's line.
pub fn line_start(s: &str, cursor: usize) -> (r: usize)
    ensures
        r == (if s@.len() == 0 {
            0
        } else {
            line_start_of(s@, rest(s@, cursor as int))
        }),
{
    let chars = to_chars(s);
    let n = chars.len();
    if n == 0 {
        return 0;
    }
    let c = if cursor < n - 1 {
        cursor
    } else {
        n - 1
    };
    line_bounds(&chars, c).0
}

/// vim `$`: the last character of the cursor's line.
pub fn line_end(s: &str, cursor: usize) -> (r: usize)
    ensures
        r == (if s@.len() == 0 {
            0
        } else {
            let c = rest(s@, cursor as int);
            last_pos(line_start_of(s@, c), line_end_of(s@, c))
        }),
{
    let chars = to_chars(s);
    let n = chars.len();
    if n == 0 {
        return 0;
    }
    let c = if cursor < n - 1 {
        cursor
    } else {
        n - 1
    };
    let (start, end) = line_bounds(&chars, c);
    last_pos_of(start, end)
}

/// vim `w`: the start of the next word, or the last character.
pub fn word_forward(s: &str, cursor: usize) -> (r: usize)
    ensures
        s@.len() == 0 ==> r == 0,
        s@.len() > 0 ==> forward_word_target(s@, rest(s@, cursor as int), r as int),
{
    let chars = to_chars(s);
    let n = chars.len();
    if n == 0 {
        return 0;
    }
    let ghost t = chars@;
    let c = if cursor < n - 1 {
        cursor
    } else {
        n - 1
    };
    let mut i = c;
    if is_word_char(chars[i]) {
        while i < n && is_word_char(chars[i])
            invariant
                c <= i <= n == t.len(),
                t == chars@,
                is_word(t[c as int]),
                forall|j: int| c <= j < i ==> is_word(#[trigger] t[j]),
            decreases n - i,
        {
            i = i + 1;
        }
        assert forall|j: int| c < j < i implies !word_start(t, j) by {
            assert(is_word(t[j - 1]));
        }
    }
    while i < n && !is_word_char(chars[i])
        invariant
            c <= i <= n == t.len(),
            t == chars@,
            i == c ==> !is_word(t[c as int]),
            c < i ==> (i == n || !is_word(t[i as int]) || !is_word(t[i - 1])),
            forall|j: int| c < j < i ==> !word_start(t, j),
        decreases n - i,
    {
        i = i + 1;
    }
    if i >= n {
        n - 1
    } else {
        i
    }
}

/// vim `e`: the end of the next word, or the last character.
pub fn word_end(s: &str, cursor: usize) -> (r: usize)
    ensures
        s@.len() == 0 ==> r == 0,
        s@.len() > 0 ==> end_word_target(s@, rest(s@, cursor as int), r as int),
{
    let chars = to_chars(s);
    let n = chars.len();
    if n == 0 {
        return 0;
    }
    let ghost t = chars@;
    let c = if cursor < n - 1 {
        cursor
    } else {
        n - 1
    };
    let mut i = c + 1;
    while i < n && !is_word_char(chars[i])
        invariant
            c < i <= n == t.len(),
            t == chars@,
            forall|j: int| c < j < i ==> !word_end_at(t, j),
        decreases n - i,
    {
        i = i + 1;
    }
    while i < n - 1 && is_word_char(chars[i + 1])
        invariant
            c < i <= n == t.len(),
            t == chars@,
            i < n ==> is_word(t[i as int]),
            forall|j: int| c < j < i ==> !word_end_at(t, j),
        decreases n - i,
    {
        i = i + 1;
    }
    if i < n - 1 {
        i
    } else {
        n - 1
    }
}

/// vim `b`: the start of the previous word, or 0.
pub fn word_back(s: &str, cursor: usize) -> (r: usize)
    ensures
        s@.len() == 0 ==> r == 0,
        s@.len() > 0 ==> back_word_target(s@, rest(s@, cursor as int), r as int),
{
    let chars = to_chars(s);
    let n = chars.len();
    if n == 0 {
        return 0;
    }
    let ghost t = chars@;
    let c = if cursor < n - 1 {
        cursor
    } else {
        n - 1
    };
    if c == 0 {
        return 0;
    }
    let mut i = c - 1;
    while i > 0 && !is_word_char(chars[i])
        invariant
            i < c < n == t.len(),
            t == chars@,
            forall|j: int| i < j < c ==> !word_start(t, j),
        decreases i,
    {
        i = i - 1;
    }
    while i > 0 && is_word_char(chars[i - 1])
        invariant
            i < c < n == t.len(),
            t == chars@,
            i == 0 || is_word(t[i as int]),
            forall|j: int| i < j < c ==> !word_start(t, j),
        decreases i,
    {
        i = i - 1;
    }
    i
}

/// Types `c` at the caret; returns the caret after the new character.
pub fn insert_char(s: &mut String, cursor: usize, c: char) -> (r: usize)
    ensures
        final(s)@ == old(s)@.insert(caret(old(s)@, cursor as int), c),
        r == caret(old(s)@, cursor as int) + 1,
{
    let mut chars = to_chars(s.as_str());
    let idx = if cursor < chars.len() {
        cursor
    } else {
        chars.len()
    };
    chars.insert(idx, c);
    let grown = chars.len();
    assert(idx < grown);
    *s = from_chars(chars.as_slice());
    idx + 1
}

/// Deletes the character before the caret; returns the new caret.
pub fn backspace(s: &mut String, cursor: usize) -> (r: usize)
    ensures
        ({
            let c = caret(old(s)@, cursor as int);
            if c == 0 {
                final(s)@ == old(s)@ && r == 0
            } else {
                final(s)@ == old(s)@.remove(c - 1) && r == c - 1
            }
        }),
{
    if cursor == 0 {
        return 0;
    }
    let mut chars = to_chars(s.as_str());
    let idx = if cursor < chars.len() {
        cursor
    } else {
        chars.len()
    };
    if idx == 0 {
        return 0;
    }
    chars.remove(idx - 1);
    *s = from_chars(chars.as_slice());
    idx - 1
}

/// vim `x`: deletes the character under the cursor unless its line is empty.
pub fn delete_char(s: &mut String, cursor: usize) -> (r: usize)
    ensures
        old(s)@.len() == 0 ==> final(s)@ == old(s)@ && r == 0,
        old(s)@.len() > 0 ==> ({
            let t = old(s)@;
            let c = rest(t, cursor as int);
            let u = if line_end_of(t, c) > line_start_of(t, c) {
                t.remove(c)
            } else {
                t
            };
            final(s)@ == u && r == normal_pos(u, c)
        }),
{
    let mut chars = to_chars(s.as_str());
    let n = chars.len();
    if n == 0 {
        return 0;
    }
    let cursor = if cursor < n - 1 {
        cursor
    } else {
        n - 1
    };
    let (start, end) = line_bounds(&chars, cursor);
    if end > start {
        chars.remove(cursor);
        *s = from_chars(chars.as_slice());
    }
    clamp_normal_chars(&chars, cursor)
}

/// vim `D`: deletes from the cursor to the end of its line.
pub fn delete_to_line_end(s: &mut String, cursor: usize) -> (r: usize)
    ensures
        ({
            let t = old(s)@;
            let c = caret(t, cursor as int);
            let e = line_end_of(t, c);
            let u = if e > c {
                t.subrange(0, c) + t.subrange(e, t.len() as int)
            } else {
                t
            };
            &&& final(s)@ == u
            &&& r == normal_pos(u, if c < u.len() { c } else { u.len() as int })
        }),
{
    let mut chars = to_chars(s.as_str());
    let n = chars.len();
    let cursor = if cursor < n {
        cursor
    } else {
        n
    };
    let (start, end) = line_bounds(&chars, cursor);
    if end > cursor {
        chars = cut(&chars, cursor, end);
        *s = from_chars(chars.as_slice());
    }
    let at = if cursor > start {
        cursor
    } else {
        start
    };
    let len = chars.len();
    let at = if at < len {
        at
    } else {
        len
    };
    clamp_normal_chars(&chars, at)
}

/// The span `dd` removes from the line holding `c`: the line with its
/// trailing newline, or with the newline before it for the last line.
pub open spec fn line_span(t: Seq<char>, c: int) -> (int, int) {
    let start = line_start_of(t, c);
    let end = line_end_of(t, c);
    if end < t.len() {
        (start, end + 1)
    } else if start > 0 {
        (start - 1, end)
    } else {
        (start, end)
    }
}

/// The text `dd` leaves with the cursor at `cursor`: `t` without the span
/// of the cursor's line (an empty text stays empty).
pub open spec fn line_deleted(t: Seq<char>, cursor: int) -> Seq<char> {
    if t.len() == 0 {
        t
    } else {
        let span = line_span(t, rest(t, cursor));
        t.subrange(0, span.0) + t.subrange(span.1, t.len() as int)
    }
}

/// vim `dd`: deletes the whole line, including a newline.
pub fn delete_line(s: &mut String, cursor: usize) -> (r: usize)
    ensures
        old(s)@.len() == 0 ==> final(s)@ == old(s)@ && r == 0,
        old(s)@.len() > 0 ==> ({
            let t = old(s)@;
            let span = line_span(t, rest(t, cursor as int));
            let u = t.subrange(0, span.0) + t.subrange(span.1, t.len() as int);
            final(s)@ == u && r == normal_pos(u, span.0)
        }),
        final(s)@ == line_deleted(old(s)@, cursor as int),
{
    let chars = to_chars(s.as_str());
    let n = chars.len();
    if n == 0 {
        return 0;
    }
    let cursor = if cursor < n - 1 {
        cursor
    } else {
        n - 1
    };
    let (start, end) = line_bounds(&chars, cursor);
    let (remove_start, remove_end) = if end < n {
        (start, end + 1)
    } else if start > 0 {
        (start - 1, end)
    } else {
        (start, end)
    };
    let chars = cut(&chars, remove_start, remove_end);
    *s = from_chars(chars.as_slice());
    clamp_normal_chars(&chars, remove_start)
}

/// vim `i`: Insert mode at the Normal-mode cursor.
pub fn enter_insert_before(s: &str, cursor: usize) -> (r: usize)
    ensures
        r == normal_pos(s@, cursor as int),
{
    clamp_normal(s, cursor)
}

/// vim `a`: Insert mode just after the cursor's character.
pub fn enter_insert_after(s: &str, cursor: usize) -> (r: usize)
    ensures
        r == (if s@.len() == 0 {
            0
        } else {
            let c = rest(s@, cursor as int);
            let end = line_end_of(s@, c);
            if c + 1 < end {
                c + 1
            } else {
                end
            }
        }),
{
    let chars = to_chars(s);
    let n = chars.len();
    if n == 0 {
        return 0;
    }
    let cursor = if cursor < n - 1 {
        cursor
    } else {
        n - 1
    };
    let (start, end) = line_bounds(&chars, cursor);
    let after = if cursor + 1 < end {
        cursor + 1
    } else {
        end
    };
    if after > start {
        after
    } else {
        start
    }
}

/// vim `I`: Insert mode at the start of the line.
pub fn enter_insert_line_start(s: &str, cursor: usize) -> (r: usize)
    ensures
        r == (if s@.len() == 0 {
            0
        } else {
            line_start_of(s@, rest(s@, cursor as int))
        }),
{
    line_start(s, cursor)
}

/// vim `A`: Insert mode just past the last character of the line.
pub fn enter_insert_line_end(s: &str, cursor: usize) -> (r: usize)
    ensures
        r == (if s@.len() == 0 {
            0
        } else {
            line_end_of(s@, rest(s@, cursor as int))
        }),
{
    let chars = to_chars(s);
    let n = chars.len();
    if n == 0 {
        return 0;
    }
    let c = if cursor < n - 1 {
        cursor
    } else {
        n - 1
    };
    line_bounds(&chars, c).1
}

/// The cursor clamped for `o`/`O`: onto the last character, or 0 when empty.
pub open spec fn open_pos(t: Seq<char>, cursor: int) -> int {
    if t.len() == 0 {
        0
    } else {
        rest(t, cursor)
    }
}

/// vim `o`. When `allow_newline` is false (single-line fields), it jumps to
/// the end of the line in Insert mode instead of inserting a `\n`.
pub fn open_below(s: &mut String, cursor: usize, allow_newline: bool) -> (r: usize)
    ensures
        !allow_newline ==> final(s)@ == old(s)@ && r == (if old(s)@.len() == 0 {
            0
        } else {
            line_end_of(old(s)@, rest(old(s)@, cursor as int))
        }),
        allow_newline ==> ({
            let e = line_end_of(old(s)@, open_pos(old(s)@, cursor as int));
            final(s)@ == old(s)@.insert(e, '\n') && r == e + 1
        }),
{
    if !allow_newline {
        return enter_insert_line_end(s.as_str(), cursor);
    }
    let mut chars = to_chars(s.as_str());
    let n = chars.len();
    let last = if n > 0 {
        n - 1
    } else {
        0
    };
    let c = if cursor < last {
        cursor
    } else {
        last
    };
    let (_, end) = line_bounds(&chars, c);
    chars.insert(end, '\n');
    let grown = chars.len();
    assert(end < grown);
    *s = from_chars(chars.as_slice());
    end + 1
}

/// vim `O`. See `open_below` for `allow_newline`.
pub fn open_above(s: &mut String, cursor: usize, allow_newline: bool) -> (r: usize)
    ensures
        !allow_newline ==> final(s)@ == old(s)@ && r == (if old(s)@.len() == 0 {
            0
        } else {
            line_start_of(old(s)@, rest(old(s)@, cursor as int))
        }),
        allow_newline ==> ({
            let st = line_start_of(old(s)@, open_pos(old(s)@, cursor as int));
            final(s)@ == old(s)@.insert(st, '\n') && r == st
        }),
{
    if !allow_newline {
        return enter_insert_line_start(s.as_str(), cursor);
    }
    let mut chars = to_chars(s.as_str());
    let n = chars.len();
    let last = if n > 0 {
        n - 1
    } else {
        0
    };
    let c = if cursor < last {
        cursor
    } else {
        last
    };
    let (start, _) = line_bounds(&chars, c);
    chars.insert(start, '\n');
    *s = from_chars(chars.as_slice());
    start
}

/// Normalizes a Visual-mode (anchor, cursor) pair into an inclusive
/// `[lo, hi]` range.
pub fn selection_range(anchor: usize, cursor: usize) -> (r: (usize, usize))
    ensures
        r.0 == (if anchor < cursor { anchor } else { cursor }),
        r.1 == (if anchor < cursor { cursor } else { anchor }),
{
    if anchor < cursor {
        (anchor, cursor)
    } else {
        (cursor, anchor)
    }
}

/// The end of an inclusive span `[lo, hi]` clamped onto the buffer, as an
/// exclusive bound.
pub open spec fn span_end(t: Seq<char>, hi: int) -> int {
    if hi < t.len() - 1 {
        hi + 1
    } else {
        t.len() as int
    }
}

/// vim `y` over a selection: the characters `lo..=hi`, the end clamped onto
/// the buffer; empty when `lo` is past the end.
pub fn yank_range(s: &str, lo: usize, hi: usize) -> (r: String)
    requires
        lo >= s@.len() || lo <= hi + 1,
    ensures
        r@ == (if lo >= s@.len() {
            Seq::<char>::empty()
        } else {
            s@.subrange(lo as int, span_end(s@, hi as int))
        }),
{
    let chars = to_chars(s);
    let n = chars.len();
    if n == 0 || lo >= n {
        return String::new();
    }
    let end = if hi < n - 1 {
        hi + 1
    } else {
        n
    };
    let part = crate::chars::slice_chars(&chars, lo, end);
    from_chars(part.as_slice())
}

/// vim `d`/`x`/`c` over a selection: removes `lo..=hi` (clamped) and rests
/// the cursor at `lo`.
pub fn delete_range(s: &mut String, lo: usize, hi: usize) -> (r: usize)
    requires
        lo >= old(s)@.len() || lo <= hi + 1,
    ensures
        ({
            let t = old(s)@;
            let u = if lo >= t.len() {
                t
            } else {
                t.subrange(0, lo as int) + t.subrange(span_end(t, hi as int), t.len() as int)
            };
            final(s)@ == u && r == normal_pos(u, lo as int)
        }),
{
    let chars = to_chars(s.as_str());
    let n = chars.len();
    if n == 0 || lo >= n {
        return clamp_normal_chars(&chars, lo);
    }
    let end = if hi < n - 1 {
        hi + 1
    } else {
        n
    };
    let chars = cut(&chars, lo, end);
    *s = from_chars(chars.as_slice());
    clamp_normal_chars(&chars, lo)
}

/// Where a paste lands its cursor: on the last pasted character.
pub open spec fn paste_cursor(at: int, m: int) -> int {
    if m > 0 {
        at + m - 1
    } else {
        at
    }
}

/// vim `p`: inserts `text` after the cursor's character and rests on the
/// last pasted character. An empty clipboard changes nothing.
pub fn paste_after(s: &mut String, cursor: usize, text: &str) -> (r: usize)
    requires
        old(s)@.len() + text@.len() <= usize::MAX,
    ensures
        text@.len() == 0 ==> final(s)@ == old(s)@ && r == cursor,
        text@.len() > 0 ==> ({
            let t = old(s)@;
            let at = if cursor + 1 < t.len() { cursor + 1 } else { t.len() as int };
            let u = t.subrange(0, at) + text@ + t.subrange(at, t.len() as int);
            final(s)@ == u && r == normal_pos(u, paste_cursor(at, text@.len() as int))
        }),
{
    let pasted = to_chars(text);
    if pasted.len() == 0 {
        return cursor;
    }
    let chars = to_chars(s.as_str());
    let n = chars.len();
    let at = if cursor < n {
        cursor + 1
    } else {
        n
    };
    let at = if at < n {
        at
    } else {
        n
    };
    let chars = splice_in(&chars, at, &pasted);
    *s = from_chars(chars.as_slice());
    clamp_normal_chars(&chars, at + (pasted.len() - 1))
}

/// vim `P`: inserts `text` before the cursor and rests on the last pasted
/// character. An empty clipboard changes nothing.
pub fn paste_before(s: &mut String, cursor: usize, text: &str) -> (r: usize)
    requires
        old(s)@.len() + text@.len() <= usize::MAX,
    ensures
        text@.len() == 0 ==> final(s)@ == old(s)@ && r == cursor,
        text@.len() > 0 ==> ({
            let t = old(s)@;
            let at = caret(t, cursor as int);
            let u = t.subrange(0, at) + text@ + t.subrange(at, t.len() as int);
            final(s)@ == u && r == normal_pos(u, paste_cursor(at, text@.len() as int))
        }),
{
    let pasted = to_chars(text);
    if pasted.len() == 0 {
        return cursor;
    }
    let chars = to_chars(s.as_str());
    let n = chars.len();
    let at = if cursor < n {
        cursor
    } else {
        n
    };
    let chars = splice_in(&chars, at, &pasted);
    *s = from_chars(chars.as_slice());
    clamp_normal_chars(&chars, at + (pasted.len() - 1))
}

/// The number of newlines in `t`.
pub open spec fn newlines(t: Seq<char>) -> nat
    decreases t.len(),
{
    if t.len() == 0 {
        0
    } else {
        newlines(t.drop_last()) + if t.last() == '\n' { 1nat } else { 0nat }
    }
}

/// Splits a char-index cursor over a `\n`-separated buffer into (row, col),
/// both as terminal cell offsets, for placing the terminal cursor. The
/// counts must fit terminal coordinates.
pub fn row_col_of_cursor(s: &str, cursor: usize) -> (r: (u16, u16))
    requires
        newlines(s@.take(caret(s@, cursor as int))) <= u16::MAX,
        forall|j: int|
            0 <= j <= caret(s@, cursor as int) ==> j - line_start_of(s@, j) <= u16::MAX,
    ensures
        r.0 == newlines(s@.take(caret(s@, cursor as int))),
        r.1 == caret(s@, cursor as int) - line_start_of(s@, caret(s@, cursor as int)),
{
    let chars = to_chars(s);
    let n = chars.len();
    let k = if cursor < n {
        cursor
    } else {
        n
    };
    let ghost t = chars@;
    let mut row: u16 = 0;
    let mut col: u16 = 0;
    let mut i: usize = 0;
    while i < k
        invariant
            i <= k <= n == t.len(),
            t == chars@,
            t == s@,
            k == caret(t, cursor as int),
            newlines(t.take(k as int)) <= u16::MAX,
            forall|j: int| 0 <= j <= k ==> j - line_start_of(t, j) <= u16::MAX,
            row == newlines(t.take(i as int)),
            col == i - line_start_of(t, i as int),
        decreases k - i,
    {
        proof {
            assert(t.take(i + 1).drop_last() == t.take(i as int));
            lemma_newlines_prefix(t, i + 1, k as int);
        }
        if chars[i] == '\n' {
            row = row + 1;
            col = 0;
        } else {
            assert((i + 1) - line_start_of(t, i + 1) <= u16::MAX);
            col = col + 1;
        }
        i = i + 1;
    }
    (row, col)
}

/// Counting newlines is monotone in the prefix length.
proof fn lemma_newlines_prefix(t: Seq<char>, a: int, b: int)
    requires
        0 <= a <= b <= t.len(),
    ensures
        newlines(t.take(a)) <= newlines(t.take(b)),
    decreases b - a,
{
    if a < b {
        lemma_newlines_prefix(t, a, b - 1);
        assert(t.take(b).drop_last() == t.take(b - 1));
    }
}

// ---------------------------------------------------------------------------
// Laws.
// ---------------------------------------------------------------------------

/// Clamping is idempotent: a cursor already at rest stays where it is.
pub proof fn law_clamp_normal_idempotent(t: Seq<char>, cursor: int)
    requires
        cursor >= 0,
    ensures
        normal_pos(t, normal_pos(t, cursor)) == normal_pos(t, cursor),
{
    if t.len() > 0 {
        let c = rest(t, cursor);
        let st = line_start_of(t, c);
        let en = line_end_of(t, c);
        lemma_line_start(t, c);
        lemma_line_end(t, c);
        let p = normal_pos(t, cursor);
        assert(st <= p <= last_pos(st, en));
        assert(p < t.len());
        if p <= c {
            lemma_same_line_start(t, p, c);
            lemma_same_line_end(t, p, c);
        } else {
            lemma_same_line_start(t, c, p);
            lemma_same_line_end(t, c, p);
        }
        assert(rest(t, p) == p);
    }
}

/// Backspace right after typing a character removes it again: the buffer
/// and the caret (clamped onto the buffer) come back.
pub proof fn law_backspace_undoes_insert(t: Seq<char>, cursor: int, c: char)
    requires
        cursor >= 0,
    ensures
        ({
            let k = caret(t, cursor);
            let u = t.insert(k, c);
            &&& caret(u, k + 1) == k + 1
            &&& u.remove(caret(u, k + 1) - 1) == t
            &&& caret(u, k + 1) - 1 == k
        }),
{
    let k = caret(t, cursor);
    let u = t.insert(k, c);
    assert(u.remove(k) =~= t);
}

/// A selection normalizes the same way whichever end the anchor is.
pub proof fn law_selection_is_symmetric(anchor: int, cursor: int)
    ensures
        (if anchor < cursor { anchor } else { cursor }) == (if cursor < anchor {
            cursor
        } else {
            anchor
        }),
        (if anchor < cursor { cursor } else { anchor }) == (if cursor < anchor {
            anchor
        } else {
            cursor
        }),
        (if anchor < cursor { anchor } else { cursor }) <= (if anchor < cursor {
            cursor
        } else {
            anchor
        }),
{
}

/// Deleting a selection and pasting back what was yanked from it, before
/// the cursor at `lo`, restores the buffer.
pub proof fn law_paste_before_undoes_delete_range(t: Seq<char>, lo: int, hi: int)
    requires
        0 <= lo < t.len(),
        lo <= hi,
    ensures
        ({
            let clip = t.subrange(lo, span_end(t, hi));
            let u = t.subrange(0, lo) + t.subrange(span_end(t, hi), t.len() as int);
            let at = caret(u, lo);
            &&& at == lo
            &&& u.subrange(0, at) + clip + u.subrange(at, u.len() as int) == t
        }),
{
    let e = span_end(t, hi);
    let clip = t.subrange(lo, e);
    let u = t.subrange(0, lo) + t.subrange(e, t.len() as int);
    assert(u.subrange(0, lo) =~= t.subrange(0, lo));
    assert(u.subrange(lo, u.len() as int) =~= t.subrange(e, t.len() as int));
    assert(t.subrange(0, lo) + clip + t.subrange(e, t.len() as int) =~= t);
}

// ---------------------------------------------------------------------------
// Lines as a sequence.
// ---------------------------------------------------------------------------

/// The lines of `t`: the pieces between its newlines, in order (an empty
/// text is one empty line).
pub open spec fn lines(t: Seq<char>) -> Seq<Seq<char>>
    decreases t.len(),
{
    if t.len() == 0 {
        seq![Seq::<char>::empty()]
    } else {
        let p = lines(t.drop_last());
        if t.last() == '\n' {
            p.push(Seq::<char>::empty())
        } else {
            p.update(p.len() - 1, p.last().push(t.last()))
        }
    }
}

/// The index of the line holding the Normal-mode cursor: the number of
/// newlines before it.
pub open spec fn cursor_line(t: Seq<char>, cursor: int) -> int {
    newlines(t.take(rest(t, cursor))) as int
}

/// A text has one line more than it has newlines.
proof fn lemma_lines_len(t: Seq<char>)
    ensures
        lines(t).len() == newlines(t) + 1,
    decreases t.len(),
{
    if t.len() > 0 {
        lemma_lines_len(t.drop_last());
    }
}

/// A text without newlines is one line.
proof fn lemma_lines_single(t: Seq<char>)
    requires
        forall|j: int| 0 <= j < t.len() ==> t[j] != '\n',
    ensures
        lines(t) == seq![t],
        newlines(t) == 0,
    decreases t.len(),
{
    if t.len() > 0 {
        lemma_lines_single(t.drop_last());
        assert(t.drop_last().push(t.last()) =~= t);
    } else {
        assert(t =~= Seq::<char>::empty());
    }
}

/// Joining two texts with a newline joins their lines.
proof fn lemma_lines_join(x: Seq<char>, y: Seq<char>)
    ensures
        lines(x + seq!['\n'] + y) == lines(x) + lines(y),
    decreases y.len(),
{
    let z = x + seq!['\n'] + y;
    if y.len() == 0 {
        assert(z.drop_last() =~= x);
        assert(z == x + seq!['\n']);
        assert(lines(x).push(Seq::<char>::empty()) =~= lines(x) + lines(y));
    } else {
        assert(z.drop_last() =~= x + seq!['\n'] + y.drop_last());
        lemma_lines_join(x, y.drop_last());
        lemma_lines_len(y.drop_last());
        lemma_lines_len(x);
        let q = lines(y.drop_last());
        let p = lines(z.drop_last());
        assert(p == lines(x) + q);
        if y.last() == '\n' {
            assert(lines(z) =~= lines(x) + lines(y));
        } else {
            assert(lines(z) =~= lines(x) + lines(y));
        }
    }
}

/// A lone newline is one newline.
proof fn lemma_one_newline()
    ensures
        newlines(seq!['\n']) == 1,
{
    let s = seq!['\n'];
    assert(s.drop_last() =~= Seq::<char>::empty());
    assert(s.last() == '\n');
    assert(newlines(s.drop_last()) == 0);
}

/// Newlines of a joined text add up.
proof fn lemma_newlines_add(x: Seq<char>, y: Seq<char>)
    ensures
        newlines(x + y) == newlines(x) + newlines(y),
    decreases y.len(),
{
    if y.len() > 0 {
        assert((x + y).drop_last() =~= x + y.drop_last());
        lemma_newlines_add(x, y.drop_last());
    } else {
        assert(x + y =~= x);
    }
}

/// Text after a newline, up to a point with no newline in between, lies on
/// the line whose index is the number of lines before that newline.
proof fn lemma_lines_after_head(head: Seq<char>, before: Seq<char>)
    requires
        newlines(before) == 0,
    ensures
        newlines(head + seq!['\n'] + before) == lines(head).len(),
{
    lemma_newlines_add(head + seq!['\n'], before);
    lemma_newlines_add(head, seq!['\n']);
    lemma_one_newline();
    lemma_lines_len(head);
}

/// The facts about the cursor's line that the cases of `dd` share.
proof fn lemma_cursor_line_parts(t: Seq<char>, cursor: int)
    requires
        t.len() > 0,
        cursor >= 0,
    ensures
        ({
            let c = rest(t, cursor);
            let start = line_start_of(t, c);
            let end = line_end_of(t, c);
            &&& 0 <= start <= c < t.len()
            &&& c <= end <= t.len()
            &&& start == 0 || t[start - 1] == '\n'
            &&& end == t.len() || t[end] == '\n'
            &&& lines(t.subrange(start, end)) == seq![t.subrange(start, end)]
            &&& newlines(t.subrange(start, c)) == 0
        }),
{
    let c = rest(t, cursor);
    let start = line_start_of(t, c);
    let end = line_end_of(t, c);
    lemma_line_start(t, c);
    lemma_line_end(t, c);
    let line = t.subrange(start, end);
    assert forall|j: int| 0 <= j < line.len() implies line[j] != '\n' by {
        assert(line[j] == t[start + j]);
    }
    lemma_lines_single(line);
    let before = t.subrange(start, c);
    assert forall|j: int| 0 <= j < before.len() implies before[j] != '\n' by {
        assert(before[j] == t[start + j]);
    }
    lemma_lines_single(before);
}

/// `dd` on a line that ends with a newline.
proof fn lemma_dd_inner_line(t: Seq<char>, cursor: int)
    requires
        t.len() > 0,
        cursor >= 0,
        line_end_of(t, rest(t, cursor)) < t.len(),
    ensures
        lines(line_deleted(t, cursor)) == lines(t).remove(cursor_line(t, cursor)),
        lines(t).len() > 1,
        lines(line_deleted(t, cursor)).len() + 1 == lines(t).len(),
{
    lemma_cursor_line_parts(t, cursor);
    let c = rest(t, cursor);
    let start = line_start_of(t, c);
    let end = line_end_of(t, c);
    let line = t.subrange(start, end);
    let before = t.subrange(start, c);
    let after = t.subrange(end + 1, t.len() as int);
    let u = line_deleted(t, cursor);
    assert(line + seq!['\n'] + after =~= t.subrange(start, t.len() as int));
    lemma_lines_join(line, after);
    lemma_lines_len(after);
    if start == 0 {
        assert(t.subrange(start, t.len() as int) =~= t);
        assert(u =~= after);
        assert(t.take(c) =~= before);
        assert(lines(t) =~= seq![line] + lines(after));
        assert(lines(t).remove(0) =~= lines(after));
    } else {
        let head = t.subrange(0, start - 1);
        assert(t =~= head + seq!['\n'] + t.subrange(start, t.len() as int));
        lemma_lines_join(head, t.subrange(start, t.len() as int));
        assert(u =~= head + seq!['\n'] + after);
        lemma_lines_join(head, after);
        assert(t.take(c) =~= head + seq!['\n'] + before);
        lemma_lines_after_head(head, before);
        let k = lines(head).len();
        assert(lines(t) =~= lines(head) + seq![line] + lines(after));
        assert(lines(t).remove(k as int) =~= lines(head) + lines(after));
    }
}

/// `dd` on the last line of a text of several lines.
proof fn lemma_dd_last_line(t: Seq<char>, cursor: int)
    requires
        t.len() > 0,
        cursor >= 0,
        line_end_of(t, rest(t, cursor)) == t.len(),
        line_start_of(t, rest(t, cursor)) > 0,
    ensures
        lines(line_deleted(t, cursor)) == lines(t).remove(cursor_line(t, cursor)),
        lines(t).len() > 1,
        lines(line_deleted(t, cursor)).len() + 1 == lines(t).len(),
{
    lemma_cursor_line_parts(t, cursor);
    let c = rest(t, cursor);
    let start = line_start_of(t, c);
    let end = line_end_of(t, c);
    let line = t.subrange(start, end);
    let before = t.subrange(start, c);
    let head = t.subrange(0, start - 1);
    lemma_lines_len(head);
    assert(t =~= head + seq!['\n'] + line);
    lemma_lines_join(head, line);
    assert(line_deleted(t, cursor) =~= head);
    assert(t.take(c) =~= head + seq!['\n'] + before);
    lemma_lines_after_head(head, before);
    let k = lines(head).len();
    assert(lines(t) =~= lines(head) + seq![line]);
    assert(lines(t).remove(k as int) =~= lines(head));
}

/// vim `dd` removes exactly the cursor's line: a text of several lines
/// keeps every other line, in order, and so has one newline less; a text of
/// one line becomes empty.
pub proof fn law_delete_line_removes_cursor_line(t: Seq<char>, cursor: int)
    requires
        t.len() > 0,
        cursor >= 0,
    ensures
        lines(t).len() > 1 ==> lines(line_deleted(t, cursor)) == lines(t).remove(cursor_line(t, cursor)),
        lines(t).len() > 1 ==> newlines(line_deleted(t, cursor)) + 1 == newlines(t),
        lines(t).len() == 1 ==> line_deleted(t, cursor) == Seq::<char>::empty(),
{
    lemma_cursor_line_parts(t, cursor);
    let c = rest(t, cursor);
    let start = line_start_of(t, c);
    let end = line_end_of(t, c);
    let u = line_deleted(t, cursor);
    lemma_lines_len(t);
    lemma_lines_len(u);
    if end < t.len() {
        lemma_dd_inner_line(t, cursor);
    } else if start > 0 {
        lemma_dd_last_line(t, cursor);
    } else {
        assert(t.subrange(start, end) =~= t);
        assert(u =~= Seq::<char>::empty());
        assert(lines(t).len() == 1);
    }
}

} // verus!

