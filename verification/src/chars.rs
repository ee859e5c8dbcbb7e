//! Character classes of the grammar and verified scanning primitives.
//!
//! All scanning is expressed twice: once as a recursive spec function over
//! a `Seq<char>`, and once as an executable loop over a `&str` that is
//! proved to return exactly what the spec function denotes.

use vstd::prelude::*;

verus! {

/// Whitespace that may separate tokens within a line (newlines separate lines).
pub open spec fn is_ws(c: char) -> bool {
    c == ' ' || c == '\t' || c == '\r'
}

/// A character that starts a comment (to end of line).
pub open spec fn is_comment_start(c: char) -> bool {
    c == ';' || c == '#'
}

/// A decimal digit.
pub open spec fn is_digit(c: char) -> bool {
    48 <= c as u32 && c as u32 <= 57
}

/// A character that may start an identifier: a letter or an underscore.
pub open spec fn is_ident_start(c: char) -> bool {
    (97 <= c as u32 && c as u32 <= 122)  // 'a'..='z'
    || (65 <= c as u32 && c as u32 <= 90)  // 'A'..='Z'
    || c == '_'
}

/// A character that may continue an identifier.
pub open spec fn is_ident_char(c: char) -> bool {
    is_ident_start(c) || is_digit(c) || c == '.' || c == '-'
}

/// The index of the first character at or after `i` that is not whitespace,
/// or `l.len()` if all of them are.
pub open spec fn first_non_ws(l: Seq<char>, i: int) -> int
    decreases l.len() - i,
{
    if i < 0 || i >= l.len() {
        l.len() as int
    } else if is_ws(l[i]) {
        first_non_ws(l, i + 1)
    } else {
        i
    }
}

/// The index of the first character at or after `i` that cannot continue an
/// identifier, or `l.len()` if all of them can.
pub open spec fn ident_end(l: Seq<char>, i: int) -> int
    decreases l.len() - i,
{
    if i < 0 || i >= l.len() {
        l.len() as int
    } else if is_ident_char(l[i]) {
        ident_end(l, i + 1)
    } else {
        i
    }
}

/// The index of the first occurrence of `c` at or after `i`, or `l.len()`
/// if there is none.
pub open spec fn find_from(l: Seq<char>, i: int, c: char) -> int
    decreases l.len() - i,
{
    if i < 0 || i >= l.len() {
        l.len() as int
    } else if l[i] == c {
        i
    } else {
        find_from(l, i + 1, c)
    }
}

/// The index of the first comment-starting character at or after `i`, or
/// `l.len()` if there is none.
pub open spec fn comment_from(l: Seq<char>, i: int) -> int
    decreases l.len() - i,
{
    if i < 0 || i >= l.len() {
        l.len() as int
    } else if is_comment_start(l[i]) {
        i
    } else {
        comment_from(l, i + 1)
    }
}

/// The end of `l[i..e]` once trailing whitespace is dropped: the least
/// `t >= i` such that everything in `l[t..e]` is whitespace and either
/// `t == i` or `l[t - 1]` is not whitespace.
pub open spec fn trim_end_from(l: Seq<char>, i: int, e: int) -> int
    decreases e - i,
{
    if e <= i {
        i
    } else if is_ws(l[e - 1]) {
        trim_end_from(l, i, e - 1)
    } else {
        e
    }
}

/// `s` with leading and trailing whitespace removed.
pub open spec fn trimmed(s: Seq<char>) -> Seq<char> {
    let a = first_non_ws(s, 0);
    if a >= s.len() {
        Seq::empty()
    } else {
        s.subrange(a, trim_end_from(s, a, s.len() as int))
    }
}

pub proof fn lemma_find_from_bounds(l: Seq<char>, i: int, c: char)
    requires
        0 <= i <= l.len(),
    ensures
        i <= find_from(l, i, c) <= l.len(),
        find_from(l, i, c) < l.len() ==> l[find_from(l, i, c)] == c,
    decreases l.len() - i,
{
    if i < l.len() && l[i] != c {
        lemma_find_from_bounds(l, i + 1, c);
    }
}

/// No occurrence of `c` lies strictly before the first one.
pub proof fn lemma_find_from_no_hit(l: Seq<char>, i: int, c: char)
    requires
        0 <= i <= l.len(),
    ensures
        forall|j: int| i <= j < find_from(l, i, c) ==> l[j] != c,
    decreases l.len() - i,
{
    if i < l.len() && l[i] != c {
        lemma_find_from_no_hit(l, i + 1, c);
    }
}

/// If every character of `l[i..j]` differs from `c` and `l[j]` is `c` or
/// `j` is the end, then the first occurrence of `c` at or after `i` is `j`.
pub proof fn lemma_find_stops_at(l: Seq<char>, i: int, j: int, c: char)
    requires
        0 <= i <= j <= l.len(),
        forall|k: int| i <= k < j ==> l[k] != c,
        j < l.len() ==> l[j] == c,
    ensures
        find_from(l, i, c) == j,
    decreases j - i,
{
    if i < j {
        lemma_find_stops_at(l, i + 1, j, c);
    }
}

/// If every character of `l[i..j]` differs from `c`, the first occurrence
/// of `c` at or after `i` is not before `j`.
pub proof fn lemma_find_stops_lower(l: Seq<char>, i: int, j: int, c: char)
    requires
        0 <= i <= j <= l.len(),
        forall|k: int| i <= k < j ==> l[k] != c,
    ensures
        find_from(l, i, c) >= j,
    decreases j - i,
{
    lemma_find_from_bounds(l, i, c);
    if i < j {
        lemma_find_stops_lower(l, i + 1, j, c);
    }
}

pub proof fn lemma_trim_end_bounds(l: Seq<char>, i: int, e: int)
    requires
        0 <= i <= e,
    ensures
        i <= trim_end_from(l, i, e) <= e,
    decreases e - i,
{
    if e > i && is_ws(l[e - 1]) {
        lemma_trim_end_bounds(l, i, e - 1);
    }
}

/// Executable test for [`is_ws`].
pub fn ws_char(c: char) -> (b: bool)
    ensures
        b == is_ws(c),
{
    c == ' ' || c == '\t' || c == '\r'
}

/// Executable test for [`is_comment_start`].
pub fn comment_char(c: char) -> (b: bool)
    ensures
        b == is_comment_start(c),
{
    c == ';' || c == '#'
}

/// Executable test for [`is_digit`].
pub fn digit_char(c: char) -> (b: bool)
    ensures
        b == is_digit(c),
{
    let u = c as u32;
    48 <= u && u <= 57
}

/// Executable test for [`is_ident_start`].
pub fn ident_start_char(c: char) -> (b: bool)
    ensures
        b == is_ident_start(c),
{
    let u = c as u32;
    (97 <= u && u <= 122) || (65 <= u && u <= 90) || c == '_'
}

/// Executable test for [`is_ident_char`].
pub fn ident_char(c: char) -> (b: bool)
    ensures
        b == is_ident_char(c),
{
    ident_start_char(c) || digit_char(c) || c == '.' || c == '-'
}

/// Skips whitespace in `l` starting at `i`; returns [`first_non_ws`].
pub fn skip_ws(l: &str, i: usize, n: usize) -> (r: usize)
    requires
        n == l@.len(),
        i <= n,
    ensures
        r == first_non_ws(l@, i as int),
        i <= r <= n,
        r < n ==> !is_ws(l@[r as int]),
{
    let mut j = i;
    while j < n && ws_char(l.get_char(j))
        invariant
            n == l@.len(),
            i <= j <= n,
            first_non_ws(l@, i as int) == first_non_ws(l@, j as int),
        decreases n - j,
    {
        j = j + 1;
    }
    j
}

/// Scans identifier characters in `l` starting at `i`; returns [`ident_end`].
pub fn scan_ident(l: &str, i: usize, n: usize) -> (r: usize)
    requires
        n == l@.len(),
        i <= n,
    ensures
        r == ident_end(l@, i as int),
        i <= r <= n,
{
    let mut j = i;
    while j < n && ident_char(l.get_char(j))
        invariant
            n == l@.len(),
            i <= j <= n,
            ident_end(l@, i as int) == ident_end(l@, j as int),
        decreases n - j,
    {
        j = j + 1;
    }
    j
}

/// Finds the next occurrence of `c` in `l` at or after `i`; returns [`find_from`].
pub fn find_char(l: &str, i: usize, n: usize, c: char) -> (r: usize)
    requires
        n == l@.len(),
        i <= n,
    ensures
        r == find_from(l@, i as int, c),
        i <= r <= n,
        r < n ==> l@[r as int] == c,
{
    let mut j = i;
    while j < n && l.get_char(j) != c
        invariant
            n == l@.len(),
            i <= j <= n,
            find_from(l@, i as int, c) == find_from(l@, j as int, c),
        decreases n - j,
    {
        j = j + 1;
    }
    j
}

/// Finds the next comment-starting character in `l` at or after `i`;
/// returns [`comment_from`].
pub fn find_comment(l: &str, i: usize, n: usize) -> (r: usize)
    requires
        n == l@.len(),
        i <= n,
    ensures
        r == comment_from(l@, i as int),
        i <= r <= n,
{
    let mut j = i;
    while j < n && !comment_char(l.get_char(j))
        invariant
            n == l@.len(),
            i <= j <= n,
            comment_from(l@, i as int) == comment_from(l@, j as int),
        decreases n - j,
    {
        j = j + 1;
    }
    j
}

/// Compares two string slices character by character.
pub fn str_eq(a: &str, b: &str) -> (r: bool)
    ensures
        r == (a@ == b@),
{
    let n = a.unicode_len();
    let m = b.unicode_len();
    if n != m {
        return false;
    }
    let mut i: usize = 0;
    while i < n
        invariant
            n == a@.len(),
            n == b@.len(),
            i <= n,
            forall|j: int| 0 <= j < i ==> a@[j] == b@[j],
        decreases n - i,
    {
        if a.get_char(i) != b.get_char(i) {
            return false;
        }
        i = i + 1;
    }
    proof {
        assert(a@ =~= b@);
    }
    true
}

/// Drops trailing whitespace from `l[i..e]`; returns [`trim_end_from`].
pub fn trim_end(l: &str, i: usize, e: usize) -> (r: usize)
    requires
        e <= l@.len(),
        i <= e,
    ensures
        r == trim_end_from(l@, i as int, e as int),
        i <= r <= e,
{
    let mut j = e;
    while j > i && ws_char(l.get_char(j - 1))
        invariant
            e <= l@.len(),
            i <= j <= e,
            trim_end_from(l@, i as int, e as int) == trim_end_from(l@, i as int, j as int),
        decreases j,
    {
        j = j - 1;
    }
    j
}

} // verus!
