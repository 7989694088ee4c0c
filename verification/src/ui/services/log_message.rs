//! The message of a log event as the event list shows it: the Lambda
//! runtime's timestamp and request id are dropped, the level is kept.
//!
//! The older runtime format is read by byte offsets (the timestamp is 24
//! bytes long, the level is looked for in the 50 bytes after it), so the
//! characters are counted here by the bytes of their UTF-8 encoding. A line
//! that those offsets would cut inside a character is shown as it is.
use vstd::prelude::*;
use crate::text::{
    chars_of, matches_at, occurs_at, owned, push_str, seq_starts_with, starts_with_chars,
    string_from_chars, sub_chars, trim_str, trimmed,
};

verus! {

/// The number of bytes of `c` in UTF-8.
pub open spec fn utf8_width(c: char) -> int {
    if (c as u32) < 0x80 {
        1
    } else if (c as u32) < 0x800 {
        2
    } else if (c as u32) < 0x10000 {
        3
    } else {
        4
    }
}

/// The number of UTF-8 bytes of `s` from character `i` on.
pub open spec fn bytes_from(s: Seq<char>, i: int) -> int
    decreases s.len() - i,
{
    if i < 0 || i >= s.len() {
        0
    } else {
        utf8_width(s[i]) + bytes_from(s, i + 1)
    }
}

/// The character of `s` that starts `b` bytes after the start of character
/// `i` (the end of `s` counts); `None` when byte `b` falls inside a
/// character or past the end.
pub open spec fn boundary_from(s: Seq<char>, i: int, b: int) -> Option<int>
    decreases s.len() - i,
{
    if b == 0 {
        Some(i)
    } else if b < 0 || i < 0 || i >= s.len() {
        None
    } else {
        boundary_from(s, i + 1, b - utf8_width(s[i]))
    }
}

/// The first position, from `from` on, where `needle` occurs in `hay`, or
/// -1.
pub open spec fn first_at(hay: Seq<char>, needle: Seq<char>, from: int) -> int
    decreases hay.len() + 1 - from,
{
    if from < 0 || from + needle.len() > hay.len() {
        -1
    } else if occurs_at(hay, needle, from) {
        from
    } else {
        first_at(hay, needle, from + 1)
    }
}

/// The first tab at or after `from`, or -1.
pub open spec fn next_tab(s: Seq<char>, from: int) -> int
    decreases s.len() - from,
{
    if from < 0 || from >= s.len() {
        -1
    } else if s[from] == '\t' {
        from
    } else {
        next_tab(s, from + 1)
    }
}

/// The tab-separated format (`TIME\tREQUEST\tLEVEL\tMESSAGE`): cut at the
/// first three tabs, the level and the trimmed message; with only two tabs,
/// the second and the trimmed third field; with fewer, nothing.
pub open spec fn tab_line(m: Seq<char>) -> Option<Seq<char>> {
    let t1 = next_tab(m, 0);
    let t2 = next_tab(m, t1 + 1);
    let t3 = next_tab(m, t2 + 1);
    if t1 < 0 || t2 < 0 {
        None
    } else if t3 >= 0 {
        Some(m.subrange(t2 + 1, t3) + " "@ + trimmed(m.skip(t3 + 1)))
    } else {
        Some(m.subrange(t1 + 1, t2) + " "@ + trimmed(m.skip(t2 + 1)))
    }
}

/// The line starts like a dated line: more than 24 bytes, with `-` as its
/// fifth byte.
pub open spec fn dated(m: Seq<char>) -> bool {
    &&& bytes_from(m, 0) > 24
    &&& boundary_from(m, 0, 4) matches Some(k) && 0 <= k < m.len() && m[k] == '-'
}

/// What follows the 24-byte timestamp.
pub open spec fn after_stamp(m: Seq<char>) -> Seq<char> {
    m.skip(boundary_from(m, 0, 24)->0)
}

/// The first 50 bytes (at most) of what follows the timestamp.
pub open spec fn search_window(a: Seq<char>) -> Seq<char> {
    let b = if bytes_from(a, 0) < 50 { bytes_from(a, 0) } else { 50 };
    a.take(boundary_from(a, 0, b)->0)
}

/// The log levels, in the order they are looked for.
pub open spec fn log_levels() -> Seq<Seq<char>> {
    seq!["INFO"@, "DEBUG"@, "WARN"@, "ERROR"@, "CRITICAL"@]
}

/// The first level, from the `n`-th on, found in the window `w` of `a`: the
/// level and the trimmed rest of `a` after it.
pub open spec fn level_line(a: Seq<char>, w: Seq<char>, n: int) -> Option<Seq<char>>
    decreases log_levels().len() - n,
{
    if n < 0 || n >= log_levels().len() {
        None
    } else {
        let p = first_at(w, log_levels()[n], 0);
        if p >= 0 {
            Some(log_levels()[n] + " "@ + trimmed(a.skip(p + log_levels()[n].len())))
        } else {
            level_line(a, w, n + 1)
        }
    }
}

/// A `START `, `END ` or `REPORT ` line.
pub open spec fn runtime_line(m: Seq<char>) -> bool {
    seq_starts_with(m, "START "@) || seq_starts_with(m, "END "@) || seq_starts_with(m, "REPORT "@)
}

/// The dated format can be cut where it is read: byte 24, and the end of
/// the 50-byte window after it, fall between characters.
pub open spec fn dated_readable(m: Seq<char>) -> bool {
    &&& boundary_from(m, 0, 24) is Some
    &&& {
        let a = after_stamp(m);
        let b = if bytes_from(a, 0) < 50 { bytes_from(a, 0) } else { 50 };
        boundary_from(a, 0, b) is Some
    }
}

/// The message shown for a trimmed log line: runtime lines as they are,
/// then the tab-separated format, then the older dated format (timestamp,
/// request id and level run together) where it can be cut between
/// characters, else the line as it is.
pub open spec fn log_line(m: Seq<char>) -> Seq<char> {
    if runtime_line(m) {
        m
    } else if tab_line(m) is Some {
        tab_line(m)->0
    } else if dated(m) && dated_readable(m) {
        match level_line(after_stamp(m), search_window(after_stamp(m)), 0) {
            Some(r) => r,
            None => m,
        }
    } else {
        m
    }
}

fn width(c: char) -> (w: usize)
    ensures
        w == utf8_width(c),
{
    let u = c as u32;
    if u < 0x80 {
        1
    } else if u < 0x800 {
        2
    } else if u < 0x10000 {
        3
    } else {
        4
    }
}

/// The UTF-8 byte count of `s` from character `from` on, but at most `cap`.
fn capped_bytes(s: &Vec<char>, from: usize, cap: usize) -> (r: usize)
    requires
        from <= s@.len(),
        cap < usize::MAX - 4,
    ensures
        r == (if bytes_from(s@, from as int) < cap { bytes_from(s@, from as int) } else { cap as int }),
{
    let n = s.len();
    let mut i = from;
    let mut acc: usize = 0;
    proof {
        lemma_bytes_nonneg(s@, from as int);
    }
    while i < n && acc < cap
        invariant
            n == s@.len(),
            from <= i <= n,
            cap < usize::MAX - 4,
            acc <= cap + 4,
            acc + bytes_from(s@, i as int) == bytes_from(s@, from as int),
            bytes_from(s@, i as int) >= 0,
        decreases n - i,
    {
        proof {
            assert(bytes_from(s@, i as int + 1) >= 0) by {
                lemma_bytes_nonneg(s@, i as int + 1);
            }
        }
        acc = acc + width(s[i]);
        i = i + 1;
    }
    if acc >= cap {
        cap
    } else {
        acc
    }
}

proof fn lemma_bytes_nonneg(s: Seq<char>, i: int)
    ensures
        bytes_from(s, i) >= 0,
    decreases s.len() - i,
{
    if 0 <= i < s.len() {
        lemma_bytes_nonneg(s, i + 1);
    }
}

/// The character that starts `b` bytes into `s` (see `boundary_from`).
fn boundary(s: &Vec<char>, b: usize) -> (r: Option<usize>)
    ensures
        r matches Some(k) ==> boundary_from(s@, 0, b as int) == Some(k as int),
        r is None ==> boundary_from(s@, 0, b as int) is None,
{
    let n = s.len();
    let mut i: usize = 0;
    let mut rem = b;
    while rem > 0 && i < n
        invariant
            n == s@.len(),
            0 <= i <= n,
            boundary_from(s@, 0, b as int) == boundary_from(s@, i as int, rem as int),
        decreases n - i,
    {
        let w = width(s[i]);
        if w > rem {
            proof {
                assert(boundary_from(s@, i as int + 1, rem - w) is None);
            }
            return None;
        }
        rem = rem - w;
        i = i + 1;
    }
    if rem == 0 {
        Some(i)
    } else {
        None
    }
}

/// The first position where `needle` occurs in `hay` (see `first_at`).
fn find_chars(hay: &Vec<char>, needle: &Vec<char>) -> (r: Option<usize>)
    ensures
        r matches Some(p) ==> first_at(hay@, needle@, 0) == p && p + needle@.len() <= hay@.len(),
        r is None ==> first_at(hay@, needle@, 0) == -1,
{
    let n = hay.len();
    let m = needle.len();
    if m > n {
        return None;
    }
    if m == 0 {
        proof {
            assert(hay@.subrange(0, 0) =~= needle@);
        }
        return Some(0);
    }
    let mut p: usize = 0;
    while p <= n - m
        invariant
            n == hay@.len(),
            m == needle@.len(),
            m <= n,
            1 <= m,
            0 <= p <= n - m + 1,
            first_at(hay@, needle@, 0) == first_at(hay@, needle@, p as int),
        decreases n - p,
    {
        if matches_at(hay, needle, p) {
            return Some(p);
        }
        p = p + 1;
    }
    None
}

/// The first tab at or after `from` (see `next_tab`).
fn find_tab(s: &Vec<char>, from: usize) -> (r: Option<usize>)
    requires
        from <= s@.len(),
    ensures
        r matches Some(t) ==> next_tab(s@, from as int) == t && from <= t < s@.len(),
        r is None ==> next_tab(s@, from as int) == -1,
{
    let n = s.len();
    let mut i = from;
    while i < n
        invariant
            n == s@.len(),
            from <= i <= n,
            next_tab(s@, from as int) == next_tab(s@, i as int),
        decreases n - i,
    {
        if s[i] == '\t' {
            return Some(i);
        }
        i = i + 1;
    }
    None
}

/// `head`, a space, and `rest` trimmed.
fn joined_trimmed(head: &Vec<char>, rest: &Vec<char>) -> (r: String)
    ensures
        r@ == head@ + " "@ + trimmed(rest@),
{
    let tail = string_from_chars(rest);
    let mut r = string_from_chars(head);
    push_str(&mut r, " ");
    let t = trim_str(tail.as_str());
    push_str(&mut r, t.as_str());
    r
}

fn tab_message(m: &Vec<char>) -> (r: Option<String>)
    ensures
        r matches Some(s) ==> tab_line(m@) == Some(s@),
        r is None ==> tab_line(m@) is None,
{
    let n = m.len();
    let t1 = match find_tab(m, 0) {
        Some(t) => t,
        None => return None,
    };
    let t2 = match find_tab(m, t1 + 1) {
        Some(t) => t,
        None => return None,
    };
    match find_tab(m, t2 + 1) {
        Some(t3) => Some(joined_trimmed(&sub_chars(m, t2 + 1, t3), &sub_chars(m, t3 + 1, n))),
        None => Some(joined_trimmed(&sub_chars(m, t1 + 1, t2), &sub_chars(m, t2 + 1, n))),
    }
}

fn level_names() -> (v: Vec<Vec<char>>)
    ensures
        v@.len() == log_levels().len(),
        forall|i: int| 0 <= i < v@.len() ==> #[trigger] v@[i]@ == log_levels()[i],
{
    let mut v: Vec<Vec<char>> = Vec::new();
    v.push(chars_of("INFO"));
    v.push(chars_of("DEBUG"));
    v.push(chars_of("WARN"));
    v.push(chars_of("ERROR"));
    v.push(chars_of("CRITICAL"));
    v
}

fn level_message(a: &Vec<char>, w: &Vec<char>) -> (r: Option<String>)
    requires
        w@.len() <= a@.len(),
    ensures
        r matches Some(s) ==> level_line(a@, w@, 0) == Some(s@),
        r is None ==> level_line(a@, w@, 0) is None,
{
    let levels = level_names();
    let n = levels.len();
    let mut i: usize = 0;
    while i < n
        invariant
            n == levels@.len(),
            n == log_levels().len(),
            forall|t: int| 0 <= t < n ==> #[trigger] levels@[t]@ == log_levels()[t],
            w@.len() <= a@.len(),
            0 <= i <= n,
            level_line(a@, w@, 0) == level_line(a@, w@, i as int),
        decreases n - i,
    {
        let lv = &levels[i];
        match find_chars(w, lv) {
            Some(p) => {
                let alen = a.len();
                proof {
                    assert(occurs_at(w@, lv@, p as int)) by {
                        lemma_first_at_occurs(w@, lv@, 0);
                    }
                }
                let rest = sub_chars(a, p + lv.len(), alen);
                proof {
                    assert(rest@ =~= a@.skip(p + lv@.len()));
                }
                return Some(joined_trimmed(lv, &rest));
            },
            None => {},
        }
        i = i + 1;
    }
    None
}

proof fn lemma_first_at_occurs(hay: Seq<char>, needle: Seq<char>, from: int)
    requires
        first_at(hay, needle, from) >= 0,
    ensures
        occurs_at(hay, needle, first_at(hay, needle, from)),
    decreases hay.len() + 1 - from,
{
    if from < 0 || from + needle.len() > hay.len() {
    } else if occurs_at(hay, needle, from) {
    } else {
        lemma_first_at_occurs(hay, needle, from + 1);
    }
}

fn starts_with_text(m: &Vec<char>, p: &str) -> (r: bool)
    ensures
        r == seq_starts_with(m@, p@),
{
    starts_with_chars(m, &chars_of(p))
}

fn dated_message(m: &Vec<char>) -> (r: Option<String>)
    ensures
        r matches Some(s) ==> dated(m@) && dated_readable(m@) && level_line(
            after_stamp(m@),
            search_window(after_stamp(m@)),
            0,
        ) == Some(s@),
        r is None ==> !(dated(m@) && dated_readable(m@)) || level_line(
            after_stamp(m@),
            search_window(after_stamp(m@)),
            0,
        ) is None,
{
    let n = m.len();
    if !dated_check(m) {
        return None;
    }
    let k24 = match boundary(m, 24) {
        Some(k) => k,
        None => return None,
    };
    proof {
        lemma_boundary_in(m@, 0, 24);
    }
    let a = sub_chars(m, k24, n);
    proof {
        assert(a@ =~= after_stamp(m@));
    }
    let b = capped_bytes(&a, 0, 50);
    let e = match boundary(&a, b) {
        Some(e) => e,
        None => return None,
    };
    proof {
        lemma_boundary_in(a@, 0, b as int);
    }
    let w = sub_chars(&a, 0, e);
    proof {
        assert(w@ =~= search_window(a@));
    }
    level_message(&a, &w)
}

proof fn lemma_boundary_in(s: Seq<char>, i: int, b: int)
    requires
        boundary_from(s, i, b) is Some,
        0 <= i <= s.len(),
    ensures
        i <= boundary_from(s, i, b)->0 <= s.len(),
    decreases s.len() - i,
{
    if b == 0 {
    } else if b < 0 || i >= s.len() {
    } else {
        lemma_boundary_in(s, i + 1, b - utf8_width(s[i]));
    }
}

/// The message shown for a log line (see `log_line`).
pub fn parse_log_message(raw: &str) -> (r: String)
    ensures
        r@ == log_line(trimmed(raw@)),
{
    let trimmed_raw = trim_str(raw);
    let msg = trimmed_raw.as_str();
    let m = chars_of(msg);
    if starts_with_text(&m, "START ") || starts_with_text(&m, "END ") || starts_with_text(&m, "REPORT ") {
        return owned(msg);
    }
    match tab_message(&m) {
        Some(r) => return r,
        None => {},
    }
    match dated_message(&m) {
        Some(r) => r,
        None => owned(msg),
    }
}

/// Whether the line starts like a dated line (see `dated`).
fn dated_check(m: &Vec<char>) -> (r: bool)
    ensures
        r == dated(m@),
{
    let n = m.len();
    if capped_bytes(m, 0, 25) <= 24 {
        return false;
    }
    match boundary(m, 4) {
        Some(k) => k < n && m[k] == '-',
        None => false,
    }
}

} // verus!
