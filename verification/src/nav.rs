//! Cursor and scroll arithmetic shared by the list and detail screens.
use vstd::prelude::*;
use crate::input::{is_char, is_ctrl_char, is_down, is_up, KeyEvent};

verus! {

/// `a + n`, stopping at the largest `u16`.
pub open spec fn sat_add_u16(a: u16, n: int) -> u16 {
    if a + n > u16::MAX {
        u16::MAX
    } else {
        (a + n) as u16
    }
}

/// `a - n`, stopping at 0.
pub open spec fn sat_sub_u16(a: u16, n: int) -> u16 {
    if a - n < 0 {
        0
    } else {
        (a - n) as u16
    }
}

/// `a - n`, stopping at 0.
pub open spec fn sat_sub_usize(a: usize, n: int) -> usize {
    if a - n < 0 {
        0
    } else {
        (a - n) as usize
    }
}

/// The cursor one row down, unless it is on the last of `count` rows.
pub open spec fn step_down(sel: usize, count: usize) -> usize {
    if count > 0 && sel + 1 < count {
        (sel + 1) as usize
    } else {
        sel
    }
}

/// The cursor one row up, unless it is on the first row.
pub open spec fn step_up(sel: usize) -> usize {
    if sel > 0 {
        (sel - 1) as usize
    } else {
        sel
    }
}

/// The cursor on the last of `count` rows (unchanged when there are none).
pub open spec fn jump_last(sel: usize, count: usize) -> usize {
    if count > 0 {
        (count - 1) as usize
    } else {
        sel
    }
}

/// The cursor 20 rows down, at most to the last row.
pub open spec fn half_page_down(sel: usize, count: usize) -> usize {
    if count > 0 {
        if sel + 20 < count - 1 {
            (sel + 20) as usize
        } else {
            (count - 1) as usize
        }
    } else {
        sel
    }
}

/// Moves the cursor one row down within `count` rows.
pub fn move_down(sel: usize, count: usize) -> (r: usize)
    ensures
        r == step_down(sel, count),
{
    if count > 0 && sel < count - 1 {
        sel + 1
    } else {
        sel
    }
}

/// Moves the cursor one row up.
pub fn move_up(sel: usize) -> (r: usize)
    ensures
        r == step_up(sel),
{
    if sel > 0 {
        sel - 1
    } else {
        sel
    }
}

/// Moves the cursor to the last row.
pub fn move_last(sel: usize, count: usize) -> (r: usize)
    ensures
        r == jump_last(sel, count),
{
    if count > 0 {
        count - 1
    } else {
        sel
    }
}

/// Moves the cursor 20 rows down, at most to the last row.
pub fn move_half_page_down(sel: usize, count: usize) -> (r: usize)
    ensures
        r == half_page_down(sel, count),
{
    if count > 0 {
        if sel < count - 1 && count - 1 - sel > 20 {
            sel + 20
        } else {
            count - 1
        }
    } else {
        sel
    }
}

/// Moves the cursor 20 rows up, stopping at the first row.
pub fn move_half_page_up(sel: usize) -> (r: usize)
    ensures
        r == sat_sub_usize(sel, 20),
{
    if sel >= 20 {
        sel - 20
    } else {
        0
    }
}

/// Adds to a scroll offset, stopping at the largest `u16`.
pub fn scroll_add(a: u16, n: u16) -> (r: u16)
    ensures
        r == sat_add_u16(a, n as int),
{
    if a > u16::MAX - n {
        u16::MAX
    } else {
        a + n
    }
}

/// Subtracts from a scroll offset, stopping at 0.
pub fn scroll_sub(a: u16, n: u16) -> (r: u16)
    ensures
        r == sat_sub_u16(a, n as int),
{
    if a >= n {
        a - n
    } else {
        0
    }
}

/// The scroll offset and pending-`g` flag of a detail screen after a key that
/// the screen does not handle otherwise: `j`/`k` and the arrows scroll by one
/// line, Ctrl-d/Ctrl-u by 20, `gg` to the top, `G` to `bottom`; any other key
/// only drops a pending `g`.
pub open spec fn detail_scroll_step(scroll: u16, pending_g: bool, bottom: u16, k: KeyEvent) -> (u16, bool) {
    if is_down(k) {
        (sat_add_u16(scroll, 1), false)
    } else if is_up(k) {
        (sat_sub_u16(scroll, 1), false)
    } else if is_ctrl_char(k, 'd') {
        (sat_add_u16(scroll, 20), false)
    } else if is_ctrl_char(k, 'u') {
        (sat_sub_u16(scroll, 20), false)
    } else if is_char(k, 'g') {
        if pending_g {
            (0, false)
        } else {
            (scroll, true)
        }
    } else if is_char(k, 'G') {
        (bottom, false)
    } else {
        (scroll, false)
    }
}

/// Applies a key to the scroll offset of a detail screen.
pub fn detail_scroll_key(scroll: u16, pending_g: bool, bottom: u16, k: &KeyEvent) -> (r: (u16, bool))
    ensures
        r == detail_scroll_step(scroll, pending_g, bottom, *k),
{
    if k.down() {
        (scroll_add(scroll, 1), false)
    } else if k.up() {
        (scroll_sub(scroll, 1), false)
    } else if k.ctrl_char_is('d') {
        (scroll_add(scroll, 20), false)
    } else if k.ctrl_char_is('u') {
        (scroll_sub(scroll, 20), false)
    } else if k.char_is('g') {
        if pending_g {
            (0, false)
        } else {
            (scroll, true)
        }
    } else if k.char_is('G') {
        (bottom, false)
    } else {
        (scroll, false)
    }
}

/// The number of screen lines that lines of the given widths take when
/// wrapped at `width` columns: an empty line takes one, a line of `w`
/// columns `(w - 1) / width + 1`.
pub open spec fn wrapped_lines(widths: Seq<usize>, width: nat) -> int
    decreases widths.len(),
{
    if widths.len() == 0 {
        0
    } else {
        let w = widths.last();
        wrapped_lines(widths.drop_last(), width) + if w == 0 {
            1
        } else {
            (w - 1) / (width as int) + 1
        }
    }
}

/// Counts the wrapped screen lines of a detail screen (width at least 1).
pub fn count_wrapped_lines(widths: &Vec<usize>, width: usize) -> (r: u16)
    requires
        width >= 1,
        wrapped_lines(widths@, width as nat) <= u16::MAX,
    ensures
        r == wrapped_lines(widths@, width as nat),
{
    let n = widths.len();
    let mut total: u16 = 0;
    let mut i: usize = 0;
    while i < n
        invariant
            n == widths@.len(),
            width >= 1,
            0 <= i <= n,
            total == wrapped_lines(widths@.take(i as int), width as nat),
            wrapped_lines(widths@, width as nat) <= u16::MAX,
        decreases n - i,
    {
        proof {
            assert(widths@.take(i + 1).drop_last() =~= widths@.take(i as int));
            lemma_wrapped_lines_prefix(widths@, width as nat, i as int + 1);
        }
        let w = widths[i];
        let add: usize = if w == 0 {
            1
        } else {
            (w - 1) / width + 1
        };
        total = total + add as u16;
        i = i + 1;
    }
    proof {
        assert(widths@.take(n as int) =~= widths@);
    }
    total
}

/// A prefix never wraps to more lines than the whole.
pub proof fn lemma_wrapped_lines_prefix(widths: Seq<usize>, width: nat, k: int)
    requires
        0 <= k <= widths.len(),
        width >= 1,
    ensures
        0 <= wrapped_lines(widths.take(k), width) <= wrapped_lines(widths, width),
    decreases widths.len(),
{
    if widths.len() > 0 {
        if k == widths.len() {
            assert(widths.take(k) =~= widths);
            lemma_wrapped_lines_prefix(widths.drop_last(), width, k - 1);
            assert(widths.drop_last().take(k - 1) =~= widths.drop_last());
        } else {
            lemma_wrapped_lines_prefix(widths.drop_last(), width, k);
            assert(widths.drop_last().take(k) =~= widths.take(k));
            lemma_wrapped_lines_prefix(widths.drop_last(), width, widths.len() - 1);
            assert(widths.drop_last().take(widths.len() - 1) =~= widths.drop_last());
        }
    } else {
        assert(widths.take(k) =~= widths);
    }
}

} // verus!
