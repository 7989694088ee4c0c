//! Human-readable byte sizes.
use vstd::prelude::*;
use crate::text::{digit, digit_char, digits, int_text, push_char, push_digits, push_int, push_str};

verus! {

/// `bytes * 10 / unit` rounded to the nearest integer, halves to the even
/// neighbour: the size in tenths of `unit`, as `{:.1}` prints it.
pub open spec fn round_tenths(bytes: nat, unit: nat) -> nat
    recommends
        unit > 0,
{
    let q = (bytes * 10) / unit;
    let r = (bytes * 10) % unit;
    if 2 * r > unit || (2 * r == unit && q % 2 == 1) {
        q + 1
    } else {
        q
    }
}

/// A count of tenths written with one decimal: `123` is `12.3`.
pub open spec fn tenths_text(t: nat) -> Seq<char> {
    digits(t / 10) + seq!['.', digit_char(t % 10)]
}

/// A byte count for people: below 1 KiB the count and `B`, else the size in
/// KiB, MiB or GiB (the largest that is at most the count) with one decimal
/// and `KB`, `MB` or `GB`.
pub open spec fn size_text(bytes: int) -> Seq<char> {
    if bytes < 1024 {
        int_text(bytes) + " B"@
    } else if bytes < 1024 * 1024 {
        tenths_text(round_tenths(bytes as nat, 1024)) + " KB"@
    } else if bytes < 1024 * 1024 * 1024 {
        tenths_text(round_tenths(bytes as nat, 1024 * 1024)) + " MB"@
    } else {
        tenths_text(round_tenths(bytes as nat, 1024 * 1024 * 1024)) + " GB"@
    }
}

fn push_tenths(s: &mut String, bytes: i64, unit: u64)
    requires
        bytes >= 0,
        unit > 0,
    ensures
        final(s)@ == old(s)@ + tenths_text(round_tenths(bytes as nat, unit as nat)),
{
    let num: u128 = (bytes as u128) * 10;
    let u = unit as u128;
    let q = num / u;
    let r = num % u;
    let t: u128 = if 2 * r > u || (2 * r == u && q % 2 == 1) {
        q + 1
    } else {
        q
    };
    assert(t == round_tenths(bytes as nat, unit as nat));
    assert(t <= 100_000_000_000_000_000_000u128) by (nonlinear_arith)
        requires
            t <= q + 1,
            q == num / u,
            u >= 1,
            num <= 92_233_720_368_547_758_070u128,
    ;
    push_digits(s, (t / 10) as u64);
    push_char(s, '.');
    push_char(s, digit((t % 10) as u64));
    let ghost mid = old(s)@ + digits((t / 10) as nat);
    proof {
        assert(s@ =~= old(s)@ + tenths_text(t as nat));
    }
}

/// Formats a byte count for people (see `size_text`).
pub fn human_size(bytes: i64) -> (r: String)
    ensures
        r@ == size_text(bytes as int),
{
    let mut s = String::new();
    if bytes < 1024 {
        push_int(&mut s, bytes);
        push_str(&mut s, " B");
    } else if bytes < 1024 * 1024 {
        push_tenths(&mut s, bytes, 1024);
        push_str(&mut s, " KB");
    } else if bytes < 1024 * 1024 * 1024 {
        push_tenths(&mut s, bytes, 1024 * 1024);
        push_str(&mut s, " MB");
    } else {
        push_tenths(&mut s, bytes, 1024 * 1024 * 1024);
        push_str(&mut s, " GB");
    }
    proof {
        assert(s@ =~= size_text(bytes as int));
    }
    s
}

} // verus!
