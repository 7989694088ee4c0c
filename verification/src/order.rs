//! Sort keys and a stable sort over them. Every list of the views is shown
//! sorted by one column, ties kept in the order the service returned them;
//! `stable_order` is the one arrangement with that property.
use vstd::prelude::*;
use crate::text::{compare_chars, lemma_order_antisym, lemma_order_trans, seq_order};

verus! {

/// The value a row is sorted by, as plain data.
pub ghost enum KeyVal {
    /// Every row sorts equal.
    Same,
    Text(Seq<char>),
    Int(int),
    /// `None` sorts before every `Some`.
    OptInt(Option<int>),
    /// `None` sorts before every `Some`.
    OptText(Option<Seq<char>>),
}

/// The value a row is sorted by.
pub enum SortKey {
    Same,
    Text(Vec<char>),
    Int(i64),
    OptInt(Option<i64>),
    OptText(Option<Vec<char>>),
}

impl View for SortKey {
    type V = KeyVal;

    open spec fn view(&self) -> KeyVal {
        match self {
            SortKey::Same => KeyVal::Same,
            SortKey::Text(v) => KeyVal::Text(v@),
            SortKey::Int(i) => KeyVal::Int(*i as int),
            SortKey::OptInt(o) => KeyVal::OptInt(
                match o {
                    Some(i) => Some(*i as int),
                    None => None,
                },
            ),
            SortKey::OptText(o) => KeyVal::OptText(
                match o {
                    Some(v) => Some(v@),
                    None => None,
                },
            ),
        }
    }
}

/// A row to sort: rows of a lower `group` always come first; within a group
/// rows are ordered by `key`.
pub ghost struct EntryVal {
    pub group: int,
    pub key: KeyVal,
}

/// A row to sort.
pub struct SortEntry {
    pub group: u8,
    pub key: SortKey,
}

impl View for SortEntry {
    type V = EntryVal;

    open spec fn view(&self) -> EntryVal {
        EntryVal { group: self.group as int, key: self.key@ }
    }
}

/// The views of a list of rows.
pub open spec fn entry_vals(v: Seq<SortEntry>) -> Seq<EntryVal> {
    v.map_values(|e: SortEntry| e@)
}

/// -1, 0 or 1 as `a` is below, equal to or above `b`.
pub open spec fn sign(a: int, b: int) -> int {
    if a < b {
        -1
    } else if a > b {
        1
    } else {
        0
    }
}

/// The rank of a key's kind, which orders keys of different kinds.
pub open spec fn kind_rank(k: KeyVal) -> int {
    match k {
        KeyVal::Same => 0,
        KeyVal::Text(_) => 1,
        KeyVal::Int(_) => 2,
        KeyVal::OptInt(_) => 3,
        KeyVal::OptText(_) => 4,
    }
}

/// -1, 0 or 1 as key `a` sorts before, equal to or after key `b`.
pub open spec fn key_order(a: KeyVal, b: KeyVal) -> int {
    match (a, b) {
        (KeyVal::Same, KeyVal::Same) => 0,
        (KeyVal::Text(x), KeyVal::Text(y)) => seq_order(x, y),
        (KeyVal::Int(x), KeyVal::Int(y)) => sign(x, y),
        (KeyVal::OptInt(x), KeyVal::OptInt(y)) => match (x, y) {
            (None, None) => 0,
            (None, Some(_)) => -1,
            (Some(_), None) => 1,
            (Some(i), Some(j)) => sign(i, j),
        },
        (KeyVal::OptText(x), KeyVal::OptText(y)) => match (x, y) {
            (None, None) => 0,
            (None, Some(_)) => -1,
            (Some(_), None) => 1,
            (Some(s), Some(t)) => seq_order(s, t),
        },
        _ => sign(kind_rank(a), kind_rank(b)),
    }
}

/// -1, 0 or 1 as row `a` sorts before, equal to or after row `b`: by group,
/// then by key, the key order reversed when `desc`.
pub open spec fn entry_order(a: EntryVal, b: EntryVal, desc: bool) -> int {
    if a.group != b.group {
        sign(a.group, b.group)
    } else if desc {
        key_order(b.key, a.key)
    } else {
        key_order(a.key, b.key)
    }
}

/// Row `i` comes before row `j` in the sorted list: it sorts before it, or
/// sorts equal and came first.
pub open spec fn precedes(e: Seq<EntryVal>, desc: bool, i: int, j: int) -> bool {
    let c = entry_order(e[i], e[j], desc);
    c < 0 || (c == 0 && i < j)
}

/// `order` lists every row of `e` once, sorted, ties in their first order.
pub open spec fn is_stable_order(e: Seq<EntryVal>, desc: bool, order: Seq<usize>) -> bool {
    &&& order.len() == e.len()
    &&& forall|p: int| 0 <= p < order.len() ==> #[trigger] order[p] < e.len()
    &&& forall|v: usize| v < e.len() ==> order.contains(v)
    &&& forall|p: int, q: int|
        0 <= p < q < order.len() ==> precedes(e, desc, #[trigger] order[p] as int, #[trigger] order[q] as int)
}

/// The positions of the rows of `e` in sorted order, ties in their first
/// order. (There is exactly one such arrangement: `lemma_stable_order_unique`.)
pub open spec fn stable_order(e: Seq<EntryVal>, desc: bool) -> Seq<usize> {
    choose|o: Seq<usize>| is_stable_order(e, desc, o)
}

proof fn lemma_key_order_props(a: KeyVal, b: KeyVal)
    ensures
        key_order(a, b) == -key_order(b, a),
        -1 <= key_order(a, b) <= 1,
{
    match (a, b) {
        (KeyVal::Text(x), KeyVal::Text(y)) => {
            lemma_order_antisym(x, y);
        },
        (KeyVal::OptText(Some(s)), KeyVal::OptText(Some(t))) => {
            lemma_order_antisym(s, t);
        },
        _ => {},
    }
}

proof fn lemma_key_order_trans(a: KeyVal, b: KeyVal, c: KeyVal)
    requires
        key_order(a, b) <= 0,
        key_order(b, c) <= 0,
    ensures
        key_order(a, c) <= 0,
        key_order(a, b) < 0 || key_order(b, c) < 0 ==> key_order(a, c) < 0,
{
    lemma_key_order_props(a, b);
    lemma_key_order_props(b, c);
    lemma_key_order_props(a, c);
    match (a, b, c) {
        (KeyVal::Text(x), KeyVal::Text(y), KeyVal::Text(z)) => {
            lemma_order_trans(x, y, z);
        },
        (KeyVal::OptText(Some(x)), KeyVal::OptText(Some(y)), KeyVal::OptText(Some(z))) => {
            lemma_order_trans(x, y, z);
        },
        _ => {},
    }
}

proof fn lemma_entry_order_props(a: EntryVal, b: EntryVal, desc: bool)
    ensures
        entry_order(a, b, desc) == -entry_order(b, a, desc),
        -1 <= entry_order(a, b, desc) <= 1,
{
    lemma_key_order_props(a.key, b.key);
}

proof fn lemma_entry_order_trans(a: EntryVal, b: EntryVal, c: EntryVal, desc: bool)
    requires
        entry_order(a, b, desc) <= 0,
        entry_order(b, c, desc) <= 0,
    ensures
        entry_order(a, c, desc) <= 0,
        entry_order(a, b, desc) < 0 || entry_order(b, c, desc) < 0 ==> entry_order(a, c, desc) < 0,
{
    lemma_entry_order_props(a, b, desc);
    lemma_entry_order_props(b, c, desc);
    lemma_entry_order_props(a, c, desc);
    if a.group == b.group && b.group == c.group {
        if desc {
            lemma_key_order_trans(c.key, b.key, a.key);
        } else {
            lemma_key_order_trans(a.key, b.key, c.key);
        }
    }
}

/// `precedes` is a strict total order on the rows.
proof fn lemma_precedes_total(e: Seq<EntryVal>, desc: bool, i: int, j: int)
    requires
        0 <= i < e.len(),
        0 <= j < e.len(),
    ensures
        !precedes(e, desc, i, i),
        i != j ==> (precedes(e, desc, i, j) || precedes(e, desc, j, i)),
        !(precedes(e, desc, i, j) && precedes(e, desc, j, i)),
{
    lemma_entry_order_props(e[i], e[j], desc);
    lemma_entry_order_props(e[i], e[i], desc);
}

/// There is at most one stable sorted arrangement of the rows.
pub proof fn lemma_stable_order_unique(e: Seq<EntryVal>, desc: bool, o1: Seq<usize>, o2: Seq<usize>)
    requires
        is_stable_order(e, desc, o1),
        is_stable_order(e, desc, o2),
    ensures
        o1 == o2,
{
    assert forall|i: int| 0 <= i < o1.len() implies o1[i] == o2[i] by {
        lemma_unique_at(e, desc, o1, o2, i);
    }
    assert(o1 =~= o2);
}

proof fn lemma_unique_at(e: Seq<EntryVal>, desc: bool, o1: Seq<usize>, o2: Seq<usize>, i: int)
    requires
        is_stable_order(e, desc, o1),
        is_stable_order(e, desc, o2),
        0 <= i < o1.len(),
    ensures
        o1[i] == o2[i],
    decreases i,
{
    if o1[i] != o2[i] {
        let a = o1[i];
        let b = o2[i];
        // Positions before i agree.
        assert forall|t: int| 0 <= t < i implies o1[t] == o2[t] by {
            lemma_unique_at(e, desc, o1, o2, t);
        }
        // a occurs in o2 at some p; p > i.
        assert(o2.contains(a));
        let p = choose|p: int| 0 <= p < o2.len() && o2[p] == a;
        if p < i {
            assert(o1[p] == a);
            assert(precedes(e, desc, o1[p] as int, o1[i] as int));
            lemma_precedes_total(e, desc, a as int, a as int);
        }
        assert(p > i);
        assert(precedes(e, desc, o2[i] as int, o2[p] as int));
        // b occurs in o1 at some q; q > i.
        assert(o1.contains(b));
        let q = choose|q: int| 0 <= q < o1.len() && o1[q] == b;
        if q < i {
            assert(o2[q] == b);
            assert(precedes(e, desc, o2[q] as int, o2[i] as int));
            lemma_precedes_total(e, desc, b as int, b as int);
        }
        assert(q > i);
        assert(precedes(e, desc, o1[i] as int, o1[q] as int));
        lemma_precedes_total(e, desc, a as int, b as int);
    }
}

/// `precedes` is transitive.
proof fn lemma_precedes_trans(e: Seq<EntryVal>, desc: bool, a: int, b: int, c: int)
    requires
        0 <= a < e.len(),
        0 <= b < e.len(),
        0 <= c < e.len(),
        precedes(e, desc, a, b),
        precedes(e, desc, b, c),
    ensures
        precedes(e, desc, a, c),
{
    lemma_entry_order_trans(e[a], e[b], e[c], desc);
}

/// `o` lists the first `k` rows of `e` once each, sorted, ties in their
/// first order.
spec fn sorts_prefix(e: Seq<EntryVal>, desc: bool, k: nat, o: Seq<usize>) -> bool {
    &&& o.len() == k
    &&& forall|p: int| 0 <= p < o.len() ==> #[trigger] o[p] < k
    &&& forall|v: usize| v < k ==> o.contains(v)
    &&& forall|p: int, q: int|
        0 <= p < q < o.len() ==> precedes(e, desc, #[trigger] o[p] as int, #[trigger] o[q] as int)
}

/// The first position of `o`, from `p` on, whose row does not come before
/// row `x` (the length of `o` when there is none).
spec fn insert_at(e: Seq<EntryVal>, desc: bool, o: Seq<usize>, x: int, p: nat) -> nat
    decreases o.len() - p,
{
    if p >= o.len() {
        o.len()
    } else if !precedes(e, desc, o[p as int] as int, x) {
        p
    } else {
        insert_at(e, desc, o, x, p + 1)
    }
}

proof fn lemma_insert_at(e: Seq<EntryVal>, desc: bool, o: Seq<usize>, x: int, p: nat)
    requires
        p <= o.len(),
    ensures
        p <= insert_at(e, desc, o, x, p) <= o.len(),
        forall|t: int| p <= t < insert_at(e, desc, o, x, p) ==> precedes(e, desc, #[trigger] o[t] as int, x),
        insert_at(e, desc, o, x, p) < o.len() ==> !precedes(e, desc, o[insert_at(e, desc, o, x, p) as int] as int, x),
    decreases o.len() - p,
{
    if p < o.len() && precedes(e, desc, o[p as int] as int, x) {
        lemma_insert_at(e, desc, o, x, p + 1);
    }
}

/// The first `k` rows can be arranged in sorted order: insert each row in
/// turn after the rows that come before it.
proof fn lemma_sorted_prefix(e: Seq<EntryVal>, desc: bool, k: nat) -> (o: Seq<usize>)
    requires
        k <= e.len(),
        e.len() <= usize::MAX,
    ensures
        sorts_prefix(e, desc, k, o),
    decreases k,
{
    if k == 0 {
        Seq::empty()
    } else {
        let o1 = lemma_sorted_prefix(e, desc, (k - 1) as nat);
        let x: int = k - 1;
        let j = insert_at(e, desc, o1, x, 0);
        lemma_insert_at(e, desc, o1, x, 0);
        let o = o1.take(j as int).push(x as usize) + o1.skip(j as int);
        assert forall|p: int| 0 <= p < o.len() implies #[trigger] o[p] == (if p < j {
            o1[p]
        } else if p == j {
            x as usize
        } else {
            o1[p - 1]
        }) by {}
        assert forall|p: int| 0 <= p < o.len() implies #[trigger] o[p] < k by {
            if p != j {
                assert(o[p] == (if p < j { o1[p] } else { o1[p - 1] }));
            }
        }
        assert forall|v: usize| v < k implies o.contains(v) by {
            if v == x {
                assert(o[j as int] == v);
            } else {
                assert(o1.contains(v));
                let p1 = choose|p1: int| 0 <= p1 < o1.len() && o1[p1] == v;
                if p1 < j {
                    assert(o[p1] == v);
                } else {
                    assert(o[p1 + 1] == v);
                }
            }
        }
        assert forall|p: int, q: int| 0 <= p < q < o.len() implies precedes(
            e,
            desc,
            #[trigger] o[p] as int,
            #[trigger] o[q] as int,
        ) by {
            if q < j {
                assert(o[p] == o1[p] && o[q] == o1[q]);
            } else if q == j {
                assert(o[p] == o1[p]);
                assert(precedes(e, desc, o1[p] as int, x));
            } else if p < j {
                assert(o[p] == o1[p] && o[q] == o1[q - 1]);
                assert(precedes(e, desc, o1[p] as int, o1[q - 1] as int));
            } else if p == j {
                assert(o[q] == o1[q - 1]);
                assert(!precedes(e, desc, o1[j as int] as int, x));
                lemma_precedes_total(e, desc, o1[j as int] as int, x);
                if q - 1 > j {
                    assert(precedes(e, desc, o1[j as int] as int, o1[q - 1] as int));
                    lemma_precedes_trans(e, desc, x, o1[j as int] as int, o1[q - 1] as int);
                }
            } else {
                assert(o[p] == o1[p - 1] && o[q] == o1[q - 1]);
                assert(precedes(e, desc, o1[p - 1] as int, o1[q - 1] as int));
            }
        }
        o
    }
}

/// The rows of `e` (at most as many as a `usize` counts) have a sorted
/// arrangement, so `stable_order` is one.
pub proof fn lemma_stable_order_exists(e: Seq<EntryVal>, desc: bool)
    requires
        e.len() <= usize::MAX,
    ensures
        is_stable_order(e, desc, stable_order(e, desc)),
{
    let o = lemma_sorted_prefix(e, desc, e.len());
    assert(is_stable_order(e, desc, o));
}

/// The positions in a sorted arrangement differ from each other.
pub proof fn lemma_stable_order_distinct(e: Seq<EntryVal>, desc: bool, o: Seq<usize>)
    requires
        is_stable_order(e, desc, o),
    ensures
        forall|p: int, q: int| 0 <= p < q < o.len() ==> #[trigger] o[p] != #[trigger] o[q],
{
    assert forall|p: int, q: int| 0 <= p < q < o.len() implies #[trigger] o[p] != #[trigger] o[q] by {
        assert(precedes(e, desc, o[p] as int, o[q] as int));
        lemma_precedes_total(e, desc, o[p] as int, o[p] as int);
    }
}

/// Compares two texts.
fn compare_text(a: &Vec<char>, b: &Vec<char>) -> (r: i8)
    ensures
        r as int == seq_order(a@, b@),
        -1 <= r <= 1,
{
    proof {
        lemma_order_antisym(a@, b@);
    }
    compare_chars(a, b)
}

fn compare_int(a: i64, b: i64) -> (r: i8)
    ensures
        r as int == sign(a as int, b as int),
{
    if a < b {
        -1
    } else if a > b {
        1
    } else {
        0
    }
}

fn kind_of(k: &SortKey) -> (r: i8)
    ensures
        r as int == kind_rank(k@),
{
    match k {
        SortKey::Same => 0,
        SortKey::Text(_) => 1,
        SortKey::Int(_) => 2,
        SortKey::OptInt(_) => 3,
        SortKey::OptText(_) => 4,
    }
}

/// Compares two keys.
pub fn compare_keys(a: &SortKey, b: &SortKey) -> (r: i8)
    ensures
        r as int == key_order(a@, b@),
{
    match (a, b) {
        (SortKey::Same, SortKey::Same) => 0,
        (SortKey::Text(x), SortKey::Text(y)) => compare_text(x, y),
        (SortKey::Int(x), SortKey::Int(y)) => compare_int(*x, *y),
        (SortKey::OptInt(x), SortKey::OptInt(y)) => match (x, y) {
            (None, None) => 0,
            (None, Some(_)) => -1,
            (Some(_), None) => 1,
            (Some(i), Some(j)) => compare_int(*i, *j),
        },
        (SortKey::OptText(x), SortKey::OptText(y)) => match (x, y) {
            (None, None) => 0,
            (None, Some(_)) => -1,
            (Some(_), None) => 1,
            (Some(s), Some(t)) => compare_text(s, t),
        },
        _ => {
            let ka = kind_of(a);
            let kb = kind_of(b);
            if ka < kb {
                -1
            } else if ka > kb {
                1
            } else {
                0
            }
        },
    }
}

/// Compares two rows.
pub fn compare_entries(a: &SortEntry, b: &SortEntry, desc: bool) -> (r: i8)
    ensures
        r as int == entry_order(a@, b@, desc),
{
    if a.group < b.group {
        -1
    } else if a.group > b.group {
        1
    } else if desc {
        compare_keys(&b.key, &a.key)
    } else {
        compare_keys(&a.key, &b.key)
    }
}

/// The positions of `entries` in stable sorted order (insertion sort).
pub fn sort_order(entries: &Vec<SortEntry>, desc: bool) -> (order: Vec<usize>)
    ensures
        order@ == stable_order(entry_vals(entries@), desc),
        is_stable_order(entry_vals(entries@), desc, order@),
{
    let ghost e = entry_vals(entries@);
    let n = entries.len();
    let mut out: Vec<usize> = Vec::new();
    let mut k: usize = 0;
    while k < n
        invariant
            n == entries@.len(),
            e == entry_vals(entries@),
            e.len() == n,
            0 <= k <= n,
            out@.len() == k,
            forall|p: int| 0 <= p < out@.len() ==> #[trigger] out@[p] < k,
            forall|v: usize| v < k ==> out@.contains(v),
            forall|p: int, q: int|
                0 <= p < q < out@.len() ==> precedes(e, desc, #[trigger] out@[p] as int, #[trigger] out@[q] as int),
        decreases n - k,
    {
        let mut j: usize = 0;
        while j < out.len() && compare_entries(&entries[k], &entries[out[j]], desc) >= 0
            invariant
                n == entries@.len(),
                e == entry_vals(entries@),
                e.len() == n,
                0 <= k < n,
                out@.len() == k,
                0 <= j <= out@.len(),
                forall|p: int| 0 <= p < out@.len() ==> #[trigger] out@[p] < k,
                forall|p: int| 0 <= p < j ==> entry_order(e[k as int], e[#[trigger] out@[p] as int], desc) >= 0,
            decreases out@.len() - j,
        {
            proof {
                assert(e[k as int] == entries@[k as int]@);
                assert(e[out@[j as int] as int] == entries@[out@[j as int] as int]@);
            }
            j = j + 1;
        }
        proof {
            if j < out@.len() {
                assert(e[k as int] == entries@[k as int]@);
                assert(e[out@[j as int] as int] == entries@[out@[j as int] as int]@);
                assert(entry_order(e[k as int], e[out@[j as int] as int], desc) < 0);
            }
        }
        let ghost old_out = out@;
        out.insert(j, k);
        proof {
            let new_out = out@;
            assert(new_out == old_out.insert(j as int, k));
            // k precedes everything after it, everything before precedes k.
            assert forall|p: int| 0 <= p < j implies precedes(e, desc, old_out[p] as int, k as int) by {
                lemma_entry_order_props(e[k as int], e[old_out[p] as int], desc);
            }
            assert forall|p: int| j <= p < old_out.len() implies precedes(e, desc, k as int, old_out[p] as int) by {
                if p > j {
                    assert(precedes(e, desc, old_out[j as int] as int, old_out[p] as int));
                    lemma_entry_order_trans(e[k as int], e[old_out[j as int] as int], e[old_out[p] as int], desc);
                }
            }
            assert forall|p: int, q: int|
                0 <= p < q < new_out.len() implies precedes(e, desc, #[trigger] new_out[p] as int, #[trigger] new_out[q] as int) by {
                if q < j {
                    assert(new_out[p] == old_out[p] && new_out[q] == old_out[q]);
                } else if q == j {
                    assert(new_out[p] == old_out[p]);
                } else if p < j {
                    assert(new_out[p] == old_out[p] && new_out[q] == old_out[q - 1]);
                    assert(precedes(e, desc, old_out[p] as int, old_out[q - 1] as int));
                } else if p == j {
                    assert(new_out[q] == old_out[q - 1]);
                } else {
                    assert(new_out[p] == old_out[p - 1] && new_out[q] == old_out[q - 1]);
                }
            }
            assert forall|p: int| 0 <= p < new_out.len() implies #[trigger] new_out[p] < k + 1 by {
                if p < j {
                    assert(new_out[p] == old_out[p]);
                } else if p > j {
                    assert(new_out[p] == old_out[p - 1]);
                }
            }
            assert forall|v: usize| v < k + 1 implies new_out.contains(v) by {
                if v == k {
                    assert(new_out[j as int] == k);
                } else {
                    assert(old_out.contains(v));
                    let p = choose|p: int| 0 <= p < old_out.len() && old_out[p] == v;
                    if p < j {
                        assert(new_out[p] == v);
                    } else {
                        assert(new_out[p + 1] == v);
                    }
                }
            }
        }
        k = k + 1;
    }
    proof {
        assert(is_stable_order(e, desc, out@));
        lemma_stable_order_unique(e, desc, out@, stable_order(e, desc));
    }
    out
}

} // verus!

verus! {

/// The positions `i < n` where `keep(i)` holds, in increasing order.
pub open spec fn positions_where(n: nat, keep: spec_fn(int) -> bool) -> Seq<usize>
    decreases n,
{
    if n == 0 {
        Seq::empty()
    } else {
        let r = positions_where((n - 1) as nat, keep);
        if keep(n - 1) {
            r.push((n - 1) as usize)
        } else {
            r
        }
    }
}

/// Every position listed by `positions_where` is below `n`, and they rise.
pub proof fn lemma_positions_where(n: nat, keep: spec_fn(int) -> bool)
    requires
        n <= usize::MAX,
    ensures
        positions_where(n, keep).len() <= n,
        forall|p: int| 0 <= p < positions_where(n, keep).len() ==> #[trigger] positions_where(n, keep)[p] < n && keep(positions_where(n, keep)[p] as int),
    decreases n,
{
    if n > 0 {
        lemma_positions_where((n - 1) as nat, keep);
    }
}

/// `positions_where` lists exactly the positions below `n` that `keep`
/// keeps, each once, rising.
pub proof fn lemma_positions_where_exact(n: nat, keep: spec_fn(int) -> bool)
    requires
        n <= usize::MAX,
    ensures
        forall|i: int| #![trigger keep(i)] 0 <= i < n ==> (positions_where(n, keep).contains(i as usize) <==> keep(i)),
        forall|p: int, q: int|
            0 <= p < q < positions_where(n, keep).len() ==> #[trigger] positions_where(n, keep)[p]
                < #[trigger] positions_where(n, keep)[q],
    decreases n,
{
    lemma_positions_where(n, keep);
    if n > 0 {
        let m = (n - 1) as nat;
        lemma_positions_where_exact(m, keep);
        lemma_positions_where(m, keep);
        let r = positions_where(m, keep);
        assert forall|i: int| #![trigger keep(i)] 0 <= i < n implies (positions_where(n, keep).contains(i as usize) <==> keep(i)) by {
            if i < m {
                if keep(m as int) {
                    let r2 = r.push(m as usize);
                    assert(r2.contains(i as usize) ==> r.contains(i as usize)) by {
                        if r2.contains(i as usize) {
                            let t = choose|t: int| 0 <= t < r2.len() && r2[t] == i as usize;
                            if t < r.len() {
                                assert(r[t] == i as usize);
                            }
                        }
                    }
                    assert(r.contains(i as usize) ==> r.push(m as usize).contains(i as usize)) by {
                        if r.contains(i as usize) {
                            let t = choose|t: int| 0 <= t < r.len() && r[t] == i as usize;
                            assert(r.push(m as usize)[t] == i as usize);
                        }
                    }
                }
            } else {
                if keep(m as int) {
                    assert(r.push(m as usize)[r.len() as int] == m as usize);
                } else {
                    assert(!r.contains(m as usize)) by {
                        if r.contains(m as usize) {
                            let t = choose|t: int| 0 <= t < r.len() && r[t] == m as usize;
                            assert(r[t] < m);
                        }
                    }
                }
            }
        }
    }
}

/// Arranging rising positions by a sorted order of their rows lists each
/// of them once and nothing else.
pub proof fn lemma_arranged_permutes(pos: Seq<usize>, e: Seq<EntryVal>, desc: bool)
    requires
        pos.len() == e.len(),
        e.len() <= usize::MAX,
        forall|p: int, q: int| 0 <= p < q < pos.len() ==> #[trigger] pos[p] < #[trigger] pos[q],
    ensures
        arranged(pos, stable_order(e, desc)).len() == pos.len(),
        forall|x: usize|
            #![trigger arranged(pos, stable_order(e, desc)).contains(x)]
            #![trigger pos.contains(x)]
            arranged(pos, stable_order(e, desc)).contains(x) <==> pos.contains(x),
        forall|p: int, q: int|
            0 <= p < q < pos.len() ==> #[trigger] arranged(pos, stable_order(e, desc))[p] != #[trigger] arranged(
                pos,
                stable_order(e, desc),
            )[q],
{
    let o = stable_order(e, desc);
    lemma_stable_order_exists(e, desc);
    lemma_stable_order_distinct(e, desc, o);
    let a = arranged(pos, o);
    assert forall|x: usize| a.contains(x) <==> pos.contains(x) by {
        if a.contains(x) {
            let p = choose|p: int| 0 <= p < a.len() && a[p] == x;
            assert(pos[o[p] as int] == x);
        }
        if pos.contains(x) {
            let t = choose|t: int| 0 <= t < pos.len() && pos[t] == x;
            assert(o.contains(t as usize));
            let p = choose|p: int| 0 <= p < o.len() && o[p] == t as usize;
            assert(a[p] == x);
        }
    }
    assert forall|p: int, q: int| 0 <= p < q < pos.len() implies #[trigger] a[p] != #[trigger] a[q] by {
        assert(o[p] != o[q]);
        if o[p] < o[q] {
            assert(pos[o[p] as int] < pos[o[q] as int]);
        } else {
            assert(pos[o[q] as int] < pos[o[p] as int]);
        }
    }
}

/// The items of `pos` in the order `order` gives.
pub open spec fn arranged(pos: Seq<usize>, order: Seq<usize>) -> Seq<usize> {
    order.map_values(|p: usize| pos[p as int])
}

/// Picks the items of `pos` in the order `order` gives.
pub fn arrange(pos: &Vec<usize>, order: &Vec<usize>) -> (r: Vec<usize>)
    requires
        forall|p: int| 0 <= p < order@.len() ==> #[trigger] order@[p] < pos@.len(),
    ensures
        r@ == arranged(pos@, order@),
{
    let n = order.len();
    let mut r: Vec<usize> = Vec::new();
    let mut j: usize = 0;
    while j < n
        invariant
            n == order@.len(),
            forall|p: int| 0 <= p < order@.len() ==> #[trigger] order@[p] < pos@.len(),
            0 <= j <= n,
            r@ == arranged(pos@, order@.take(j as int)),
        decreases n - j,
    {
        r.push(pos[order[j]]);
        proof {
            assert(arranged(pos@, order@.take(j + 1)) =~= arranged(pos@, order@.take(j as int)).push(pos@[order@[j as int] as int]));
        }
        j = j + 1;
    }
    proof {
        assert(order@.take(n as int) =~= order@);
    }
    r
}

} // verus!

verus! {

/// The positions in reverse order.
pub fn reversed(v: &Vec<usize>) -> (r: Vec<usize>)
    ensures
        r@ == v@.reverse(),
{
    let n = v.len();
    let mut r: Vec<usize> = Vec::new();
    let mut i: usize = 0;
    while i < n
        invariant
            n == v@.len(),
            0 <= i <= n,
            r@.len() == i,
            forall|t: int| 0 <= t < i ==> #[trigger] r@[t] == v@[n - 1 - t],
        decreases n - i,
    {
        r.push(v[n - 1 - i]);
        i = i + 1;
    }
    proof {
        assert(r@ =~= v@.reverse());
    }
    r
}

} // verus!
