//! Spec-level vocabulary for sparse grids: maps from an unbounded index to a
//! value, the key-shifting operations behind row/column insertion and
//! deletion, and the search for the highest occupied index.

use vstd::prelude::*;

verus! {

broadcast use vstd::std_specs::hash::group_hash_axioms;

/// Every key at or above `at` moves up by one; the slot at `at` becomes
/// empty. The entry at `usize::MAX`, if any, is lost.
pub open spec fn shift_up<V>(m: Map<usize, V>, at: usize) -> Map<usize, V> {
    Map::new(
        |k: usize|
            (k < at && m.dom().contains(k)) || (k > at && m.dom().contains((k - 1) as usize)),
        |k: usize|
            if k < at {
                m[k]
            } else {
                m[(k - 1) as usize]
            },
    )
}

/// The entry at `at` disappears and every key above `at` moves down by one.
pub open spec fn shift_down<V>(m: Map<usize, V>, at: usize) -> Map<usize, V> {
    Map::new(
        |k: usize|
            (k < at && m.dom().contains(k)) || (at <= k && k < usize::MAX && m.dom().contains(
                (k + 1) as usize,
            )),
        |k: usize|
            if k < at {
                m[k]
            } else {
                m[(k + 1) as usize]
            },
    )
}

/// Shifting up at `at` and then deleting the (empty) slot at `at` restores
/// the original map, provided no key sits at `usize::MAX` where the shift
/// would lose it.
pub proof fn lemma_shift_up_down<V>(m: Map<usize, V>, at: usize)
    requires
        forall|k: usize| #[trigger] m.dom().contains(k) ==> k < usize::MAX,
    ensures
        shift_down(shift_up(m, at), at) == m,
{
    assert(shift_down(shift_up(m, at), at) =~= m);
}

/// As `lemma_shift_up_down`, with a filler entry placed in the emptied slot
/// before the deletion removes it again.
pub proof fn lemma_shift_up_insert_down<V>(m: Map<usize, V>, at: usize, filler: V)
    requires
        forall|k: usize| #[trigger] m.dom().contains(k) ==> k < usize::MAX,
    ensures
        shift_down(shift_up(m, at).insert(at, filler), at) == m,
{
    assert(shift_down(shift_up(m, at).insert(at, filler), at) =~= m);
}

/// The highest key of `m` in the closed range `[lo, hi]`, if any.
pub open spec fn max_key_in_range<V>(m: Map<usize, V>, lo: usize, hi: usize) -> Option<usize>
    decreases hi - lo,
{
    if lo > hi {
        None
    } else if m.dom().contains(hi) {
        Some(hi)
    } else if lo < hi {
        max_key_in_range(m, lo, (hi - 1) as usize)
    } else {
        None
    }
}

/// If some key `j` of `m` lies in `[lo, hi]`, the highest key in that range
/// exists, is a key of `m`, and lies between `j` and `hi`.
pub proof fn lemma_max_key_in_range_ge<V>(m: Map<usize, V>, lo: usize, hi: usize, j: usize)
    requires
        m.dom().contains(j),
        lo <= j <= hi,
    ensures
        match max_key_in_range(m, lo, hi) {
            Some(k) => j <= k <= hi && m.dom().contains(k),
            None => false,
        },
    decreases hi - lo,
{
    if m.dom().contains(hi) {
    } else {
        lemma_max_key_in_range_ge(m, lo, (hi - 1) as usize, j);
    }
}

/// Mapping a function over the values does not change which key is the
/// highest in a range.
pub proof fn lemma_max_key_map_values<V, W>(
    m: Map<usize, V>,
    lo: usize,
    hi: usize,
    f: spec_fn(V) -> W,
)
    ensures
        max_key_in_range(m.map_values(f), lo, hi) == max_key_in_range(m, lo, hi),
    decreases hi - lo,
{
    if lo > hi {
    } else if m.dom().contains(hi) {
        assert(m.map_values(f).dom().contains(hi));
    } else if lo < hi {
        assert(!m.map_values(f).dom().contains(hi));
        lemma_max_key_map_values(m, lo, (hi - 1) as usize, f);
    } else {
        assert(!m.map_values(f).dom().contains(hi));
    }
}

/// Mapping a function over the values commutes with an upward shift.
pub proof fn lemma_map_values_shift_up<V, W>(m: Map<usize, V>, at: usize, f: spec_fn(V) -> W)
    ensures
        shift_up(m, at).map_values(f) == shift_up(m.map_values(f), at),
{
    assert(shift_up(m, at).map_values(f) =~= shift_up(m.map_values(f), at));
}

/// Mapping a function over the values commutes with a downward shift.
pub proof fn lemma_map_values_shift_down<V, W>(m: Map<usize, V>, at: usize, f: spec_fn(V) -> W)
    ensures
        shift_down(m, at).map_values(f) == shift_down(m.map_values(f), at),
{
    assert(shift_down(m, at).map_values(f) =~= shift_down(m.map_values(f), at));
}

/// Mapping a function over the values commutes with inserting one entry.
pub proof fn lemma_map_values_insert<V, W>(m: Map<usize, V>, k: usize, v: V, f: spec_fn(V) -> W)
    ensures
        m.insert(k, v).map_values(f) == m.map_values(f).insert(k, f(v)),
{
    assert(m.insert(k, v).map_values(f) =~= m.map_values(f).insert(k, f(v)));
}

/// Mapping a function over the values commutes with removing one entry.
pub proof fn lemma_map_values_remove<V, W>(m: Map<usize, V>, k: usize, f: spec_fn(V) -> W)
    ensures
        m.remove(k).map_values(f) == m.map_values(f).remove(k),
{
    assert(m.remove(k).map_values(f) =~= m.map_values(f).remove(k));
}


/// Intermediate state of a descending relocation loop that shifts keys up:
/// keys at or below `i` are untouched, the slot `i + 1` has been emptied,
/// and every key at or above `i + 2` holds what stood one below it.
pub open spec fn shift_up_partial<V>(m: Map<usize, V>, i: int) -> Map<usize, V> {
    Map::new(
        |k: usize|
            if k <= i {
                m.dom().contains(k)
            } else if k >= i + 2 {
                m.dom().contains((k - 1) as usize)
            } else {
                false
            },
        |k: usize|
            if k <= i {
                m[k]
            } else {
                m[(k - 1) as usize]
            },
    )
}

/// Intermediate state of an ascending relocation loop that shifts keys above
/// `at` down: keys below `at` are untouched, keys `at ..= i - 2` hold what
/// stood one above them, the slot `i - 1` has been emptied, and keys at or
/// above `i` (other than the removed `at`) are untouched.
pub open spec fn shift_down_partial<V>(m: Map<usize, V>, at: usize, i: int) -> Map<usize, V> {
    Map::new(
        |k: usize|
            if k < at {
                m.dom().contains(k)
            } else if k + 2 <= i {
                k < usize::MAX && m.dom().contains((k + 1) as usize)
            } else if k < i {
                false
            } else {
                k != at && m.dom().contains(k)
            },
        |k: usize|
            if k < at {
                m[k]
            } else if k + 2 <= i {
                m[(k + 1) as usize]
            } else {
                m[k]
            },
    )
}

/// Inserting the value a map already holds at `k` changes nothing.
pub proof fn lemma_insert_same<V>(m: Map<usize, V>, k: usize)
    requires
        m.dom().contains(k),
    ensures
        m.insert(k, m[k]) == m,
{
    assert(m.insert(k, m[k]) =~= m);
}

/// The highest key of `m` at or below `from`, or 0 when there is none: the
/// downward scan that recomputes the highest occupied index after a removal.
pub fn scan_max_key<V>(m: &std::collections::HashMap<usize, V>, from: usize) -> (r: usize)
    ensures
        r == match max_key_in_range(m@, 0, from) {
            Some(k) => k,
            None => 0usize,
        },
{
    let mut idx: usize = from;
    while idx > 0 && !m.contains_key(&idx)
        invariant
            idx <= from,
            max_key_in_range(m@, 0, from) == max_key_in_range(m@, 0, idx),
        decreases idx,
    {
        idx = idx - 1;
    }
    if m.contains_key(&idx) {
        idx
    } else {
        0
    }
}

} // verus!

