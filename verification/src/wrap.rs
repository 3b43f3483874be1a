//! Wraparound selection arithmetic shared by every cyclic axis: page list,
//! in-page items, flat table list, favorites list and search-result cursor.

use vstd::prelude::*;

verus! {

/// Index reached from `i` by one "next" step on a cyclic axis of `n`
/// entries. An empty axis is a no-op holding the index at 0.
pub open spec fn spec_next_index(i: int, n: int) -> int {
    if n <= 0 {
        0
    } else if i + 1 < n {
        i + 1
    } else {
        0
    }
}

/// Index reached from `i` by one "prev" step on a cyclic axis of `n`
/// entries. An empty axis is a no-op holding the index at 0.
pub open spec fn spec_prev_index(i: int, n: int) -> int {
    if n <= 0 {
        0
    } else if i > 0 {
        i - 1
    } else {
        n - 1
    }
}

/// An index is valid for an axis of `n` entries when it lies in `[0, n)`,
/// or is pinned at 0 when the axis is empty.
pub open spec fn valid_index(i: int, n: int) -> bool {
    if n == 0 {
        i == 0
    } else {
        0 <= i < n
    }
}

pub fn next_index(i: usize, n: usize) -> (r: usize)
    requires
        valid_index(i as int, n as int),
    ensures
        r == spec_next_index(i as int, n as int),
        valid_index(r as int, n as int),
{
    if n == 0 {
        0
    } else if i + 1 < n {
        i + 1
    } else {
        0
    }
}

pub fn prev_index(i: usize, n: usize) -> (r: usize)
    requires
        valid_index(i as int, n as int),
    ensures
        r == spec_prev_index(i as int, n as int),
        valid_index(r as int, n as int),
{
    if n == 0 {
        0
    } else if i > 0 {
        i - 1
    } else {
        n - 1
    }
}

/// Index reached from `i` after `k` "next" steps on an axis of `n` entries.
pub open spec fn spec_iter_next(i: int, n: int, k: nat) -> int
    decreases k,
{
    if k == 0 {
        i
    } else {
        spec_next_index(spec_iter_next(i, n, (k - 1) as nat), n)
    }
}

/// On a non-empty axis, "next" acts as addition by one modulo the count.
pub proof fn lemma_iter_next_mod(i: int, n: int, k: nat)
    requires
        0 < n,
        0 <= i < n,
    ensures
        spec_iter_next(i, n, k) == (i + k) % n,
    decreases k,
{
    if k == 0 {
        assert((i + 0) % n == i) by {
            vstd::arithmetic::div_mod::lemma_small_mod(i as nat, n as nat);
        }
    } else {
        lemma_iter_next_mod(i, n, (k - 1) as nat);
        let prev = (i + k - 1) % n;
        vstd::arithmetic::div_mod::lemma_fundamental_div_mod(i + k - 1, n);
        let q = (i + k - 1) / n;
        if prev + 1 < n {
            assert(i + k == q * n + (prev + 1)) by (nonlinear_arith)
                requires
                    i + k - 1 == n * q + prev,
            ;
            vstd::arithmetic::div_mod::lemma_fundamental_div_mod_converse(i + k, n, q, prev + 1);
        } else {
            assert(prev == n - 1);
            assert(i + k == (q + 1) * n + 0) by (nonlinear_arith)
                requires
                    i + k - 1 == n * q + prev,
                    prev == n - 1,
            ;
            vstd::arithmetic::div_mod::lemma_fundamental_div_mod_converse(i + k, n, q + 1, 0);
        }
    }
}

/// Cyclic-group law: on an axis of `n > 0` entries, repeating "next"
/// `n` times returns to the starting index.
pub proof fn lemma_next_cycle(i: int, n: int)
    requires
        0 < n,
        0 <= i < n,
    ensures
        spec_iter_next(i, n, n as nat) == i,
{
    lemma_iter_next_mod(i, n, n as nat);
    vstd::arithmetic::div_mod::lemma_mod_add_multiples_vanish(i, n);
    vstd::arithmetic::div_mod::lemma_small_mod(i as nat, n as nat);
}

/// On an empty axis, "next" and "prev" are no-ops: the index stays 0.
pub proof fn lemma_empty_axis_noop(k: nat)
    ensures
        spec_next_index(0, 0) == 0,
        spec_prev_index(0, 0) == 0,
        spec_iter_next(0, 0, k) == 0,
    decreases k,
{
    if k > 0 {
        lemma_empty_axis_noop((k - 1) as nat);
    }
}

} // verus!
