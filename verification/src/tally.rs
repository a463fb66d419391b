//! Sums over the space of transaction identifiers.
//!
//! A history is keyed by `u64`, so a quantity that adds up one term per
//! identifier is a sum of exactly `id_space()` terms. Summing over the whole
//! identifier range, rather than over the keys a history happens to hold,
//! needs no counting argument: the number of terms never changes, only the
//! terms do.

use vstd::prelude::*;

verus! {

/// How many transaction identifiers there are.
pub open spec fn id_space() -> nat {
    0x1_0000_0000_0000_0000
}

/// The sum of `weight(id)` over the identifiers `0 .. n`.
pub open spec fn sum_below(weight: spec_fn(u64) -> int, n: nat) -> int
    decreases n,
{
    if n == 0 {
        0
    } else {
        sum_below(weight, (n - 1) as nat) + weight((n - 1) as u64)
    }
}

/// The sum of `weight(id)` over every identifier.
pub open spec fn sum_all(weight: spec_fn(u64) -> int) -> int {
    sum_below(weight, id_space())
}

/// A sum of `n` terms that all lie between `lo` and `hi` lies between
/// `n * lo` and `n * hi`.
pub proof fn lemma_sum_bounds(weight: spec_fn(u64) -> int, n: nat, lo: int, hi: int)
    requires
        n <= id_space(),
        forall|id: u64| id < n ==> lo <= #[trigger] weight(id) <= hi,
    ensures
        n * lo <= sum_below(weight, n) <= n * hi,
    decreases n,
{
    if n > 0 {
        let m = (n - 1) as nat;
        lemma_sum_bounds(weight, m, lo, hi);
        assert(lo <= weight(m as u64) <= hi);
        assert(n * lo == m * lo + lo) by (nonlinear_arith)
            requires
                n == m + 1,
        ;
        assert(n * hi == m * hi + hi) by (nonlinear_arith)
            requires
                n == m + 1,
        ;
    }
}

/// Two weights that agree on every identifier but `id` have sums that
/// differ by what the term at `id` differs by, once the range reaches it.
pub proof fn lemma_sum_one_term(
    before: spec_fn(u64) -> int,
    after: spec_fn(u64) -> int,
    id: u64,
    n: nat,
)
    requires
        n <= id_space(),
        forall|other: u64| other != id ==> #[trigger] after(other) == before(other),
    ensures
        sum_below(after, n) == sum_below(before, n) + if id < n {
            after(id) - before(id)
        } else {
            0
        },
    decreases n,
{
    if n > 0 {
        let m = (n - 1) as nat;
        lemma_sum_one_term(before, after, id, m);
        if m as u64 != id {
            assert(after(m as u64) == before(m as u64));
        }
    }
}

/// Where no term is negative, no partial sum is.
pub proof fn lemma_sum_nonnegative(weight: spec_fn(u64) -> int, n: nat)
    requires
        n <= id_space(),
        forall|id: u64| 0 <= #[trigger] weight(id),
    ensures
        0 <= sum_below(weight, n),
    decreases n,
{
    if n > 0 {
        lemma_sum_nonnegative(weight, (n - 1) as nat);
        assert(0 <= weight((n - 1) as u64));
    }
}

/// Where no term is negative, the sum over every identifier is at least
/// any single term.
pub proof fn lemma_sum_covers_term(weight: spec_fn(u64) -> int, id: u64)
    requires
        forall|other: u64| 0 <= #[trigger] weight(other),
    ensures
        0 <= weight(id) <= sum_all(weight),
{
    let rest = |other: u64|
        if other == id {
            0
        } else {
            weight(other)
        };
    assert forall|other: u64| 0 <= #[trigger] rest(other) by {
        assert(0 <= weight(other));
    }
    lemma_sum_one_term(rest, weight, id, id_space());
    lemma_sum_nonnegative(rest, id_space());
}

} // verus!
