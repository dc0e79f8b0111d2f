//! Virtual-clock tick arithmetic.
//!
//! Simulated instants are UTC timestamps in microseconds since the Unix
//! epoch, held as `i64`. A tick duration `d` (also microseconds, positive)
//! divides the timeline into boundaries at the multiples of `d`; the engine
//! emits its synthetic ticks on those boundaries. The one operation needed
//! is "the first boundary at or after an instant".

use vstd::prelude::*;

use vstd::arithmetic::div_mod::lemma_fundamental_div_mod;
use vstd::arithmetic::div_mod::lemma_mod_add_multiples_vanish;
use vstd::arithmetic::div_mod::lemma_mod_division_less_than_divisor;
use vstd::arithmetic::div_mod::lemma_mod_multiples_basic;

verus! {

/// The first multiple of `d` that is at or after `t` (mathematically, with
/// no overflow concern).
pub open spec fn spec_tick_boundary(t: int, d: int) -> int
    recommends
        d > 0,
{
    if t % d == 0 {
        t
    } else {
        t + d - (t % d)
    }
}

/// The basic facts about a tick boundary: it is at or after `t`, less than
/// one whole tick after `t`, and itself a multiple of `d`.
pub proof fn lemma_tick_boundary_props(t: int, d: int)
    requires
        d > 0,
    ensures
        t <= spec_tick_boundary(t, d) < t + d,
        spec_tick_boundary(t, d) % d == 0,
{
    lemma_mod_division_less_than_divisor(t, d);
    if t % d == 0 {
    } else {
        lemma_fundamental_div_mod(t, d);
        assert(t + d - (t % d) == d * (t / d) + d);
        assert((t / d + 1) * d == d * (t / d) + d) by (nonlinear_arith);
        lemma_mod_multiples_basic(t / d + 1, d);
    }
}

/// The law behind regular ticking: when a tick is emitted on boundary
/// `b = spec_tick_boundary(t, d)` the engine next looks for a boundary at or
/// after `b + d`, and that is `b + d` itself. With no external events
/// pending, repeated advancement therefore returns strictly increasing
/// instants spaced exactly `d` apart, starting at the first `d`-boundary at
/// or after the start instant.
pub proof fn lemma_tick_spacing(t: int, d: int)
    requires
        d > 0,
    ensures
        spec_tick_boundary(t, d) + d > spec_tick_boundary(t, d),
        spec_tick_boundary(spec_tick_boundary(t, d) + d, d) == spec_tick_boundary(t, d) + d,
{
    let b = spec_tick_boundary(t, d);
    lemma_tick_boundary_props(t, d);
    lemma_mod_add_multiples_vanish(b, d);
    assert((b + d) % d == 0);
}

/// Computes the first `d`-boundary at or after `t`, or `None` when that
/// boundary does not fit in an `i64`.
pub fn tick_boundary(t: i64, d: i64) -> (r: Option<i64>)
    requires
        d > 0,
    ensures
        match r {
            Some(b) => b == spec_tick_boundary(t as int, d as int),
            None => spec_tick_boundary(t as int, d as int) > i64::MAX,
        },
{
    proof {
        lemma_mod_division_less_than_divisor(t as int, d as int);
    }
    let m = t.checked_rem_euclid(d).unwrap();
    if m == 0 {
        Some(t)
    } else {
        t.checked_add(d - m)
    }
}

} // verus!
