//! Status-indicator feedback patterns.
//!
//! After each actuation a detached task drives the indicator through a
//! five-step pattern: all steps lit after a success, one step silent
//! after a hardware fault, so the two are distinguishable without
//! blocking the next actuation. Each lit step holds for `BLINK_ON_MS`
//! and every step settles for `BLINK_SETTLE_MS`.

use vstd::prelude::*;

verus! {

/// How long a lit step stays on, in milliseconds.
pub const BLINK_ON_MS: u64 = 500;

/// Settle time after each step, in milliseconds.
pub const BLINK_SETTLE_MS: u64 = 200;

/// The all-on pattern driven after a successful actuation.
pub fn success_pattern() -> (r: Vec<bool>)
    ensures
        r@ == seq![true, true, true, true, true],
{
    let mut v: Vec<bool> = Vec::new();
    v.push(true);
    v.push(true);
    v.push(true);
    v.push(true);
    v.push(true);
    proof {
        assert(v@ =~= seq![true, true, true, true, true]);
    }
    v
}

/// The fault pattern driven after a hardware failure during actuation:
/// its second step is silent.
pub fn fault_pattern() -> (r: Vec<bool>)
    ensures
        r@ == seq![true, false, true, true, true],
{
    let mut v: Vec<bool> = Vec::new();
    v.push(true);
    v.push(false);
    v.push(true);
    v.push(true);
    v.push(true);
    proof {
        assert(v@ =~= seq![true, false, true, true, true]);
    }
    v
}

} // verus!
