//! Laws of whole runs of the reconciliation loop.
//!
//! A run is modelled by the probe readings of its ticks (`None` for a failed
//! probe) and, for each tick, whether an acquire call made on that tick would
//! succeed. Each tick makes the call [`plan_for`] gives and moves held state
//! as [`held_after`] says; these are the contracts of [`crate::held::HeldState::plan`],
//! [`crate::held::HeldState::record_acquire`] and [`crate::held::HeldState::take_for_release`].
use vstd::prelude::*;
use crate::held::{Action, plan_for, held_after};

verus! {

/// Whether an inhibitor is held after the first `n` ticks of a run that
/// started with held state `start`.
pub open spec fn held_at(start: bool, readings: Seq<Option<bool>>, acquired: Seq<bool>, n: nat) -> bool
    decreases n,
{
    if n == 0 {
        start
    } else {
        let h = held_at(start, readings, acquired, (n - 1) as nat);
        held_after(h, plan_for(h, readings[n - 1]), acquired[n - 1])
    }
}

/// The call made on tick `i` (counted from 0).
pub open spec fn action_at(start: bool, readings: Seq<Option<bool>>, acquired: Seq<bool>, i: nat) -> Action {
    plan_for(held_at(start, readings, acquired, i), readings[i as int])
}

/// Acquire calls made in the first `n` ticks.
pub open spec fn acquire_calls(start: bool, readings: Seq<Option<bool>>, acquired: Seq<bool>, n: nat) -> nat
    decreases n,
{
    if n == 0 {
        0
    } else {
        let prev = acquire_calls(start, readings, acquired, (n - 1) as nat);
        if action_at(start, readings, acquired, (n - 1) as nat) == Action::Acquire {
            prev + 1
        } else {
            prev
        }
    }
}

/// Acquire calls that succeeded in the first `n` ticks.
pub open spec fn acquisitions(start: bool, readings: Seq<Option<bool>>, acquired: Seq<bool>, n: nat) -> nat
    decreases n,
{
    if n == 0 {
        0
    } else {
        let prev = acquisitions(start, readings, acquired, (n - 1) as nat);
        if action_at(start, readings, acquired, (n - 1) as nat) == Action::Acquire && acquired[n
            - 1] {
            prev + 1
        } else {
            prev
        }
    }
}

/// Release calls made in the first `n` ticks.
pub open spec fn release_calls(start: bool, readings: Seq<Option<bool>>, acquired: Seq<bool>, n: nat) -> nat
    decreases n,
{
    if n == 0 {
        0
    } else {
        let prev = release_calls(start, readings, acquired, (n - 1) as nat);
        if action_at(start, readings, acquired, (n - 1) as nat) == Action::Release {
            prev + 1
        } else {
            prev
        }
    }
}

/// Ticks among the first `n` on which held state went from not held to held.
pub open spec fn entries(start: bool, readings: Seq<Option<bool>>, acquired: Seq<bool>, n: nat) -> nat
    decreases n,
{
    if n == 0 {
        0
    } else {
        let prev = entries(start, readings, acquired, (n - 1) as nat);
        if !held_at(start, readings, acquired, (n - 1) as nat) && held_at(start, readings, acquired, n) {
            prev + 1
        } else {
            prev
        }
    }
}

/// Ticks among the first `n` on which held state went from held to not held.
pub open spec fn exits(start: bool, readings: Seq<Option<bool>>, acquired: Seq<bool>, n: nat) -> nat
    decreases n,
{
    if n == 0 {
        0
    } else {
        let prev = exits(start, readings, acquired, (n - 1) as nat);
        if held_at(start, readings, acquired, (n - 1) as nat) && !held_at(start, readings, acquired, n) {
            prev + 1
        } else {
            prev
        }
    }
}

/// Release calls that shutdown makes in held state `held`.
pub open spec fn shutdown_releases(held: bool) -> nat {
    if held {
        1
    } else {
        0
    }
}

/// The most recent successful reading among the first `n` ticks.
pub open spec fn last_reading(readings: Seq<Option<bool>>, n: nat) -> Option<bool>
    decreases n,
{
    if n == 0 {
        None
    } else if readings[n - 1] is Some {
        readings[n - 1]
    } else {
        last_reading(readings, (n - 1) as nat)
    }
}

/// Where every acquire call succeeds, an inhibitor is held after a run from
/// start exactly when the most recent successful reading was `true`.
pub proof fn lemma_held_follows_last_reading(readings: Seq<Option<bool>>, acquired: Seq<bool>, n: nat)
    requires
        n <= readings.len(),
        n <= acquired.len(),
        forall|i: int| 0 <= i < n ==> acquired[i],
    ensures
        held_at(false, readings, acquired, n) == (last_reading(readings, n) == Some(true)),
    decreases n,
{
    if n > 0 {
        lemma_held_follows_last_reading(readings, acquired, (n - 1) as nat);
    }
}

/// No acquire call is made while an inhibitor is held and no release call
/// while none is; each acquire call that succeeds is one entry into the held
/// state, each release call one exit from it; and a run from start, followed
/// by shutdown, releases every inhibitor it acquired exactly once.
pub proof fn lemma_one_release_per_acquisition(readings: Seq<Option<bool>>, acquired: Seq<bool>, n: nat)
    requires
        n <= readings.len(),
        n <= acquired.len(),
    ensures
        forall|i: nat|
            i < n && #[trigger] action_at(false, readings, acquired, i) == Action::Acquire
                ==> !held_at(false, readings, acquired, i),
        forall|i: nat|
            i < n && #[trigger] action_at(false, readings, acquired, i) == Action::Release
                ==> held_at(false, readings, acquired, i),
        entries(false, readings, acquired, n) == acquisitions(false, readings, acquired, n),
        acquisitions(false, readings, acquired, n) <= acquire_calls(false, readings, acquired, n),
        release_calls(false, readings, acquired, n) == exits(false, readings, acquired, n),
        entries(false, readings, acquired, n) == release_calls(false, readings, acquired, n)
            + shutdown_releases(held_at(false, readings, acquired, n)),
    decreases n,
{
    if n > 0 {
        lemma_one_release_per_acquisition(readings, acquired, (n - 1) as nat);
    }
}

/// While readings keep agreeing with held state, no call is made and held
/// state stays as it was: repeated `true` readings while held acquire
/// nothing, repeated `false` readings while not held release nothing.
pub proof fn lemma_steady_readings_make_no_calls(
    start: bool,
    readings: Seq<Option<bool>>,
    acquired: Seq<bool>,
    n: nat,
)
    requires
        n <= readings.len(),
        forall|i: int| 0 <= i < n ==> readings[i] == Some(start),
    ensures
        held_at(start, readings, acquired, n) == start,
        acquire_calls(start, readings, acquired, n) == 0,
        release_calls(start, readings, acquired, n) == 0,
    decreases n,
{
    if n > 0 {
        lemma_steady_readings_make_no_calls(start, readings, acquired, (n - 1) as nat);
    }
}

/// A tick whose probe failed makes no call and leaves held state as it was,
/// whatever it was.
pub proof fn lemma_failed_probe_keeps_state(
    start: bool,
    readings: Seq<Option<bool>>,
    acquired: Seq<bool>,
    i: nat,
)
    requires
        i < readings.len(),
        readings[i as int] is None,
    ensures
        action_at(start, readings, acquired, i) == Action::Stay,
        held_at(start, readings, acquired, i + 1) == held_at(start, readings, acquired, i),
{
}

} // verus!
