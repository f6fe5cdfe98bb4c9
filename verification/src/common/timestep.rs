//! The arithmetic of a fixed timestep: how many whole steps are due after
//! some time has passed, and how much time is carried over.
//!
//! Time is counted in nanoseconds. A step is due for every whole timestep
//! that has accumulated, so less than one timestep is carried over.

use vstd::arithmetic::div_mod::{
    lemma_fundamental_div_mod, lemma_fundamental_div_mod_converse, lemma_mod_bound,
};
use vstd::arithmetic::mul::{lemma_mul_is_commutative, lemma_mul_is_distributive_add_other_way};
use vstd::prelude::*;

verus! {

/// The number of steps due when `total` nanoseconds have accumulated: the
/// number of whole timesteps in them.
pub open spec fn steps_due(total: nat, timestep: nat) -> nat {
    if timestep == 0 {
        0
    } else {
        total / timestep
    }
}

/// The time carried over once the due steps are taken.
pub open spec fn time_left(total: nat, timestep: nat) -> nat {
    if timestep == 0 {
        total
    } else {
        total % timestep
    }
}

/// The due steps and the time carried over make up the accumulated time, and
/// less than one timestep is carried over.
pub proof fn lemma_steps_and_time_left(total: nat, timestep: nat)
    requires
        timestep > 0,
    ensures
        total == steps_due(total, timestep) * timestep + time_left(total, timestep),
        time_left(total, timestep) < timestep,
{
    lemma_fundamental_div_mod(total as int, timestep as int);
    lemma_mod_bound(total as int, timestep as int);
    lemma_mul_is_commutative(timestep as int, (total / timestep) as int);
}

/// A fixed timestep is deterministic: when exactly `n` timesteps pass, exactly
/// `n` steps are taken and the time carried over stays what it was.
pub proof fn lemma_whole_timesteps(accumulated: nat, n: nat, timestep: nat)
    requires
        accumulated < timestep,
    ensures
        steps_due(accumulated + n * timestep, timestep) == n,
        time_left(accumulated + n * timestep, timestep) == accumulated,
{
    lemma_fundamental_div_mod_converse(
        (accumulated + n * timestep) as int,
        timestep as int,
        n as int,
        accumulated as int,
    );
}

/// The number of steps does not depend on how the time arrives: time that
/// comes in two pieces gives as many steps, and carries over as much, as the
/// same time in one piece.
pub proof fn lemma_time_in_pieces(accumulated: nat, first: nat, second: nat, timestep: nat)
    requires
        timestep > 0,
    ensures
        steps_due(accumulated + first, timestep) + steps_due(
            time_left(accumulated + first, timestep) + second,
            timestep,
        ) == steps_due(accumulated + first + second, timestep),
        time_left(time_left(accumulated + first, timestep) + second, timestep) == time_left(
            accumulated + first + second,
            timestep,
        ),
{
    let t = timestep as int;
    let q1 = steps_due(accumulated + first, timestep) as int;
    let r1 = time_left(accumulated + first, timestep);
    let q2 = steps_due(r1 + second, timestep) as int;
    let r2 = time_left(r1 + second, timestep);
    lemma_steps_and_time_left(accumulated + first, timestep);
    lemma_steps_and_time_left(r1 + second, timestep);
    lemma_mul_is_distributive_add_other_way(t, q1, q2);
    lemma_fundamental_div_mod_converse(
        (accumulated + first + second) as int,
        t,
        q1 + q2,
        r2 as int,
    );
}

/// Adds the elapsed time to the accumulated time, takes out the steps that
/// are due, and returns their number.
pub(crate) fn take_due_steps(accumulated: &mut u64, elapsed: u64, timestep: u64) -> (steps: u64)
    requires
        timestep >= 2,
    ensures
        steps == steps_due((*old(accumulated) + elapsed) as nat, timestep as nat),
        *final(accumulated) == time_left((*old(accumulated) + elapsed) as nat, timestep as nat),
        *final(accumulated) < timestep,
{
    let total: u128 = *accumulated as u128 + elapsed as u128;
    let steps: u128 = total / (timestep as u128);
    let left: u128 = total % (timestep as u128);
    proof {
        lemma_steps_and_time_left(total as nat, timestep as nat);
        assert(steps * (timestep as int) >= steps * 2) by (nonlinear_arith)
            requires
                timestep >= 2,
                steps >= 0,
        ;
    }
    *accumulated = left as u64;
    steps as u64
}

} // verus!
