//! What the machine takes from outside: two pacing clocks and random bytes.
//! Nothing in this file is proved.

use vstd::prelude::*;

verus! {

/// `fixedstep::FixedStep`, a clock that fires at a fixed rate. Nothing is
/// known of what it holds.
#[verifier::external_type_specification]
#[verifier::external_body]
pub struct ExFixedStep(fixedstep::FixedStep);

/// Calls `fixedstep::FixedStep::start` with `hz` as the rate. Nothing is
/// claimed of the clock that comes back.
#[verifier::external_body]
pub(crate) fn start_clock(hz: u32) -> fixedstep::FixedStep {
    fixedstep::FixedStep::start(hz.into())
}

/// Calls `fixedstep::FixedStep::update`, which tells whether another period
/// of the clock is due. The answer depends on the time, so nothing is claimed
/// of it.
#[verifier::external_body]
pub(crate) fn clock_update(clock: &mut fixedstep::FixedStep) -> bool {
    clock.update()
}

/// Takes a byte from `rand::thread_rng()` with `rand::Rng::gen`. Any byte may
/// come back, so nothing is claimed of it.
#[verifier::external_body]
pub(crate) fn random_byte() -> u8 {
    rand::Rng::gen(&mut rand::thread_rng())
}

} // verus!
