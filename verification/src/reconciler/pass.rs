//! The order of a pass.
use vstd::prelude::*;

verus! {

/// What a pass does next.
#[derive(Debug, Clone, Copy, PartialEq, Eq, Structural)]
pub enum PassStep {
    /// Complete the revocations of partitions that can be completed.
    Revocations,
    /// See whether there is anything to look at.
    CheckSkip,
    /// Build, route and rebuild what is committed.
    Additions,
    /// Tear down what is not.
    Removals,
    /// Answer or age the frames that wait for a partition.
    ParkedFrames,
    /// Reclaim the offsets of groups that are gone.
    GroupOffsets,
    /// Trim partitions to their committed watermarks.
    Truncations,
    /// Wipe partitions whose topic was purged.
    Purges,
    /// Remember what the pass saw.
    Finish,
    /// The pass is over; whether it looked at anything.
    Done(bool),
}

/// The step behind `step`; `skip` says whether there is nothing to look at,
/// and counts only where that is checked.
pub open spec fn step_after(step: PassStep, skip: bool) -> PassStep {
    match step {
        PassStep::Revocations => PassStep::CheckSkip,
        PassStep::CheckSkip => if skip {
            PassStep::Done(false)
        } else {
            PassStep::Additions
        },
        PassStep::Additions => PassStep::Removals,
        PassStep::Removals => PassStep::ParkedFrames,
        PassStep::ParkedFrames => PassStep::GroupOffsets,
        PassStep::GroupOffsets => PassStep::Truncations,
        PassStep::Truncations => PassStep::Purges,
        PassStep::Purges => PassStep::Finish,
        PassStep::Finish => PassStep::Done(true),
        PassStep::Done(ran) => PassStep::Done(ran),
    }
}

/// The step that every pass begins with. Neither a timeout nor a drained
/// partition changes the metadata's revision, so revocations come before the
/// look at it.
pub fn first_step() -> (step: PassStep)
    ensures
        step == PassStep::Revocations,
{
    PassStep::Revocations
}

/// The step behind `step`.
pub fn next_step(step: PassStep, skip: bool) -> (next: PassStep)
    ensures
        next == step_after(step, skip),
{
    match step {
        PassStep::Revocations => PassStep::CheckSkip,
        PassStep::CheckSkip => if skip {
            PassStep::Done(false)
        } else {
            PassStep::Additions
        },
        PassStep::Additions => PassStep::Removals,
        PassStep::Removals => PassStep::ParkedFrames,
        PassStep::ParkedFrames => PassStep::GroupOffsets,
        PassStep::GroupOffsets => PassStep::Truncations,
        PassStep::Truncations => PassStep::Purges,
        PassStep::Purges => PassStep::Finish,
        PassStep::Finish => PassStep::Done(true),
        PassStep::Done(ran) => PassStep::Done(ran),
    }
}

/// The step that a pass is at after `steps` steps.
pub open spec fn step_at(steps: nat, skip: bool) -> PassStep
    decreases steps,
{
    if steps == 0 {
        PassStep::Revocations
    } else {
        step_after(step_at((steps - 1) as nat, skip), skip)
    }
}

/// Revocations are completed in every pass, a skipped one too, before anything
/// else. A pass that is not skipped goes through every step, in order, and
/// both kinds end.
pub proof fn law_every_pass_completes_revocations()
    ensures
        step_at(0, true) == PassStep::Revocations,
        step_at(2, true) == PassStep::Done(false),
        step_at(0, false) == PassStep::Revocations,
        step_at(2, false) == PassStep::Additions,
        step_at(3, false) == PassStep::Removals,
        step_at(4, false) == PassStep::ParkedFrames,
        step_at(5, false) == PassStep::GroupOffsets,
        step_at(6, false) == PassStep::Truncations,
        step_at(7, false) == PassStep::Purges,
        step_at(8, false) == PassStep::Finish,
        step_at(9, false) == PassStep::Done(true),
{
    reveal_with_fuel(step_at, 10);
}

} // verus!
