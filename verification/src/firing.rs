use vstd::prelude::*;

verus! {

/// What one frame of the fire button does to the charged power.
#[derive(Clone, Copy, PartialEq, Eq, Structural, Debug)]
pub enum FireStep {
    /// The button went down: the power starts at its starting value.
    Charge,
    /// The button is held: the power grows.
    Accelerate,
    /// The button came up with some power charged: fire, then drop the power to zero.
    Release,
    /// Nothing to do.
    Idle,
}

/// The fire step for this frame's button events. A press takes precedence
/// over holding, and holding over a release; a release fires only with some
/// power charged.
pub fn fire_step(started: bool, held: bool, completed: bool, power_positive: bool) -> (step: FireStep)
    ensures
        step == (if started {
            FireStep::Charge
        } else if held {
            FireStep::Accelerate
        } else if completed && power_positive {
            FireStep::Release
        } else {
            FireStep::Idle
        }),
{
    if started {
        FireStep::Charge
    } else if held {
        FireStep::Accelerate
    } else if completed && power_positive {
        FireStep::Release
    } else {
        FireStep::Idle
    }
}

/// What firing does.
#[derive(Clone, Copy, PartialEq, Eq, Structural, Debug)]
pub enum FirePlan {
    /// Throw the item in hand.
    ThrowHeld,
    /// The item in hand is gone: drop the grab and fire nothing.
    CancelGrab,
    /// Fire a new projectile.
    SpawnProjectile,
}

/// What firing does: throw the held item if it still exists, cancel the
/// grab if it is gone, and fire a new projectile when holding nothing.
pub fn fire_plan(holding: bool, held_item_exists: bool) -> (plan: FirePlan)
    ensures
        plan == (if !holding {
            FirePlan::SpawnProjectile
        } else if held_item_exists {
            FirePlan::ThrowHeld
        } else {
            FirePlan::CancelGrab
        }),
{
    if holding {
        if held_item_exists {
            FirePlan::ThrowHeld
        } else {
            FirePlan::CancelGrab
        }
    } else {
        FirePlan::SpawnProjectile
    }
}

impl FirePlan {
    /// Whether something leaves the hand (and the firing sound plays).
    pub fn fires(&self) -> (b: bool)
        ensures
            b == (*self != FirePlan::CancelGrab),
    {
        match self {
            FirePlan::CancelGrab => false,
            _ => true,
        }
    }
}

} // verus!
