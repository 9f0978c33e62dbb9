use vstd::prelude::*;

verus! {

/// The volume slider value used: at most 100.
pub fn clamp_volume(v: u32) -> (r: u32)
    ensures
        r == if v <= 100 {
            v
        } else {
            100
        },
{
    if v <= 100 {
        v
    } else {
        100
    }
}

/// Which loaded clip a footstep plays.
#[derive(Debug, Clone, Copy, PartialEq, Eq, Structural)]
pub struct FootstepChoice {
    /// A metal clip (else a dirt clip).
    pub metal: bool,
    /// Index into the chosen clip list.
    pub index: usize,
}

pub open spec fn footstep_choice_spec(step: usize, dirt: usize, metal: usize) -> FootstepChoice {
    let idx = step % dirt;
    if metal > 0 && idx % 3 == 2 {
        FootstepChoice { metal: true, index: idx % metal }
    } else {
        FootstepChoice { metal: false, index: idx }
    }
}

/// The footstep to play at step counter `step` given the numbers of
/// dirt and metal clips, and the next step counter. Steps walk the dirt
/// clips in turn; every third step is a metal clip when there are any.
/// With no dirt clips nothing plays and the counter stays.
pub fn choose_footstep(step: usize, dirt_clips: usize, metal_clips: usize) -> (r: (
    Option<FootstepChoice>,
    usize,
))
    ensures
        dirt_clips == 0 ==> r.0 is None && r.1 == step,
        dirt_clips > 0 ==> r.0 == Some(footstep_choice_spec(step, dirt_clips, metal_clips))
            && r.1 == vstd::wrapping::usize_specs::wrapping_add(step, 1),
        r.0 matches Some(c) ==> (c.metal ==> c.index < metal_clips) && (!c.metal ==> c.index
            < dirt_clips),
{
    if dirt_clips == 0 {
        return (None, step);
    }
    let idx = step % dirt_clips;
    let next = step.wrapping_add(1);
    let choice = if metal_clips > 0 && idx % 3 == 2 {
        FootstepChoice { metal: true, index: idx % metal_clips }
    } else {
        FootstepChoice { metal: false, index: idx }
    };
    (Some(choice), next)
}

} // verus!
