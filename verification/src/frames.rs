use vstd::prelude::*;

verus! {

/// Frames the renderer keeps in flight, each with its own uniform buffer.
pub const MAX_FRAMES_IN_FLIGHT: usize = 2;

/// The frame slot used after slot `current` has been presented.
pub fn next_frame(current: usize) -> (next: usize)
    requires
        current < usize::MAX,
    ensures
        next == (current + 1) % (MAX_FRAMES_IN_FLIGHT as int),
        next < MAX_FRAMES_IN_FLIGHT,
{
    (current + 1) % MAX_FRAMES_IN_FLIGHT
}

} // verus!
