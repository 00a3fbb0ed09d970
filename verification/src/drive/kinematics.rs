//! Differential-drive kinematics output: per-side per-mille commands.
use vstd::prelude::*;

verus! {

/// A drive command in per-mille of full speed per side (`-1000..=1000`),
/// ready for the L298N channels or the command-velocity protocol.
#[derive(Debug, Clone, Copy, PartialEq, Eq, Structural)]
pub struct MixOutput {
    /// Left side command, `-1000..=1000`.
    pub left_permille: i16,
    /// Right side command, `-1000..=1000`.
    pub right_permille: i16,
}

impl Default for MixOutput {
    fn default() -> (m: MixOutput)
        ensures
            m == (MixOutput { left_permille: 0, right_permille: 0 }),
    {
        MixOutput { left_permille: 0, right_permille: 0 }
    }
}

} // verus!
