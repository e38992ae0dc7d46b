//! Timed hazards. A bomb sits armed on its cell while its fuse runs;
//! on expiry it explodes, and any snake cell in the 3-by-3 blast
//! neighborhood around it is lethal.

use vstd::prelude::*;
use crate::common::{Timer, BOMB_FUSE_MS};

verus! {

/// An armed bomb: its fuse timer. The fuse only ever counts up; expiry
/// is one-shot and handled by the gameplay tick.
#[derive(Clone, Copy, PartialEq, Eq, Structural, Debug)]
pub struct Bomb {
    pub timer: Timer,
}

impl Bomb {
    /// A bomb with the default fuse length.
    pub fn default() -> (b: Bomb)
        ensures
            b.timer == (Timer { elapsed: 0, duration: BOMB_FUSE_MS }),
    {
        Bomb { timer: Timer::new(BOMB_FUSE_MS) }
    }

    /// A bomb whose fuse runs for `fuse_ms` milliseconds.
    pub fn new(fuse_ms: u64) -> (b: Bomb)
        ensures
            b.timer == (Timer { elapsed: 0, duration: fuse_ms }),
    {
        Bomb { timer: Timer::new(fuse_ms) }
    }
}

} // verus!
