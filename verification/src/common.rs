//! Shared simulation primitives: grid coordinates, facing directions,
//! session states and the integer-millisecond timers that drive bomb
//! fuses, the delayed death transition and the splash-screen dwell.

use vstd::prelude::*;
use crate::rng::random_below;

verus! {

/// Number of cells across the standard grid; cells with `x == 0` or
/// `x == GRID_WIDTH` are wall cells.
pub const GRID_WIDTH: i32 = 30;

/// Number of cells down the standard grid; cells with `y == 0` or
/// `y == GRID_HEIGHT` are wall cells.
pub const GRID_HEIGHT: i32 = 20;

/// Default bomb fuse length, in milliseconds.
pub const BOMB_FUSE_MS: u64 = 5000;

/// Default delay between a lethal blast and the game-over transition,
/// in milliseconds.
pub const DEATH_DELAY_MS: u64 = 500;

/// Default dwell time of the splash screen, in milliseconds.
pub const SPLASH_DWELL_MS: u64 = 3000;

/// The three states of a play session.
#[derive(Clone, Copy, PartialEq, Eq, Structural, Debug, Hash)]
pub enum AppState {
    SplashScreen,
    Gameplay,
    GameOver,
}

/// Returns whether `state` is the state `expected`.
pub fn in_expected_state(state: &AppState, expected: AppState) -> (r: bool)
    ensures
        r == (*state == expected),
{
    if *state == expected {
        true
    } else {
        false
    }
}

/// A facing direction on the grid. `Left`/`Right` and `Up`/`Down` are
/// mutually opposite pairs.
#[derive(Clone, Copy, PartialEq, Eq, Structural, Debug)]
pub enum Direction {
    Left,
    Right,
    Up,
    Down,
}

/// The opposite of a direction.
pub open spec fn opposite(d: Direction) -> Direction {
    match d {
        Direction::Left => Direction::Right,
        Direction::Right => Direction::Left,
        Direction::Up => Direction::Down,
        Direction::Down => Direction::Up,
    }
}

/// A cell coordinate on the grid. Coordinates are signed and movement
/// never clamps, so a position one cell past the playable bounds can
/// exist for the single tick in which wall collision detection sees it.
#[derive(Clone, Copy, PartialEq, Eq, Structural, Debug)]
pub struct GridPosition {
    pub x: i32,
    pub y: i32,
}

/// The cell one step from `p` along `d`. Meaningful when the new
/// coordinate stays within `i32` range, which the simulation's bounds
/// guarantee.
pub open spec fn stepped(p: GridPosition, d: Direction) -> GridPosition {
    match d {
        Direction::Left => GridPosition { x: (p.x - 1) as i32, y: p.y },
        Direction::Right => GridPosition { x: (p.x + 1) as i32, y: p.y },
        Direction::Up => GridPosition { x: p.x, y: (p.y + 1) as i32 },
        Direction::Down => GridPosition { x: p.x, y: (p.y - 1) as i32 },
    }
}

/// Whether `p` lies at or beyond the walls of a `width` by `height`
/// grid; such a position is fatal to the snake's head.
pub open spec fn hits_wall(p: GridPosition, width: i32, height: i32) -> bool {
    p.x <= 0 || p.x >= width || p.y <= 0 || p.y >= height
}

/// Whether `a` and `b` are at Chebyshev distance at most one, that is,
/// `b` lies in the 3-by-3 neighborhood centered on `a`.
pub open spec fn within_blast(a: GridPosition, b: GridPosition) -> bool {
    -1 <= a.x - b.x <= 1 && -1 <= a.y - b.y <= 1
}

impl GridPosition {
    pub fn new(x: i32, y: i32) -> (p: GridPosition)
        ensures
            p == (GridPosition { x, y }),
    {
        GridPosition { x, y }
    }

    /// A random position with `0 <= x < max_x` and `0 <= y < max_y`.
    /// Cells on the low boundary can come out; the spawners reject them
    /// as occupied, because wall entities sit there.
    pub fn random(max_x: u32, max_y: u32) -> (p: GridPosition)
        requires
            1 <= max_x <= i32::MAX,
            1 <= max_y <= i32::MAX,
        ensures
            0 <= p.x < max_x,
            0 <= p.y < max_y,
    {
        let x: u32 = random_below(max_x);
        let y: u32 = random_below(max_y);
        GridPosition { x: x as i32, y: y as i32 }
    }

    /// Moves the position `length` cells along `direction`, without
    /// clamping at the grid bounds.
    pub fn move_position(&mut self, direction: Direction, length: u32)
        requires
            direction == Direction::Left ==> old(self).x - length >= i32::MIN,
            direction == Direction::Right ==> old(self).x + length <= i32::MAX,
            direction == Direction::Up ==> old(self).y + length <= i32::MAX,
            direction == Direction::Down ==> old(self).y - length >= i32::MIN,
        ensures
            match direction {
                Direction::Left => final(self).x == old(self).x - length && final(self).y
                    == old(self).y,
                Direction::Right => final(self).x == old(self).x + length && final(self).y
                    == old(self).y,
                Direction::Up => final(self).y == old(self).y + length && final(self).x
                    == old(self).x,
                Direction::Down => final(self).y == old(self).y - length && final(self).x
                    == old(self).x,
            },
            length == 1 ==> *final(self) == stepped(*old(self), direction),
    {
        match direction {
            Direction::Left => {
                self.x = (self.x as i64 - length as i64) as i32;
            },
            Direction::Right => {
                self.x = (self.x as i64 + length as i64) as i32;
            },
            Direction::Up => {
                self.y = (self.y as i64 + length as i64) as i32;
            },
            Direction::Down => {
                self.y = (self.y as i64 - length as i64) as i32;
            },
        }
    }

    /// Whether `self` is at Chebyshev distance at most one from `other`.
    pub fn within_blast_of(&self, other: &GridPosition) -> (r: bool)
        ensures
            r == within_blast(*self, *other),
    {
        let dx: i64 = self.x as i64 - other.x as i64;
        let dy: i64 = self.y as i64 - other.y as i64;
        -1 <= dx && dx <= 1 && -1 <= dy && dy <= 1
    }
}

/// A one-shot elapsed/duration timer counted in integer milliseconds.
/// Well-formed timers never count past their duration.
#[derive(Clone, Copy, PartialEq, Eq, Structural, Debug)]
pub struct Timer {
    pub elapsed: u64,
    pub duration: u64,
}

/// A timer is well-formed when its elapsed time has not passed its
/// duration.
pub open spec fn timer_wf(t: Timer) -> bool {
    t.elapsed <= t.duration
}

/// The timer `t` after `dt` more milliseconds have passed; elapsed time
/// saturates at the duration.
pub open spec fn timer_advanced(t: Timer, dt: u64) -> Timer {
    if t.elapsed + dt >= t.duration {
        Timer { elapsed: t.duration, duration: t.duration }
    } else {
        Timer { elapsed: (t.elapsed + dt) as u64, duration: t.duration }
    }
}

/// Whether the timer `t` has reached its duration after `dt` more
/// milliseconds.
pub open spec fn timer_expires(t: Timer, dt: u64) -> bool {
    t.elapsed + dt >= t.duration
}

impl Timer {
    /// A fresh timer that will run for `duration` milliseconds.
    pub fn new(duration: u64) -> (t: Timer)
        ensures
            t == (Timer { elapsed: 0, duration }),
            timer_wf(t),
    {
        Timer { elapsed: 0, duration }
    }

    /// Advances the timer by `dt` milliseconds, saturating at the
    /// duration.
    pub fn advance(&mut self, dt: u64)
        requires
            timer_wf(*old(self)),
        ensures
            *final(self) == timer_advanced(*old(self), dt),
            timer_wf(*final(self)),
    {
        if dt >= self.duration - self.elapsed {
            self.elapsed = self.duration;
        } else {
            self.elapsed = self.elapsed + dt;
        }
    }

    /// Whether the timer has run for its full duration.
    pub fn finished(&self) -> (r: bool)
        ensures
            r == (self.elapsed >= self.duration),
    {
        self.elapsed >= self.duration
    }
}

/// The one-shot timer armed by a lethal blast; its expiry ends the
/// session.
#[derive(Clone, Copy, PartialEq, Eq, Structural, Debug)]
pub struct DeathTimer {
    pub timer: Timer,
}

impl DeathTimer {
    /// A death timer with the default delay.
    pub fn default() -> (t: DeathTimer)
        ensures
            t.timer == (Timer { elapsed: 0, duration: DEATH_DELAY_MS }),
    {
        DeathTimer { timer: Timer::new(DEATH_DELAY_MS) }
    }
}

} // verus!
