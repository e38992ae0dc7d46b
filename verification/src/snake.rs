//! The snake: its committed facing direction, queued-turn flag, growth
//! credit, and the ordered handles of its body segments (head-adjacent
//! first). Segment cells live in the entity registry; the snake owns
//! only the order, which realizes follow motion as an O(1) rotation.

use vstd::prelude::*;
use crate::common::{opposite, Direction};

verus! {

/// The mathematical state of a snake.
pub ghost struct SnakeModel {
    pub direction: Direction,
    pub prev_direction: Direction,
    pub next_turn: bool,
    pub growth: u32,
    pub body: Seq<u64>,
}

/// The committed direction is never the exact opposite of the
/// direction the snake moved in on the previous tick.
pub open spec fn snake_wf(m: SnakeModel) -> bool {
    m.direction != opposite(m.prev_direction)
}

/// The snake after a turn request: honored unless the request is the
/// exact opposite of the previous tick's direction. The last valid
/// request before a tick wins.
pub open spec fn turned(m: SnakeModel, d: Direction) -> SnakeModel {
    if d != opposite(m.prev_direction) {
        SnakeModel { direction: d, next_turn: true, ..m }
    } else {
        m
    }
}

/// The body order after the tail segment is relabeled as the new
/// head-adjacent segment.
pub open spec fn rotated(b: Seq<u64>) -> Seq<u64> {
    if b.len() <= 1 {
        b
    } else {
        seq![b.last()] + b.drop_last()
    }
}

/// The snake's control state. The head's cell itself lives in the
/// registry as the unique `Head` entity.
pub struct SnakeHead {
    /// The direction committed for the next step.
    pub direction: Direction,
    /// The direction the previous step moved in.
    pub prev_direction: Direction,
    /// Whether a turn has been honored since the last step.
    pub next_turn: bool,
    /// Body segments still owed to the snake, consumed one per tick.
    pub growth: u32,
    /// Registry handles of the body segments, head-adjacent first.
    pub body: Vec<u64>,
}

impl View for SnakeHead {
    type V = SnakeModel;

    open spec fn view(&self) -> SnakeModel {
        SnakeModel {
            direction: self.direction,
            prev_direction: self.prev_direction,
            next_turn: self.next_turn,
            growth: self.growth,
            body: self.body@,
        }
    }
}

impl SnakeHead {
    /// A fresh snake: heading left, no queued turn, no growth credit,
    /// no body segments.
    pub fn new() -> (s: SnakeHead)
        ensures
            s@ == (SnakeModel {
                direction: Direction::Left,
                prev_direction: Direction::Left,
                next_turn: false,
                growth: 0,
                body: Seq::<u64>::empty(),
            }),
            snake_wf(s@),
    {
        let s = SnakeHead {
            direction: Direction::Left,
            prev_direction: Direction::Left,
            next_turn: false,
            growth: 0,
            body: Vec::new(),
        };
        assert(s.body@ =~= Seq::<u64>::empty());
        s
    }

    /// The direction opposite to `direction`.
    pub fn get_opposite_direction(direction: Direction) -> (r: Direction)
        ensures
            r == opposite(direction),
    {
        match direction {
            Direction::Left => Direction::Right,
            Direction::Right => Direction::Left,
            Direction::Up => Direction::Down,
            Direction::Down => Direction::Up,
        }
    }

    /// Requests a turn. A request for the exact opposite of the
    /// previous tick's direction is silently ignored; a later valid
    /// request before the tick overrides an earlier one.
    pub fn turn(&mut self, direction: Direction)
        ensures
            final(self)@ == turned(old(self)@, direction),
            snake_wf(old(self)@) ==> snake_wf(final(self)@),
    {
        if !(Self::get_opposite_direction(direction) == self.prev_direction) {
            self.direction = direction;
            self.next_turn = true;
        }
    }

    /// Adds `value` to the growth credit.
    pub fn grow(&mut self, value: u32)
        requires
            old(self)@.growth + value <= u32::MAX,
        ensures
            final(self)@ == (SnakeModel { growth: (old(self)@.growth + value) as u32, ..old(self)@ }),
    {
        self.growth = self.growth + value;
    }

    /// Whether any growth credit is left to consume.
    pub fn can_grow(&self) -> (r: bool)
        ensures
            r == (self@.growth > 0),
    {
        if self.growth > 0 {
            true
        } else {
            false
        }
    }

    /// Appends the segment with handle `entity` as the new tail,
    /// consuming one unit of growth credit if any is left.
    pub fn add_body_piece(&mut self, entity: u64)
        ensures
            final(self)@ == (SnakeModel {
                growth: if old(self)@.growth > 0 {
                    (old(self)@.growth - 1) as u32
                } else {
                    0
                },
                body: old(self)@.body.push(entity),
                ..old(self)@
            }),
    {
        if self.growth > 0 {
            self.growth = self.growth - 1;
        }
        self.body.push(entity);
    }

    /// The handle of the tail segment, if the snake has a body.
    pub fn get_last_body_piece(&self) -> (r: Option<u64>)
        ensures
            match r {
                Some(id) => self@.body.len() > 0 && id == self@.body.last(),
                None => self@.body.len() == 0,
            },
    {
        match self.body.len() {
            0 => None,
            n => Some(self.body[n - 1]),
        }
    }

    /// Records that a step has been taken in the committed direction:
    /// the queued-turn flag clears and the committed direction becomes
    /// the previous one.
    pub fn commit_step(&mut self)
        ensures
            final(self)@ == (SnakeModel {
                prev_direction: old(self)@.direction,
                next_turn: false,
                ..old(self)@
            }),
            snake_wf(final(self)@),
    {
        self.prev_direction = self.direction;
        self.next_turn = false;
    }

    /// Relabels the tail segment as the new head-adjacent segment: an
    /// O(1) rotation of the order, the cells themselves staying put.
    pub fn move_last_body_piece_to_front(&mut self)
        ensures
            final(self)@ == (SnakeModel { body: rotated(old(self)@.body), ..old(self)@ }),
    {
        let len = self.body.len();
        if len > 1 {
            let last = self.body[len - 1];
            self.body.insert(0, last);
            self.body.pop();
            proof {
                assert(self.body@ =~= seq![old(self)@.body.last()] + old(self)@.body.drop_last());
            }
        }
    }
}

} // verus!
