//! Value-bearing pickups. A food is consumed when the snake's head
//! reaches its cell; its value is credited to the snake's growth.

use vstd::prelude::*;
use crate::rng::random_below;

verus! {

/// The kinds of food the spawner can place; the host maps each kind to
/// its sprite.
#[derive(Clone, Copy, PartialEq, Eq, Structural, Debug)]
pub enum FoodKind {
    Apple,
    Banana,
    Watermelon,
}

/// The growth value that each food kind is worth.
pub open spec fn food_value(kind: FoodKind) -> u32 {
    match kind {
        FoodKind::Apple => 2,
        FoodKind::Banana => 5,
        FoodKind::Watermelon => 8,
    }
}

/// Highest growth value any spawned food can carry.
pub const FOOD_VALUE_MAX: u32 = 8;

/// A food pickup: its kind and the growth credit it grants.
#[derive(Clone, Copy, PartialEq, Eq, Structural, Debug)]
pub struct Food {
    pub value: u32,
    pub kind: FoodKind,
}

impl Food {
    /// A food of a random kind, carrying that kind's value.
    pub fn random() -> (f: Food)
        ensures
            f.value == food_value(f.kind),
            f.value <= FOOD_VALUE_MAX,
    {
        let kind: FoodKind = match random_below(3) {
            0 => FoodKind::Apple,
            1 => FoodKind::Banana,
            _ => FoodKind::Watermelon,
        };
        Food { value: match kind {
            FoodKind::Apple => 2,
            FoodKind::Banana => 5,
            FoodKind::Watermelon => 8,
        }, kind }
    }
}

} // verus!
