//! Tests for the food and bomb spawners: placement always lands on a
//! free cell inside the playable bounds.

use snake::common::{AppState, Direction, GridPosition, Timer};
use snake::gameplay::{GameConfig, GameState};
use snake::registry::{Entity, EntityKind, Registry};
use snake::snake::SnakeHead;

fn small_gameplay_state() -> GameState {
    let entities = vec![Entity {
        id: 0,
        kind: EntityKind::Head,
        pos: GridPosition { x: 15, y: 10 },
    }];
    GameState {
        app_state: AppState::Gameplay,
        registry: Registry {
            entities,
            next_id: 1,
        },
        snake: Some(SnakeHead {
            direction: Direction::Left,
            prev_direction: Direction::Left,
            next_turn: false,
            growth: 0,
            body: Vec::new(),
        }),
        death: None,
        splash: Timer {
            elapsed: 3000,
            duration: 3000,
        },
        config: GameConfig::standard(),
    }
}

fn occupied_cells(state: &GameState) -> Vec<GridPosition> {
    state.registry.entities.iter().map(|e| e.pos).collect()
}

#[test]
fn spawned_food_lands_on_a_free_cell_in_bounds() {
    for _ in 0..20 {
        let mut state = small_gameplay_state();
        let before = occupied_cells(&state);
        let spawned = state.spawn_food_tick();
        assert!(spawned, "an almost empty board must have a free cell");
        let food = state
            .registry
            .entities
            .iter()
            .find(|e| matches!(e.kind, EntityKind::Food { .. }))
            .expect("food entity missing after a successful spawn");
        assert!(!before.contains(&food.pos));
        assert!(0 <= food.pos.x && food.pos.x < 30);
        assert!(0 <= food.pos.y && food.pos.y < 20);
        match food.kind {
            EntityKind::Food { food: f } => assert!(matches!(f.value, 2 | 5 | 8)),
            _ => unreachable!(),
        }
    }
}

#[test]
fn spawned_bomb_lands_on_a_free_cell_in_bounds_with_a_full_fuse() {
    for _ in 0..20 {
        let mut state = small_gameplay_state();
        let before = occupied_cells(&state);
        let spawned = state.spawn_bomb_tick();
        assert!(spawned, "an almost empty board must have a free cell");
        let bomb = state
            .registry
            .entities
            .iter()
            .find(|e| matches!(e.kind, EntityKind::Bomb { .. }))
            .expect("bomb entity missing after a successful spawn");
        assert!(!before.contains(&bomb.pos));
        assert!(0 <= bomb.pos.x && bomb.pos.x < 30);
        assert!(0 <= bomb.pos.y && bomb.pos.y < 20);
        match bomb.kind {
            EntityKind::Bomb { bomb: b } => {
                assert_eq!(b.timer.elapsed, 0);
                assert_eq!(b.timer.duration, 5000);
            }
            _ => unreachable!(),
        }
    }
}

#[test]
fn spawners_do_nothing_outside_gameplay() {
    let mut state = GameState::new(GameConfig::standard());
    assert!(!state.spawn_food_tick());
    assert!(!state.spawn_bomb_tick());
    assert_eq!(state.registry.entities.len(), 0);
}

#[test]
fn spawner_rejects_cells_occupied_by_anything() {
    // Fill every playable cell except one; the spawner must find the
    // single free cell.
    let mut entities = vec![Entity {
        id: 0,
        kind: EntityKind::Head,
        pos: GridPosition { x: 1, y: 1 },
    }];
    let mut id = 1;
    for x in 0..30 {
        for y in 0..20 {
            if (x, y) == (1, 1) || (x, y) == (2, 1) {
                continue;
            }
            entities.push(Entity {
                id,
                kind: EntityKind::Wall,
                pos: GridPosition { x, y },
            });
            id += 1;
        }
    }
    let mut state = small_gameplay_state();
    state.registry = Registry {
        entities,
        next_id: id,
    };
    if state.spawn_food_tick() {
        let food = state
            .registry
            .entities
            .iter()
            .find(|e| matches!(e.kind, EntityKind::Food { .. }))
            .unwrap();
        assert_eq!(food.pos, GridPosition { x: 2, y: 1 });
    }
    // With one free cell in six hundred, a bounded sampler may also
    // give up; either way it never lands on an occupied cell.
}
