//! End-to-end simulation scenarios driven through `GameState::tick`.

use snake::bomb::Bomb;
use snake::common::{AppState, Direction, GridPosition, Timer};
use snake::food::{Food, FoodKind};
use snake::gameplay::{GameConfig, GameState};
use snake::registry::{Entity, EntityKind, Registry};
use snake::snake::SnakeHead;

const TICK_MS: u64 = 200;

fn head_entity(id: u64, x: i32, y: i32) -> Entity {
    Entity {
        id,
        kind: EntityKind::Head,
        pos: GridPosition { x, y },
    }
}

fn gameplay_state(entities: Vec<Entity>, snake: SnakeHead) -> GameState {
    let next_id = entities.iter().map(|e| e.id).max().map_or(0, |m| m + 1);
    GameState {
        app_state: AppState::Gameplay,
        registry: Registry { entities, next_id },
        snake: Some(snake),
        death: None,
        splash: Timer {
            elapsed: 3000,
            duration: 3000,
        },
        config: GameConfig::standard(),
    }
}

fn snake_heading(direction: Direction) -> SnakeHead {
    SnakeHead {
        direction,
        prev_direction: direction,
        next_turn: false,
        growth: 0,
        body: Vec::new(),
    }
}

fn head_position(state: &GameState) -> GridPosition {
    state
        .registry
        .entities
        .iter()
        .find(|e| matches!(e.kind, EntityKind::Head))
        .expect("no head entity")
        .pos
}

fn body_count(state: &GameState) -> usize {
    state
        .registry
        .entities
        .iter()
        .filter(|e| matches!(e.kind, EntityKind::Body))
        .count()
}

#[test]
fn eating_food_grows_two_segments_over_two_ticks() {
    let entities = vec![
        head_entity(0, 15, 10),
        Entity {
            id: 1,
            kind: EntityKind::Food {
                food: Food {
                    value: 2,
                    kind: FoodKind::Apple,
                },
            },
            pos: GridPosition { x: 16, y: 10 },
        },
    ];
    let mut state = gameplay_state(entities, snake_heading(Direction::Right));

    state.tick(None, false, TICK_MS);
    assert_eq!(head_position(&state), GridPosition { x: 16, y: 10 });
    assert_eq!(state.snake.as_ref().unwrap().growth, 2);
    assert_eq!(body_count(&state), 0);
    assert!(state
        .registry
        .entities
        .iter()
        .all(|e| !matches!(e.kind, EntityKind::Food { .. })));

    state.tick(None, false, TICK_MS);
    assert_eq!(state.snake.as_ref().unwrap().growth, 1);
    assert_eq!(body_count(&state), 1);

    state.tick(None, false, TICK_MS);
    assert_eq!(state.snake.as_ref().unwrap().growth, 0);
    assert_eq!(body_count(&state), 2);
    assert_eq!(state.app_state, AppState::Gameplay);
}

#[test]
fn heading_left_from_the_left_wall_ends_the_session() {
    let entities = vec![head_entity(0, 0, 5)];
    let mut state = gameplay_state(entities, snake_heading(Direction::Left));

    state.tick(None, false, TICK_MS);

    assert_eq!(state.app_state, AppState::GameOver);
    assert!(state.snake.is_none());
    assert!(state.death.is_none());
}

#[test]
fn blast_catches_head_at_chebyshev_distance_one() {
    let entities = vec![
        head_entity(0, 11, 12),
        Entity {
            id: 1,
            kind: EntityKind::Bomb {
                bomb: Bomb {
                    timer: Timer {
                        elapsed: 4900,
                        duration: 5000,
                    },
                },
            },
            pos: GridPosition { x: 10, y: 10 },
        },
    ];
    // The head steps down to (11,11), one diagonal cell from the bomb,
    // just as the fuse runs out.
    let mut state = gameplay_state(entities, snake_heading(Direction::Down));

    let explosions = state.tick(None, false, TICK_MS);

    assert_eq!(head_position(&state), GridPosition { x: 11, y: 11 });
    assert_eq!(explosions, vec![GridPosition { x: 10, y: 10 }]);
    assert!(state.death.is_some(), "a lethal blast must arm the death timer");
    assert_eq!(state.app_state, AppState::Gameplay);
    assert!(state
        .registry
        .entities
        .iter()
        .all(|e| !matches!(e.kind, EntityKind::Bomb { .. })));
}

#[test]
fn blast_misses_head_at_chebyshev_distance_two() {
    let entities = vec![
        head_entity(0, 12, 10),
        Entity {
            id: 1,
            kind: EntityKind::Bomb {
                bomb: Bomb {
                    timer: Timer {
                        elapsed: 4900,
                        duration: 5000,
                    },
                },
            },
            pos: GridPosition { x: 10, y: 10 },
        },
    ];
    let mut state = gameplay_state(entities, snake_heading(Direction::Up));

    let explosions = state.tick(None, false, TICK_MS);

    assert_eq!(explosions, vec![GridPosition { x: 10, y: 10 }]);
    assert!(state.death.is_none(), "distance two must never be caught");
    assert_eq!(state.app_state, AppState::Gameplay);
}

#[test]
fn death_timer_delays_game_over_until_it_expires() {
    let entities = vec![
        head_entity(0, 10, 10),
        Entity {
            id: 1,
            kind: EntityKind::Bomb {
                bomb: Bomb {
                    timer: Timer {
                        elapsed: 4900,
                        duration: 5000,
                    },
                },
            },
            pos: GridPosition { x: 11, y: 10 },
        },
    ];
    let mut state = gameplay_state(entities, snake_heading(Direction::Up));

    state.tick(None, false, TICK_MS);
    assert!(state.death.is_some());
    assert_eq!(state.app_state, AppState::Gameplay);

    // The default delay is 500 ms; the timer armed this tick starts
    // accumulating on the following ticks: 200, 400, then expiry.
    state.tick(None, false, TICK_MS);
    assert_eq!(state.app_state, AppState::Gameplay);
    state.tick(None, false, TICK_MS);
    assert_eq!(state.app_state, AppState::Gameplay);
    state.tick(None, false, TICK_MS);
    assert_eq!(state.app_state, AppState::GameOver);
    assert!(state.death.is_none());
}

#[test]
fn picking_up_a_bomb_defuses_it() {
    let entities = vec![
        head_entity(0, 10, 10),
        Entity {
            id: 1,
            kind: EntityKind::Bomb {
                bomb: Bomb {
                    timer: Timer {
                        elapsed: 0,
                        duration: 5000,
                    },
                },
            },
            pos: GridPosition { x: 11, y: 10 },
        },
    ];
    let mut state = gameplay_state(entities, snake_heading(Direction::Right));

    let explosions = state.tick(None, false, TICK_MS);

    assert!(explosions.is_empty());
    assert!(state.death.is_none());
    assert!(state
        .registry
        .entities
        .iter()
        .all(|e| !matches!(e.kind, EntityKind::Bomb { .. })));
    assert_eq!(state.app_state, AppState::Gameplay);
}

#[test]
fn running_into_own_body_ends_the_session() {
    let entities = vec![
        head_entity(0, 10, 10),
        Entity {
            id: 1,
            kind: EntityKind::Body,
            pos: GridPosition { x: 12, y: 10 },
        },
        Entity {
            id: 2,
            kind: EntityKind::Body,
            pos: GridPosition { x: 13, y: 10 },
        },
    ];
    let mut snake = snake_heading(Direction::Right);
    snake.body = vec![1, 2];
    let mut state = gameplay_state(entities, snake);

    // The tail follows to (10,10) and the head moves to (11,10); the
    // projected next cell (12,10) still holds the other segment, so
    // the look-ahead check fires one tick early.
    state.tick(None, false, TICK_MS);

    assert_eq!(state.app_state, AppState::GameOver);
}

#[test]
fn session_flows_from_splash_through_gameplay_to_game_over_and_back() {
    let mut state = GameState::new(GameConfig::standard());
    assert_eq!(state.app_state, AppState::SplashScreen);

    state.tick(None, false, 1000);
    state.tick(None, false, 1000);
    assert_eq!(state.app_state, AppState::SplashScreen);
    state.tick(None, false, 1000);
    assert_eq!(state.app_state, AppState::Gameplay);

    // Entering gameplay spawns the boundary walls and a centered head.
    let walls = state
        .registry
        .entities
        .iter()
        .filter(|e| matches!(e.kind, EntityKind::Wall))
        .count();
    assert_eq!(walls, 2 * 30 + 2 * 20);
    assert_eq!(head_position(&state), GridPosition { x: 15, y: 10 });
    assert_eq!(state.snake.as_ref().unwrap().direction, Direction::Left);

    // Drive the snake into the left wall to end the session.
    for _ in 0..20 {
        state.tick(None, false, TICK_MS);
    }
    assert_eq!(state.app_state, AppState::GameOver);

    // Walls persist on the game-over screen.
    assert!(state
        .registry
        .entities
        .iter()
        .all(|e| matches!(e.kind, EntityKind::Wall)));

    // Only the confirmation input restarts gameplay.
    state.tick(Some(Direction::Up), false, TICK_MS);
    assert_eq!(state.app_state, AppState::GameOver);
    state.tick(None, true, TICK_MS);
    assert_eq!(state.app_state, AppState::Gameplay);
    assert_eq!(head_position(&state), GridPosition { x: 15, y: 10 });
}

#[test]
fn reaching_the_right_wall_ends_the_session() {
    let entities = vec![head_entity(0, 29, 10)];
    let mut state = gameplay_state(entities, snake_heading(Direction::Right));

    state.tick(None, false, TICK_MS);

    // The head lands on x == 30, the wall column itself.
    assert_eq!(state.app_state, AppState::GameOver);
}

#[test]
fn one_huge_splash_tick_enters_gameplay_directly() {
    let mut state = GameState::new(GameConfig::standard());
    state.tick(None, false, 60_000);
    assert_eq!(state.app_state, AppState::Gameplay);
    // The dwell timer saturates at its duration instead of counting past it.
    assert_eq!(state.splash.elapsed, state.splash.duration);
}

#[test]
fn all_food_on_the_head_cell_is_consumed_in_one_tick() {
    let entities = vec![
        head_entity(0, 15, 10),
        Entity {
            id: 1,
            kind: EntityKind::Food {
                food: Food {
                    value: 5,
                    kind: FoodKind::Banana,
                },
            },
            pos: GridPosition { x: 16, y: 10 },
        },
        Entity {
            id: 2,
            kind: EntityKind::Food {
                food: Food {
                    value: 8,
                    kind: FoodKind::Watermelon,
                },
            },
            pos: GridPosition { x: 16, y: 10 },
        },
    ];
    let mut state = gameplay_state(entities, snake_heading(Direction::Right));

    state.tick(None, false, TICK_MS);

    assert_eq!(state.snake.as_ref().unwrap().growth, 13);
    assert_eq!(state.registry.entities.len(), 1);
}

#[test]
fn reverse_input_is_ignored_and_other_turns_are_honored() {
    let entities = vec![head_entity(0, 15, 10)];
    let mut state = gameplay_state(entities, snake_heading(Direction::Right));

    // Left is the exact opposite of the committed direction: ignored.
    state.tick(Some(Direction::Left), false, TICK_MS);
    assert_eq!(head_position(&state), GridPosition { x: 16, y: 10 });

    // Up is valid and is honored on the same tick.
    state.tick(Some(Direction::Up), false, TICK_MS);
    assert_eq!(head_position(&state), GridPosition { x: 16, y: 11 });

    // Down is now the opposite of the previous tick's direction.
    state.tick(Some(Direction::Down), false, TICK_MS);
    assert_eq!(head_position(&state), GridPosition { x: 16, y: 12 });
}

#[test]
fn body_follows_head_cell_by_cell() {
    let entities = vec![
        head_entity(0, 10, 10),
        Entity {
            id: 1,
            kind: EntityKind::Body,
            pos: GridPosition { x: 9, y: 10 },
        },
        Entity {
            id: 2,
            kind: EntityKind::Body,
            pos: GridPosition { x: 8, y: 10 },
        },
    ];
    let mut snake = snake_heading(Direction::Right);
    snake.body = vec![1, 2];
    let mut state = gameplay_state(entities, snake);

    state.tick(None, false, TICK_MS);

    assert_eq!(head_position(&state), GridPosition { x: 11, y: 10 });
    let pos_of = |state: &GameState, id: u64| {
        state
            .registry
            .entities
            .iter()
            .find(|e| e.id == id)
            .unwrap()
            .pos
    };
    // The tail segment (2) was relabeled to the head's old cell; the
    // other segment stayed put.
    assert_eq!(pos_of(&state, 2), GridPosition { x: 10, y: 10 });
    assert_eq!(pos_of(&state, 1), GridPosition { x: 9, y: 10 });
    assert_eq!(state.snake.as_ref().unwrap().body, vec![2, 1]);
}
