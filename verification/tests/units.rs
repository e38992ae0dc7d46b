//! Unit tests for the simulation's building blocks.

use snake::bomb::Bomb;
use snake::common::{in_expected_state, AppState, DeathTimer, Direction, GridPosition, Timer};
use snake::food::Food;
use snake::registry::{Entity, EntityKind, Registry};
use snake::snake::SnakeHead;

#[test]
fn move_position_goes_one_cell_in_each_direction() {
    let mut p = GridPosition::new(5, 5);
    p.move_position(Direction::Left, 1);
    assert_eq!(p, GridPosition { x: 4, y: 5 });
    p.move_position(Direction::Right, 2);
    assert_eq!(p, GridPosition { x: 6, y: 5 });
    p.move_position(Direction::Up, 3);
    assert_eq!(p, GridPosition { x: 6, y: 8 });
    p.move_position(Direction::Down, 1);
    assert_eq!(p, GridPosition { x: 6, y: 7 });
}

#[test]
fn move_position_crosses_the_boundary_without_clamping() {
    let mut p = GridPosition::new(0, 5);
    p.move_position(Direction::Left, 1);
    assert_eq!(p, GridPosition { x: -1, y: 5 });
}

#[test]
fn random_positions_fall_inside_the_given_bounds() {
    for _ in 0..100 {
        let p = GridPosition::random(30, 20);
        assert!(0 <= p.x && p.x < 30);
        assert!(0 <= p.y && p.y < 20);
    }
}

#[test]
fn chebyshev_neighborhood_check() {
    let bomb = GridPosition::new(10, 10);
    assert!(GridPosition::new(11, 11).within_blast_of(&bomb));
    assert!(GridPosition::new(10, 10).within_blast_of(&bomb));
    assert!(GridPosition::new(9, 11).within_blast_of(&bomb));
    assert!(!GridPosition::new(12, 10).within_blast_of(&bomb));
    assert!(!GridPosition::new(10, 8).within_blast_of(&bomb));
}

#[test]
fn in_expected_state_compares_states() {
    assert!(in_expected_state(&AppState::Gameplay, AppState::Gameplay));
    assert!(!in_expected_state(&AppState::SplashScreen, AppState::GameOver));
}

#[test]
fn timers_saturate_and_finish() {
    let mut t = Timer::new(500);
    assert!(!t.finished());
    t.advance(200);
    assert_eq!(t.elapsed, 200);
    t.advance(400);
    assert_eq!(t.elapsed, 500);
    assert!(t.finished());
}

#[test]
fn default_timers_carry_the_documented_durations() {
    assert_eq!(DeathTimer::default().timer.duration, 500);
    assert_eq!(DeathTimer::default().timer.elapsed, 0);
    assert_eq!(Bomb::default().timer.duration, 5000);
    assert_eq!(Bomb::new(750).timer.duration, 750);
}

#[test]
fn random_food_carries_its_kinds_value() {
    for _ in 0..50 {
        let f = Food::random();
        assert!(matches!(f.value, 2 | 5 | 8));
        assert_eq!(f.value, match f.kind {
            snake::food::FoodKind::Apple => 2,
            snake::food::FoodKind::Banana => 5,
            snake::food::FoodKind::Watermelon => 8,
        });
    }
}

#[test]
fn turn_rejects_only_the_exact_reverse() {
    let mut s = SnakeHead::new();
    assert_eq!(s.direction, Direction::Left);

    s.turn(Direction::Right);
    assert_eq!(s.direction, Direction::Left, "reverse must be ignored");
    assert!(!s.next_turn);

    s.turn(Direction::Up);
    assert_eq!(s.direction, Direction::Up);
    assert!(s.next_turn);

    // The last valid input before the tick wins.
    s.turn(Direction::Down);
    assert_eq!(s.direction, Direction::Down);
}

#[test]
fn growth_credit_is_consumed_one_segment_at_a_time() {
    let mut s = SnakeHead::new();
    assert!(!s.can_grow());
    s.grow(3);
    assert!(s.can_grow());
    s.add_body_piece(7);
    assert_eq!(s.growth, 2);
    assert_eq!(s.get_last_body_piece(), Some(7));
    s.add_body_piece(8);
    s.add_body_piece(9);
    assert_eq!(s.growth, 0);
    assert!(!s.can_grow());
    assert_eq!(s.body, vec![7, 8, 9]);
}

#[test]
fn tail_rotation_moves_the_last_handle_to_the_front() {
    let mut s = SnakeHead::new();
    s.body = vec![1, 2, 3];
    s.move_last_body_piece_to_front();
    assert_eq!(s.body, vec![3, 1, 2]);
    assert_eq!(s.get_last_body_piece(), Some(2));

    let mut single = SnakeHead::new();
    single.body = vec![4];
    single.move_last_body_piece_to_front();
    assert_eq!(single.body, vec![4]);

    let mut empty = SnakeHead::new();
    assert_eq!(empty.get_last_body_piece(), None);
    empty.move_last_body_piece_to_front();
    assert!(empty.body.is_empty());
}

#[test]
fn get_opposite_direction_pairs_up() {
    assert_eq!(SnakeHead::get_opposite_direction(Direction::Left), Direction::Right);
    assert_eq!(SnakeHead::get_opposite_direction(Direction::Right), Direction::Left);
    assert_eq!(SnakeHead::get_opposite_direction(Direction::Up), Direction::Down);
    assert_eq!(SnakeHead::get_opposite_direction(Direction::Down), Direction::Up);
}

#[test]
fn registry_spawns_with_fresh_handles_and_answers_occupancy() {
    let mut r = Registry::new();
    let a = r.spawn(EntityKind::Wall, GridPosition::new(1, 1));
    let b = r.spawn(EntityKind::Head, GridPosition::new(2, 2));
    assert_ne!(a, b);
    assert_eq!(r.len(), 2);
    assert!(r.occupied(GridPosition::new(1, 1)));
    assert!(r.occupied(GridPosition::new(2, 2)));
    assert!(!r.occupied(GridPosition::new(3, 3)));
    assert_eq!(r.head_position(), GridPosition::new(2, 2));

    r.set_position_of(b, GridPosition::new(5, 5));
    assert_eq!(r.head_position(), GridPosition::new(5, 5));
    assert!(!r.occupied(GridPosition::new(2, 2)));

    assert_eq!(r.index_of(a), Some(0));
    assert_eq!(r.index_of(b), Some(1));
    assert_eq!(r.index_of(99), None);
}

#[test]
fn registry_sweeps_food_and_bombs() {
    let mut r = Registry::new();
    let cell = GridPosition::new(4, 4);
    r.spawn(
        EntityKind::Food {
            food: Food {
                value: 5,
                kind: snake::food::FoodKind::Banana,
            },
        },
        cell,
    );
    r.spawn(
        EntityKind::Food {
            food: Food {
                value: 2,
                kind: snake::food::FoodKind::Apple,
            },
        },
        cell,
    );
    r.spawn(
        EntityKind::Food {
            food: Food {
                value: 8,
                kind: snake::food::FoodKind::Watermelon,
            },
        },
        GridPosition::new(6, 6),
    );
    r.spawn(EntityKind::Bomb { bomb: Bomb::default() }, cell);

    assert_eq!(r.total_food_value(), 15);
    let eaten = r.consume_food_at(cell);
    assert_eq!(eaten, 7, "all simultaneous matches apply");
    assert_eq!(r.total_food_value(), 8);

    r.despawn_bombs_at(cell);
    assert_eq!(r.len(), 1);
    let left = r.get(0);
    assert!(matches!(left.kind, EntityKind::Food { .. }));
    assert_eq!(left.pos, GridPosition::new(6, 6));
}

#[test]
fn registry_fuse_sweep_reports_expired_bomb_cells() {
    let mut r = Registry::new();
    r.spawn(
        EntityKind::Bomb { bomb: Bomb::new(1000) },
        GridPosition::new(3, 3),
    );
    r.spawn(
        EntityKind::Bomb { bomb: Bomb::new(5000) },
        GridPosition::new(7, 7),
    );
    r.spawn(EntityKind::Wall, GridPosition::new(0, 0));

    r.advance_fuses(1200);
    let exploded = r.remove_expired_bombs();
    assert_eq!(exploded, vec![GridPosition::new(3, 3)]);
    assert_eq!(r.len(), 2);

    // The surviving bomb carries the elapsed time forward.
    let still_armed = (0..r.len())
        .map(|i| r.get(i))
        .find_map(|e| match e.kind {
            EntityKind::Bomb { bomb } => Some(bomb.timer.elapsed),
            _ => None,
        })
        .unwrap();
    assert_eq!(still_armed, 1200);
}

#[test]
fn registry_blast_check_sees_head_and_body_only() {
    let mut r = Registry::new();
    r.spawn(EntityKind::Head, GridPosition::new(11, 11));
    r.spawn(EntityKind::Wall, GridPosition::new(10, 10));
    assert!(r.snake_caught_by(GridPosition::new(10, 10)));
    assert!(!r.snake_caught_by(GridPosition::new(14, 14)));

    let mut walls_only = Registry::new();
    walls_only.spawn(EntityKind::Wall, GridPosition::new(10, 10));
    assert!(!walls_only.snake_caught_by(GridPosition::new(10, 10)));

    let mut body = Registry::new();
    body.spawn(EntityKind::Body, GridPosition::new(9, 9));
    assert!(body.snake_caught_by(GridPosition::new(10, 10)));
}

#[test]
fn clearing_keeps_walls_only() {
    let mut r = Registry::new();
    r.spawn(EntityKind::Wall, GridPosition::new(0, 0));
    r.spawn(EntityKind::Head, GridPosition::new(5, 5));
    r.spawn(EntityKind::Body, GridPosition::new(6, 5));
    let next_before = {
        let e: Entity = r.get(2);
        e.id + 1
    };
    r.clear_except_walls();
    assert_eq!(r.len(), 1);
    assert!(matches!(r.get(0).kind, EntityKind::Wall));
    assert_eq!(r.next_id, next_before, "handles are never reused");
    r.clear();
    assert_eq!(r.len(), 0);
}
