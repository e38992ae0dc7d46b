//! The fixed-tick simulation. A `GameState` owns the session state
//! machine, the entity registry and the snake; `tick` advances it by
//! one movement tick, and the two spawner entry points run on their
//! own, longer periods. Every tick is specified exactly: the new state
//! equals `ticked` of the old one, a pure function of the model.

use vstd::prelude::*;
use crate::bomb::Bomb;
use crate::common::{
    hits_wall, in_expected_state, stepped, timer_advanced, timer_expires, timer_wf, AppState,
    DeathTimer, Direction, GridPosition, Timer, BOMB_FUSE_MS, DEATH_DELAY_MS, GRID_HEIGHT,
    GRID_WIDTH, SPLASH_DWELL_MS,
};
use crate::food::{food_value, Food, FOOD_VALUE_MAX};
use crate::registry::{
    any_food_points_fn, body_at, body_handle_ok, bombs_ok, expired_bomb_positions, food_points_at,
    food_points_fn, fuse_advanced, fuses_advanced, has_head, head_index, head_pos, ids_ok,
    lemma_food_conservation, lemma_kept_preserves_body_handle, lemma_kept_preserves_head,
    lemma_points_sum_kept_le, lemma_points_sum_le, lemma_points_sum_map, lemma_points_sum_nonneg,
    lemma_points_sum_pointwise, lemma_points_sum_zero, not_bomb_at, not_expired, not_food_at,
    occupied_at, snake_caught, total_food_points, unique_head, walls_only, without_bombs_at,
    without_expired_bombs, without_food_at, Entity, EntityKind, Registry,
};
use crate::snake::{rotated, snake_wf, turned, SnakeHead, SnakeModel};

verus! {

/// The externally configured dimensions and periods of a session.
#[derive(Clone, Copy, PartialEq, Eq, Structural, Debug)]
pub struct GameConfig {
    /// Grid width in cells; `x == 0` and `x == width` are walls.
    pub width: i32,
    /// Grid height in cells; `y == 0` and `y == height` are walls.
    pub height: i32,
    /// Bomb fuse length, in milliseconds.
    pub fuse_ms: u64,
    /// Delay between a lethal blast and game over, in milliseconds.
    pub death_delay_ms: u64,
    /// Dwell time of the splash screen, in milliseconds.
    pub splash_dwell_ms: u64,
}

/// The grid must hold a playable interior and stay far away from the
/// coordinate type's range.
pub open spec fn config_wf(c: GameConfig) -> bool {
    2 <= c.width <= 100000 && 2 <= c.height <= 100000
}

/// The standard configuration, matching the named constants.
pub open spec fn standard_config() -> GameConfig {
    GameConfig {
        width: GRID_WIDTH,
        height: GRID_HEIGHT,
        fuse_ms: BOMB_FUSE_MS,
        death_delay_ms: DEATH_DELAY_MS,
        splash_dwell_ms: SPLASH_DWELL_MS,
    }
}

impl GameConfig {
    /// The standard configuration.
    pub fn standard() -> (c: GameConfig)
        ensures
            c == standard_config(),
            config_wf(c),
    {
        GameConfig {
            width: GRID_WIDTH,
            height: GRID_HEIGHT,
            fuse_ms: BOMB_FUSE_MS,
            death_delay_ms: DEATH_DELAY_MS,
            splash_dwell_ms: SPLASH_DWELL_MS,
        }
    }
}

/// The mathematical state of a whole session.
pub ghost struct GameModel {
    pub app_state: AppState,
    pub entities: Seq<Entity>,
    pub next_id: u64,
    pub snake: Option<SnakeModel>,
    pub death: Option<Timer>,
    pub splash: Timer,
    pub config: GameConfig,
}

/// During gameplay the head sits at most one cell outside the walls:
/// any further and the previous tick's wall check would have ended the
/// session.
pub open spec fn head_in_range(m: GameModel) -> bool {
    &&& -1 <= head_pos(m.entities).x <= m.config.width
    &&& -1 <= head_pos(m.entities).y <= m.config.height
}

/// The snake-specific invariants: no committed reversal, a growth
/// budget that keeps credit arithmetic in range, and live body
/// handles.
pub open spec fn snake_ok(m: GameModel, s: SnakeModel) -> bool {
    &&& snake_wf(s)
    &&& s.growth + total_food_points(m.entities) <= u32::MAX
    &&& forall|k: int| 0 <= k < s.body.len() ==> body_handle_ok(m.entities, #[trigger] s.body[k])
}

/// Everything `game_wf` asks except the head-position range, which a
/// move can break for the instant before the wall check runs.
pub open spec fn game_wf_core(m: GameModel) -> bool {
    &&& config_wf(m.config)
    &&& ids_ok(m.entities, m.next_id)
    &&& bombs_ok(m.entities)
    &&& m.app_state is Gameplay ==> m.snake is Some && has_head(m.entities) && unique_head(
        m.entities,
    )
    &&& m.app_state !is Gameplay ==> m.snake is None && m.death is None
    &&& m.snake matches Some(s) ==> snake_ok(m, s)
    &&& m.death matches Some(t) ==> timer_wf(t)
    &&& timer_wf(m.splash)
}

/// The session invariant: every state reachable through this module's
/// operations satisfies it.
pub open spec fn game_wf(m: GameModel) -> bool {
    game_wf_core(m) && (m.app_state is Gameplay ==> head_in_range(m))
}

/// A fresh snake model: heading left, nothing queued, nothing owed.
pub open spec fn initial_snake() -> SnakeModel {
    SnakeModel {
        direction: Direction::Left,
        prev_direction: Direction::Left,
        next_turn: false,
        growth: 0,
        body: Seq::empty(),
    }
}

/// Number of wall cells on the boundary of a `c.width` by `c.height`
/// grid.
pub open spec fn wall_cell_count(c: GameConfig) -> int {
    2 * c.width + 2 * c.height
}

/// The `i`th boundary cell: the top row, then the bottom row, then the
/// left and right columns.
pub open spec fn boundary_cell(c: GameConfig, i: int) -> GridPosition {
    if i <= c.width {
        GridPosition { x: i as i32, y: 0 }
    } else if i <= 2 * c.width + 1 {
        GridPosition { x: (i - c.width - 1) as i32, y: c.height }
    } else if i <= 2 * c.width + c.height {
        GridPosition { x: 0, y: (i - 2 * c.width - 1) as i32 }
    } else {
        GridPosition { x: c.width, y: (i - 2 * c.width - c.height) as i32 }
    }
}

/// The cell at the center of the grid, where the snake spawns.
pub open spec fn center_cell(c: GameConfig) -> GridPosition {
    GridPosition { x: (c.width / 2) as i32, y: (c.height / 2) as i32 }
}

/// The entities present the moment gameplay is entered: the boundary
/// walls and the snake's head, with handles starting at `base`.
pub open spec fn initial_entities(c: GameConfig, base: u64) -> Seq<Entity> {
    Seq::new(
        wall_cell_count(c) as nat,
        |i: int| Entity { id: (base + i) as u64, kind: EntityKind::Wall, pos: boundary_cell(c, i) },
    ).push(
        Entity {
            id: (base + wall_cell_count(c)) as u64,
            kind: EntityKind::Head,
            pos: center_cell(c),
        },
    )
}

/// The state on entering gameplay: fresh walls and a fresh centered
/// snake replace whatever was there; timers are clean.
pub open spec fn gameplay_entered(m: GameModel) -> GameModel {
    GameModel {
        app_state: AppState::Gameplay,
        entities: initial_entities(m.config, m.next_id),
        next_id: (m.next_id + wall_cell_count(m.config) + 1) as u64,
        snake: Some(initial_snake()),
        death: None,
        ..m
    }
}

/// The state on a fatal event: gameplay entities are destroyed, the
/// walls persist, and the session is over.
pub open spec fn game_over_now(m: GameModel) -> GameModel {
    GameModel {
        app_state: AppState::GameOver,
        entities: walls_only(m.entities),
        snake: None,
        death: None,
        ..m
    }
}

/// Phase one of a tick: the sampled input, if any, is offered to the
/// snake as a turn.
pub open spec fn turn_applied(m: GameModel, input: Option<Direction>) -> GameModel {
    match input {
        Some(d) => GameModel { snake: Some(turned(m.snake->0, d)), ..m },
        None => m,
    }
}

/// Phase two: if growth credit is owed, one unit is consumed and a new
/// tail segment appears on the head's cell.
pub open spec fn grown(m: GameModel) -> GameModel {
    let s = m.snake->0;
    if s.growth > 0 {
        GameModel {
            entities: m.entities.push(
                Entity { id: m.next_id, kind: EntityKind::Body, pos: head_pos(m.entities) },
            ),
            next_id: (m.next_id + 1) as u64,
            snake: Some(
                SnakeModel { growth: (s.growth - 1) as u32, body: s.body.push(m.next_id), ..s },
            ),
            ..m
        }
    } else {
        m
    }
}

/// The entities after the entity with handle `id` moves to `p`.
pub open spec fn with_pos_of(s: Seq<Entity>, id: u64, p: GridPosition) -> Seq<Entity> {
    Seq::new(
        s.len(),
        |j: int|
            if s[j].id == id {
                Entity { id: s[j].id, kind: s[j].kind, pos: p }
            } else {
                s[j]
            },
    )
}

/// The entities after the head entity moves to `p`.
pub open spec fn with_head_pos(s: Seq<Entity>, p: GridPosition) -> Seq<Entity> {
    Seq::new(
        s.len(),
        |j: int|
            if s[j].kind is Head {
                Entity { id: s[j].id, kind: s[j].kind, pos: p }
            } else {
                s[j]
            },
    )
}

/// Phase three: follow motion. The tail segment takes the head's cell
/// and becomes the head-adjacent segment, the head advances one cell
/// along the committed direction, and the queued-turn flag clears.
pub open spec fn moved(m: GameModel) -> GameModel {
    let s = m.snake->0;
    let h = head_pos(m.entities);
    let followed = if s.body.len() > 0 {
        with_pos_of(m.entities, s.body.last(), h)
    } else {
        m.entities
    };
    GameModel {
        entities: with_head_pos(followed, stepped(h, s.direction)),
        snake: Some(
            SnakeModel {
                prev_direction: s.direction,
                next_turn: false,
                body: rotated(s.body),
                ..s
            },
        ),
        ..m
    }
}

/// Whether the head now sits at or beyond a wall: a fatal event.
pub open spec fn wall_dead(m: GameModel) -> bool {
    hits_wall(head_pos(m.entities), m.config.width, m.config.height)
}

/// Whether the head's projected next cell holds a body segment: the
/// look-ahead self-collision check, fatal one tick early.
pub open spec fn self_dead(m: GameModel) -> bool {
    body_at(m.entities, stepped(head_pos(m.entities), m.snake->0.direction))
}

/// Phase six: all food on the head's cell is eaten; its value becomes
/// growth credit.
pub open spec fn fed(m: GameModel) -> GameModel {
    let s = m.snake->0;
    let h = head_pos(m.entities);
    GameModel {
        entities: without_food_at(m.entities, h),
        snake: Some(
            SnakeModel { growth: (s.growth + food_points_at(m.entities, h)) as u32, ..s },
        ),
        ..m
    }
}

/// Phase seven: bombs on the head's cell are picked up and defused,
/// with no explosion and no damage.
pub open spec fn bombs_picked(m: GameModel) -> GameModel {
    GameModel { entities: without_bombs_at(m.entities, head_pos(m.entities)), ..m }
}

/// Whether, after fuses advance by `dt`, some expired bomb catches a
/// snake cell in its blast neighborhood.
pub open spec fn blast_lethal(m: GameModel, dt: u64) -> bool {
    let advanced = fuses_advanced(m.entities, dt);
    let remaining = without_expired_bombs(advanced);
    let booms = expired_bomb_positions(advanced);
    exists|k: int| 0 <= k < booms.len() && snake_caught(remaining, #[trigger] booms[k])
}

/// Phase eight: fuses advance, expired bombs explode and vanish, and a
/// lethal blast arms the one-shot death timer if none is armed.
pub open spec fn fuse_ticked(m: GameModel, dt: u64) -> GameModel {
    let advanced = fuses_advanced(m.entities, dt);
    GameModel {
        entities: without_expired_bombs(advanced),
        death: if m.death is None && blast_lethal(m, dt) {
            Some(Timer { elapsed: 0, duration: m.config.death_delay_ms })
        } else {
            m.death
        },
        ..m
    }
}

/// Phase nine: a death timer armed before this tick accumulates `dt`;
/// on expiry the session ends. A timer armed this very tick waits.
pub open spec fn death_ticked(m: GameModel, pre_death: Option<Timer>, dt: u64) -> GameModel {
    match pre_death {
        Some(t) => if timer_expires(t, dt) {
            game_over_now(m)
        } else {
            GameModel { death: Some(timer_advanced(t, dt)), ..m }
        },
        None => m,
    }
}

/// One full gameplay tick, in the fixed order: turn, grow, move, wall
/// check, self check, food, bomb pickup, fuses and blasts, death
/// timer. Wall and self collisions end the session at once.
pub open spec fn gameplay_ticked(m: GameModel, input: Option<Direction>, dt: u64) -> GameModel {
    let m3 = moved(grown(turn_applied(m, input)));
    if wall_dead(m3) {
        game_over_now(m3)
    } else if self_dead(m3) {
        game_over_now(m3)
    } else {
        let m5 = bombs_picked(fed(m3));
        death_ticked(fuse_ticked(m5, dt), m5.death, dt)
    }
}

/// The cells of the bombs that explode during a gameplay tick, for the
/// render collaborator's explosion effect.
pub open spec fn gameplay_explosions(m: GameModel, input: Option<Direction>, dt: u64) -> Seq<
    GridPosition,
> {
    let m3 = moved(grown(turn_applied(m, input)));
    if wall_dead(m3) || self_dead(m3) {
        Seq::empty()
    } else {
        expired_bomb_positions(fuses_advanced(bombs_picked(fed(m3)).entities, dt))
    }
}

/// One tick of the whole session: the splash screen dwells, gameplay
/// simulates, and game over waits for the confirmation input.
pub open spec fn ticked(m: GameModel, input: Option<Direction>, confirm: bool, dt: u64) -> GameModel {
    match m.app_state {
        AppState::SplashScreen => {
            let m1 = GameModel { splash: timer_advanced(m.splash, dt), ..m };
            if timer_expires(m.splash, dt) {
                gameplay_entered(m1)
            } else {
                m1
            }
        },
        AppState::Gameplay => gameplay_ticked(m, input, dt),
        AppState::GameOver => if confirm {
            gameplay_entered(m)
        } else {
            m
        },
    }
}

/// The explosions a whole-session tick reports.
pub open spec fn ticked_explosions(
    m: GameModel,
    input: Option<Direction>,
    confirm: bool,
    dt: u64,
) -> Seq<GridPosition> {
    if m.app_state is Gameplay {
        gameplay_explosions(m, input, dt)
    } else {
        Seq::empty()
    }
}

/// Whether the growth-credit budget leaves room for one more food of
/// the largest value; the spawner refuses to overcommit the credit
/// arithmetic.
pub open spec fn food_budget_ok(m: GameModel) -> bool {
    m.snake->0.growth + total_food_points(m.entities) + FOOD_VALUE_MAX <= u32::MAX
}

/// What a successful food spawn did: a fresh food entity of kind `f`
/// sits on `p`, a cell that was free and inside the playable bounds.
pub open spec fn food_spawned(m: GameModel, m2: GameModel, p: GridPosition, f: Food) -> bool {
    &&& m.app_state is Gameplay
    &&& !occupied_at(m.entities, p)
    &&& 0 <= p.x < m.config.width && 0 <= p.y < m.config.height
    &&& f.value == food_value(f.kind)
    &&& m2 == (GameModel {
        entities: m.entities.push(
            Entity { id: m.next_id, kind: EntityKind::Food { food: f }, pos: p },
        ),
        next_id: (m.next_id + 1) as u64,
        ..m
    })
}

/// What a successful bomb spawn did: a fresh armed bomb with a full
/// fuse sits on `p`, a cell that was free and inside the playable
/// bounds.
pub open spec fn bomb_spawned(m: GameModel, m2: GameModel, p: GridPosition) -> bool {
    &&& m.app_state is Gameplay
    &&& !occupied_at(m.entities, p)
    &&& 0 <= p.x < m.config.width && 0 <= p.y < m.config.height
    &&& m2 == (GameModel {
        entities: m.entities.push(
            Entity {
                id: m.next_id,
                kind: EntityKind::Bomb {
                    bomb: Bomb { timer: Timer { elapsed: 0, duration: m.config.fuse_ms } },
                },
                pos: p,
            },
        ),
        next_id: (m.next_id + 1) as u64,
        ..m
    })
}

/// The model of a freshly created session: splash screen, empty
/// registry, no snake.
pub open spec fn initial_model(config: GameConfig) -> GameModel {
    GameModel {
        app_state: AppState::SplashScreen,
        entities: Seq::empty(),
        next_id: 0,
        snake: None,
        death: None,
        splash: Timer { elapsed: 0, duration: config.splash_dwell_ms },
        config,
    }
}

/// Appending a non-head entity leaves the head present, unique and in
/// place.
pub proof fn lemma_push_preserves_head(s: Seq<Entity>, e: Entity)
    requires
        has_head(s),
        unique_head(s),
        !(e.kind is Head),
    ensures
        has_head(s.push(e)),
        unique_head(s.push(e)),
        head_pos(s.push(e)) == head_pos(s),
{
    let t = s.push(e);
    let hi = head_index(s);
    assert(0 <= hi < s.len() && s[hi].kind is Head);
    assert(t[hi].kind is Head);
    assert(has_head(t));
    assert forall|i: int, j: int|
        #![trigger t[i].kind, t[j].kind]
        0 <= i < t.len() && 0 <= j < t.len() && t[i].kind is Head && t[j].kind
            is Head implies i == j by {
        assert(i < s.len() && j < s.len());
    }
    let hi2 = head_index(t);
    assert(0 <= hi2 < t.len() && t[hi2].kind is Head);
    assert(hi2 == hi);
}

/// Appending an entity keeps every body handle live.
pub proof fn lemma_push_preserves_body_handle(s: Seq<Entity>, e: Entity, id: u64)
    requires
        body_handle_ok(s, id),
    ensures
        body_handle_ok(s.push(e), id),
{
    let i = choose|i: int| 0 <= i < s.len() && (#[trigger] s[i].id) == id && s[i].kind is Body;
    assert(s.push(e)[i].id == id && s.push(e)[i].kind is Body);
}

/// Two same-length boards whose entities agree on head placement have
/// the same head.
pub proof fn lemma_head_pos_pointwise(s1: Seq<Entity>, s2: Seq<Entity>)
    requires
        has_head(s1),
        unique_head(s1),
        s1.len() == s2.len(),
        forall|j: int|
            #![trigger s1[j].kind]
            #![trigger s2[j].kind]
            0 <= j < s1.len() ==> (s2[j].kind is Head <==> s1[j].kind is Head),
        forall|j: int|
            0 <= j < s1.len() && (#[trigger] s1[j].kind) is Head ==> s2[j].pos == s1[j].pos,
    ensures
        has_head(s2),
        unique_head(s2),
        head_pos(s2) == head_pos(s1),
{
    let hi = head_index(s1);
    assert(0 <= hi < s1.len() && s1[hi].kind is Head);
    assert(s2[hi].kind is Head);
    assert(has_head(s2));
    assert forall|i: int, j: int|
        #![trigger s2[i].kind, s2[j].kind]
        0 <= i < s2.len() && 0 <= j < s2.len() && s2[i].kind is Head && s2[j].kind
            is Head implies i == j by {
        assert(s1[i].kind is Head && s1[j].kind is Head);
    }
    let hi2 = head_index(s2);
    assert(0 <= hi2 < s2.len() && s2[hi2].kind is Head);
    assert(hi2 == hi);
}

/// The `i`th boundary wall cell, as `boundary_cell` lists them.
fn boundary_cell_exec(c: GameConfig, i: usize) -> (p: GridPosition)
    requires
        config_wf(c),
        i < wall_cell_count(c),
    ensures
        p == boundary_cell(c, i as int),
{
    let w = c.width;
    let h = c.height;
    let ii = i as i32;
    if ii <= w {
        GridPosition { x: ii, y: 0 }
    } else if ii <= 2 * w + 1 {
        GridPosition { x: ii - w - 1, y: h }
    } else if ii <= 2 * w + h {
        GridPosition { x: 0, y: ii - 2 * w - 1 }
    } else {
        GridPosition { x: w, y: ii - 2 * w - h }
    }
}

/// A whole session: the state machine, the entity registry, the snake
/// and the two one-shot timers, advanced tick by tick by a host loop.
pub struct GameState {
    pub app_state: AppState,
    pub registry: Registry,
    pub snake: Option<SnakeHead>,
    pub death: Option<DeathTimer>,
    pub splash: Timer,
    pub config: GameConfig,
}

impl View for GameState {
    type V = GameModel;

    open spec fn view(&self) -> GameModel {
        GameModel {
            app_state: self.app_state,
            entities: self.registry.entities@,
            next_id: self.registry.next_id,
            snake: match self.snake {
                Some(s) => Some(s@),
                None => None,
            },
            death: match self.death {
                Some(d) => Some(d.timer),
                None => None,
            },
            splash: self.splash,
            config: self.config,
        }
    }
}

impl GameState {
    /// A fresh session on the splash screen.
    pub fn new(config: GameConfig) -> (g: GameState)
        requires
            config_wf(config),
        ensures
            g@ == initial_model(config),
            game_wf(g@),
    {
        let g = GameState {
            app_state: AppState::SplashScreen,
            registry: Registry::new(),
            snake: None,
            death: None,
            splash: Timer::new(config.splash_dwell_ms),
            config,
        };
        assert(g@.entities =~= Seq::<Entity>::empty());
        assert(g@ == initial_model(config));
        g
    }

    /// Entering gameplay: the board is rebuilt with fresh boundary
    /// walls and a fresh centered snake, and the timers are clean.
    fn enter_gameplay(&mut self)
        requires
            old(self).registry.wf(),
            config_wf(old(self)@.config),
            timer_wf(old(self)@.splash),
            old(self)@.next_id + wall_cell_count(old(self)@.config) + 1 <= u64::MAX,
        ensures
            final(self)@ == gameplay_entered(old(self)@),
            game_wf(final(self)@),
    {
        self.registry.clear();
        let w = self.config.width;
        let h = self.config.height;
        let count: usize = (2 * w + 2 * h) as usize;
        let ghost base = self.registry.next_id;
        let ghost cfg = self.config;
        for i in 0..count
            invariant
                cfg == self.config,
                config_wf(cfg),
                count == wall_cell_count(cfg),
                self.registry.wf(),
                self.registry.next_id == base + i,
                base + count + 1 <= u64::MAX,
                self.registry.entities@ == Seq::new(
                    i as nat,
                    |j: int|
                        Entity {
                            id: (base + j) as u64,
                            kind: EntityKind::Wall,
                            pos: boundary_cell(cfg, j),
                        },
                ),
                self@.app_state == old(self)@.app_state,
                self@.snake == old(self)@.snake,
                self@.death == old(self)@.death,
                self@.splash == old(self)@.splash,
        {
            let p = boundary_cell_exec(self.config, i);
            self.registry.spawn(EntityKind::Wall, p);
            proof {
                assert(self.registry.entities@ =~= Seq::new(
                    (i + 1) as nat,
                    |j: int|
                        Entity {
                            id: (base + j) as u64,
                            kind: EntityKind::Wall,
                            pos: boundary_cell(cfg, j),
                        },
                ));
            }
        }
        let cx = w / 2;
        let cy = h / 2;
        self.registry.spawn(EntityKind::Head, GridPosition { x: cx, y: cy });
        self.snake = Some(SnakeHead::new());
        self.death = None;
        self.app_state = AppState::Gameplay;
        proof {
            let e = self@.entities;
            assert(e =~= initial_entities(cfg, base));
            assert(self@.snake->0.body =~= initial_snake().body);
            assert(self@.snake->0 == initial_snake());
            assert(self@ == gameplay_entered(old(self)@));
            assert(e[count as int].kind is Head);
            assert(has_head(e));
            assert forall|i: int, j: int|
                #![trigger e[i].kind, e[j].kind]
                0 <= i < e.len() && 0 <= j < e.len() && e[i].kind is Head && e[j].kind
                    is Head implies i == j by {
                assert(forall|k: int| 0 <= k < count ==> (#[trigger] e[k].kind) is Wall);
            }
            let hi = head_index(e);
            assert(0 <= hi < e.len() && e[hi].kind is Head);
            assert(hi == count as int);
            assert(head_pos(e) == center_cell(cfg));
            assert(1 <= cfg.width / 2 <= cfg.width - 1);
            assert(1 <= cfg.height / 2 <= cfg.height - 1);
            assert(head_in_range(self@));
            assert forall|i: int| 0 <= i < e.len() implies any_food_points_fn()(
                #[trigger] e[i],
            ) == 0 by {}
            lemma_points_sum_zero(e, any_food_points_fn());
            assert(snake_ok(self@, self@.snake->0));
            assert(game_wf(self@));
        }
    }

    /// Offers the sampled input, if any, to the snake as a turn. At
    /// most one turn is honored per tick; the last valid input before
    /// the tick boundary is the one offered.
    pub fn apply_turn(&mut self, input: Option<Direction>)
        requires
            game_wf(old(self)@),
            old(self)@.app_state is Gameplay,
        ensures
            final(self)@ == turn_applied(old(self)@, input),
            game_wf(final(self)@),
    {
        match input {
            Some(d) => {
                match &mut self.snake {
                    Some(s) => s.turn(d),
                    None => {},
                }
            },
            None => {},
        }
    }

    /// Consumes one unit of growth credit, if any is owed, by adding a
    /// body segment on the head's cell as the new tail.
    pub fn grow_snake(&mut self)
        requires
            game_wf(old(self)@),
            old(self)@.app_state is Gameplay,
            old(self)@.next_id < u64::MAX,
        ensures
            final(self)@ == grown(old(self)@),
            game_wf(final(self)@),
    {
        let can = match &self.snake {
            Some(s) => s.can_grow(),
            None => false,
        };
        if !can {
            return ;
        }
        let hp = self.registry.head_position();
        let id = self.registry.spawn(EntityKind::Body, hp);
        match &mut self.snake {
            Some(s) => s.add_body_piece(id),
            None => {},
        }
        proof {
            let m = old(self)@;
            let e0 = m.entities;
            let pushed = Entity { id: m.next_id, kind: EntityKind::Body, pos: head_pos(e0) };
            let e = self@.entities;
            assert(e == e0.push(pushed));
            assert(self@.snake->0.body =~= grown(m).snake->0.body);
            assert(self@.snake->0 == grown(m).snake->0);
            assert(self@ == grown(m));
            lemma_push_preserves_head(e0, pushed);
            assert(e.drop_last() =~= e0);
            assert(total_food_points(e) == total_food_points(e0));
            assert forall|k: int|
                0 <= k < self@.snake->0.body.len() implies body_handle_ok(
                e,
                #[trigger] self@.snake->0.body[k],
            ) by {
                if k < m.snake->0.body.len() {
                    lemma_push_preserves_body_handle(e0, pushed, m.snake->0.body[k]);
                } else {
                    assert(e[e0.len() as int].id == m.next_id && e[e0.len() as int].kind is Body);
                }
            }
            assert(game_wf(self@));
        }
    }

    /// One step of follow motion: the tail segment takes the head's
    /// cell and becomes the head-adjacent segment, then the head
    /// advances one cell along the committed direction.
    pub fn move_snake(&mut self)
        requires
            game_wf(old(self)@),
            old(self)@.app_state is Gameplay,
        ensures
            final(self)@ == moved(old(self)@),
            game_wf_core(final(self)@),
    {
        let ghost m = old(self)@;
        let ghost e0 = m.entities;
        let ghost s0 = m.snake->0;
        let hp = self.registry.head_position();
        let tail_opt = match &self.snake {
            Some(s) => s.get_last_body_piece(),
            None => None,
        };
        match tail_opt {
            Some(tid) => {
                proof {
                    assert(body_handle_ok(e0, tid));
                    let i = choose|i: int|
                        0 <= i < e0.len() && (#[trigger] e0[i].id) == tid && e0[i].kind is Body;
                    assert(e0[i].id == tid);
                }
                self.registry.set_position_of(tid, hp);
                match &mut self.snake {
                    Some(s) => s.move_last_body_piece_to_front(),
                    None => {},
                }
                proof {
                    assert(self@.entities =~= with_pos_of(e0, tid, hp));
                }
            },
            None => {},
        }
        let ghost followed = if s0.body.len() > 0 {
            with_pos_of(e0, s0.body.last(), hp)
        } else {
            e0
        };
        proof {
            assert(self@.entities == followed);
            assert(self@.snake->0.body == rotated(s0.body));
            assert(followed.len() == e0.len());
            assert(forall|j: int|
                0 <= j < e0.len() ==> (#[trigger] followed[j].id) == e0[j].id && followed[j].kind
                    == e0[j].kind);
            assert forall|j: int|
                0 <= j < e0.len() && (#[trigger] e0[j].kind) is Head implies followed[j].pos
                == e0[j].pos by {
                if s0.body.len() > 0 && e0[j].id == s0.body.last() {
                    assert(body_handle_ok(e0, s0.body.last()));
                    let i = choose|i: int|
                        0 <= i < e0.len() && (#[trigger] e0[i].id) == s0.body.last() && e0[i].kind
                            is Body;
                    assert(i == j);
                    assert(false);
                }
            }
            lemma_head_pos_pointwise(e0, followed);
            assert(head_pos(followed) == hp);
        }
        match &mut self.snake {
            Some(s) => s.commit_step(),
            None => {},
        }
        let dir = match &self.snake {
            Some(s) => s.direction,
            None => Direction::Left,
        };
        let mut nh = hp;
        nh.move_position(dir, 1);
        proof {
            assert(nh == stepped(hp, s0.direction));
        }
        self.registry.set_head_position(nh);
        proof {
            let e2 = self@.entities;
            assert(e2 =~= with_head_pos(followed, stepped(hp, s0.direction)));
            assert(self@.snake->0 == moved(m).snake->0);
            assert(self@.entities == moved(m).entities);
            assert(self@ == moved(m));
            assert(forall|j: int|
                0 <= j < followed.len() ==> (#[trigger] e2[j].id) == followed[j].id && e2[j].kind
                    == followed[j].kind);
            let hi = head_index(followed);
            assert(0 <= hi < followed.len() && followed[hi].kind is Head);
            assert(e2[hi].kind is Head);
            assert(has_head(e2));
            assert forall|i: int, j: int|
                #![trigger e2[i].kind, e2[j].kind]
                0 <= i < e2.len() && 0 <= j < e2.len() && e2[i].kind is Head && e2[j].kind
                    is Head implies i == j by {
                assert(followed[i].kind is Head && followed[j].kind is Head);
            }
            let hi2 = head_index(e2);
            assert(0 <= hi2 < e2.len() && e2[hi2].kind is Head);
            assert(followed[hi2].kind is Head);
            assert(head_pos(e2) == nh);
            assert forall|x: Entity, y: Entity|
                x.id == y.id && x.kind == y.kind implies any_food_points_fn()(x)
                == any_food_points_fn()(y) by {}
            lemma_points_sum_pointwise(e0, followed, any_food_points_fn());
            lemma_points_sum_pointwise(followed, e2, any_food_points_fn());
            assert(total_food_points(e2) == total_food_points(e0));
            assert forall|k: int|
                0 <= k < rotated(s0.body).len() implies body_handle_ok(
                e2,
                #[trigger] rotated(s0.body)[k],
            ) by {
                let id = rotated(s0.body)[k];
                assert(s0.body.contains(id)) by {
                    if s0.body.len() <= 1 {
                        assert(s0.body[k] == id);
                    } else {
                        if k == 0 {
                            assert(s0.body[s0.body.len() - 1] == id);
                        } else {
                            assert(s0.body[k - 1] == id);
                        }
                    }
                }
                let kk = choose|kk: int| 0 <= kk < s0.body.len() && s0.body[kk] == id;
                assert(body_handle_ok(e0, id));
                let i = choose|i: int|
                    0 <= i < e0.len() && (#[trigger] e0[i].id) == id && e0[i].kind is Body;
                assert(e2[i].id == id && e2[i].kind is Body);
            }
            assert(game_wf_core(self@));
        }
    }

    /// The wall check: a head at or beyond the boundary ends the
    /// session at once.
    pub fn wall_collision(&mut self) -> (dead: bool)
        requires
            game_wf_core(old(self)@),
            old(self)@.app_state is Gameplay,
        ensures
            dead == wall_dead(old(self)@),
            dead ==> final(self)@ == game_over_now(old(self)@),
            !dead ==> final(self)@ == old(self)@,
            game_wf(final(self)@),
    {
        let p = self.registry.head_position();
        let w = self.config.width;
        let h = self.config.height;
        if p.x <= 0 || p.x >= w || p.y <= 0 || p.y >= h {
            self.exit_gameplay();
            true
        } else {
            false
        }
    }

    /// The look-ahead self-collision check: if the head's projected
    /// next cell holds a body segment, the session ends at once.
    pub fn self_collision(&mut self) -> (dead: bool)
        requires
            game_wf(old(self)@),
            old(self)@.app_state is Gameplay,
        ensures
            dead == self_dead(old(self)@),
            dead ==> final(self)@ == game_over_now(old(self)@),
            !dead ==> final(self)@ == old(self)@,
            game_wf(final(self)@),
    {
        let p = self.registry.head_position();
        let dir = match &self.snake {
            Some(s) => s.direction,
            None => Direction::Left,
        };
        let mut nh = p;
        nh.move_position(dir, 1);
        if self.registry.body_at_cell(nh) {
            self.exit_gameplay();
            true
        } else {
            false
        }
    }

    /// Eats every food on the head's cell, crediting its value to the
    /// snake's growth. All simultaneous matches apply.
    pub fn food_collision(&mut self)
        requires
            game_wf(old(self)@),
            old(self)@.app_state is Gameplay,
        ensures
            final(self)@ == fed(old(self)@),
            game_wf(final(self)@),
    {
        let ghost m = old(self)@;
        let ghost e0 = m.entities;
        let ghost s0 = m.snake->0;
        let hp = self.registry.head_position();
        proof {
            assert forall|x: Entity| (#[trigger] food_points_fn(hp)(x)) <= any_food_points_fn()(
                x,
            ) by {}
            assert forall|x: Entity| (#[trigger] food_points_fn(hp)(x)) >= 0 by {}
            lemma_points_sum_le(e0, food_points_fn(hp), any_food_points_fn());
            lemma_points_sum_nonneg(e0, food_points_fn(hp));
        }
        let pts = self.registry.consume_food_at(hp);
        match &mut self.snake {
            Some(s) => s.grow(pts),
            None => {},
        }
        proof {
            let e = self@.entities;
            assert(self@.snake->0 == fed(m).snake->0);
            assert(self@ == fed(m));
            assert forall|x: Entity| (#[trigger] x.kind) is Head implies not_food_at(hp)(x) by {}
            lemma_kept_preserves_head(e0, not_food_at(hp), m.next_id);
            lemma_food_conservation(e0, hp);
            assert forall|k: int|
                0 <= k < s0.body.len() implies body_handle_ok(e, #[trigger] s0.body[k]) by {
                lemma_kept_preserves_body_handle(e0, not_food_at(hp), s0.body[k]);
            }
            assert(game_wf(self@));
        }
    }

    /// Picks up and defuses every bomb on the head's cell: no
    /// explosion, no damage.
    pub fn bomb_collision(&mut self)
        requires
            game_wf(old(self)@),
            old(self)@.app_state is Gameplay,
        ensures
            final(self)@ == bombs_picked(old(self)@),
            game_wf(final(self)@),
    {
        let ghost m = old(self)@;
        let ghost e0 = m.entities;
        let ghost s0 = m.snake->0;
        let hp = self.registry.head_position();
        self.registry.despawn_bombs_at(hp);
        proof {
            let e = self@.entities;
            assert(self@ == bombs_picked(m));
            assert forall|x: Entity| (#[trigger] x.kind) is Head implies not_bomb_at(hp)(x) by {}
            lemma_kept_preserves_head(e0, not_bomb_at(hp), m.next_id);
            assert forall|x: Entity| (#[trigger] any_food_points_fn()(x)) >= 0 by {}
            lemma_points_sum_kept_le(e0, not_bomb_at(hp), any_food_points_fn());
            assert forall|k: int|
                0 <= k < s0.body.len() implies body_handle_ok(e, #[trigger] s0.body[k]) by {
                lemma_kept_preserves_body_handle(e0, not_bomb_at(hp), s0.body[k]);
            }
            assert(game_wf(self@));
        }
    }

    /// Advances every bomb fuse by `dt`; expired bombs explode and are
    /// destroyed, their cells are reported for the explosion effect,
    /// and a blast that catches any snake cell arms the one-shot death
    /// timer if none is armed yet.
    pub fn bomb_timer_step(&mut self, dt: u64) -> (exploded: Vec<GridPosition>)
        requires
            game_wf(old(self)@),
            old(self)@.app_state is Gameplay,
        ensures
            final(self)@ == fuse_ticked(old(self)@, dt),
            game_wf(final(self)@),
            exploded@ == expired_bomb_positions(fuses_advanced(old(self)@.entities, dt)),
    {
        let ghost m = old(self)@;
        let ghost e0 = m.entities;
        let ghost s0 = m.snake->0;
        self.registry.advance_fuses(dt);
        let ghost adv = fuses_advanced(e0, dt);
        proof {
            assert(adv.len() == e0.len());
            assert forall|j: int|
                0 <= j < e0.len() implies (#[trigger] adv[j].id) == e0[j].id && ((adv[j].kind
                is Head) <==> (e0[j].kind is Head)) && ((adv[j].kind is Body) <==> (e0[j].kind
                is Body)) && (e0[j].kind is Head ==> adv[j].pos == e0[j].pos) by {
                assert(adv[j] == fuse_advanced(dt)(e0[j]));
            }
            lemma_head_pos_pointwise(e0, adv);
            assert forall|x: Entity|
                any_food_points_fn()(#[trigger] fuse_advanced(dt)(x)) == any_food_points_fn()(
                x,
            ) by {}
            lemma_points_sum_map(e0, fuse_advanced(dt), any_food_points_fn());
        }
        let exploded = self.registry.remove_expired_bombs();
        proof {
            let e = self@.entities;
            assert forall|x: Entity| (#[trigger] x.kind) is Head implies not_expired()(x) by {}
            lemma_kept_preserves_head(adv, not_expired(), m.next_id);
            assert forall|x: Entity| (#[trigger] any_food_points_fn()(x)) >= 0 by {}
            lemma_points_sum_kept_le(adv, not_expired(), any_food_points_fn());
            assert forall|k: int|
                0 <= k < s0.body.len() implies body_handle_ok(e, #[trigger] s0.body[k]) by {
                let id = s0.body[k];
                assert(body_handle_ok(e0, id));
                let i = choose|i: int|
                    0 <= i < e0.len() && (#[trigger] e0[i].id) == id && e0[i].kind is Body;
                assert(adv[i] == fuse_advanced(dt)(e0[i]));
                assert(adv[i].id == id && adv[i].kind is Body);
                assert(body_handle_ok(adv, id));
                assert forall|x: Entity| (#[trigger] x.kind) is Body implies not_expired()(
                    x,
                ) by {}
                lemma_kept_preserves_body_handle(adv, not_expired(), id);
            }
        }
        let ghost mid = self@;
        let mut lethal = false;
        let n = exploded.len();
        for k in 0..n
            invariant
                n == exploded@.len(),
                self@ == mid,
                lethal == exists|j: int|
                    0 <= j < k && snake_caught(mid.entities, #[trigger] exploded@[j]),
        {
            let caught = self.registry.snake_caught_by(exploded[k]);
            if caught {
                lethal = true;
                proof {
                    assert(snake_caught(mid.entities, exploded@[k as int]));
                }
            } else {
                proof {
                    assert(!snake_caught(mid.entities, exploded@[k as int]));
                    assert forall|j: int|
                        0 <= j < k + 1 implies !snake_caught(
                        mid.entities,
                        #[trigger] exploded@[j],
                    ) || lethal by {}
                }
            }
        }
        proof {
            assert(mid.entities == without_expired_bombs(adv));
            assert(exploded@ == expired_bomb_positions(adv));
            assert(lethal == blast_lethal(m, dt));
        }
        if lethal {
            let arm = match &self.death {
                Some(_) => false,
                None => true,
            };
            if arm {
                self.death = Some(DeathTimer { timer: Timer::new(self.config.death_delay_ms) });
            }
        }
        proof {
            assert(self@ == fuse_ticked(m, dt));
            assert(game_wf(self@));
        }
        exploded
    }

    /// One full gameplay tick, in the fixed order: turn, grow, move,
    /// wall check, self check, food, bomb pickup, fuses and blasts,
    /// death timer.
    fn gameplay_tick(&mut self, input: Option<Direction>, dt: u64) -> (exploded: Vec<
        GridPosition,
    >)
        requires
            game_wf(old(self)@),
            old(self)@.app_state is Gameplay,
            old(self)@.next_id < u64::MAX,
        ensures
            final(self)@ == gameplay_ticked(old(self)@, input, dt),
            game_wf(final(self)@),
            exploded@ == gameplay_explosions(old(self)@, input, dt),
    {
        let ghost m = old(self)@;
        self.apply_turn(input);
        self.grow_snake();
        self.move_snake();
        proof {
            assert(self@ == moved(grown(turn_applied(m, input))));
        }
        if self.wall_collision() {
            let r: Vec<GridPosition> = Vec::new();
            assert(r@ =~= Seq::<GridPosition>::empty());
            return r;
        }
        if self.self_collision() {
            let r: Vec<GridPosition> = Vec::new();
            assert(r@ =~= Seq::<GridPosition>::empty());
            return r;
        }
        self.food_collision();
        self.bomb_collision();
        let ghost m5 = self@;
        let pre_death: Option<DeathTimer> = self.death;
        let exploded = self.bomb_timer_step(dt);
        match pre_death {
            Some(d) => {
                let mut d2 = d;
                d2.timer.advance(dt);
                if d2.timer.finished() {
                    self.exit_gameplay();
                } else {
                    self.death = Some(d2);
                }
            },
            None => {},
        }
        proof {
            assert(self@ == gameplay_ticked(m, input, dt));
            assert(game_wf(self@));
        }
        exploded
    }

    /// Advances the whole session by one tick of `dt` milliseconds:
    /// the splash screen dwells, gameplay simulates with the sampled
    /// input, and game over waits for the confirmation input. Returns
    /// the cells of any bombs that exploded this tick.
    pub fn tick(&mut self, input: Option<Direction>, confirm: bool, dt: u64) -> (exploded: Vec<
        GridPosition,
    >)
        requires
            game_wf(old(self)@),
            old(self)@.next_id + 2 * old(self)@.config.width + 2 * old(self)@.config.height + 2
                <= u64::MAX,
        ensures
            final(self)@ == ticked(old(self)@, input, confirm, dt),
            game_wf(final(self)@),
            exploded@ == ticked_explosions(old(self)@, input, confirm, dt),
    {
        match self.app_state {
            AppState::SplashScreen => {
                self.splash.advance(dt);
                let done = self.splash.finished();
                if done {
                    self.enter_gameplay();
                }
                let r: Vec<GridPosition> = Vec::new();
                assert(r@ =~= Seq::<GridPosition>::empty());
                r
            },
            AppState::GameOver => {
                if confirm {
                    self.enter_gameplay();
                }
                let r: Vec<GridPosition> = Vec::new();
                assert(r@ =~= Seq::<GridPosition>::empty());
                r
            },
            AppState::Gameplay => self.gameplay_tick(input, dt),
        }
    }

    /// Rejection sampling for spawn placement: draws random cells and
    /// keeps the first unoccupied one, giving up after a bounded
    /// number of attempts so that a crowded board cannot hang the
    /// spawner.
    pub fn find_free_position(&self) -> (r: Option<GridPosition>)
        requires
            config_wf(self@.config),
        ensures
            r matches Some(p) ==> !occupied_at(self@.entities, p) && 0 <= p.x < self@.config.width
                && 0 <= p.y < self@.config.height,
    {
        let w = self.config.width as u32;
        let h = self.config.height as u32;
        let mut attempts: u32 = 0;
        while attempts < 1000
            invariant
                config_wf(self@.config),
                w == self@.config.width,
                h == self@.config.height,
            decreases 1000 - attempts,
        {
            let p = GridPosition::random(w, h);
            if !self.registry.occupied(p) {
                return Some(p);
            }
            attempts = attempts + 1;
        }
        None
    }

    /// The food spawner's tick: outside gameplay it does nothing;
    /// otherwise it tries to place one random food on a free cell,
    /// refusing only when no free cell was found or the growth budget
    /// is exhausted.
    pub fn spawn_food_tick(&mut self) -> (spawned: bool)
        requires
            game_wf(old(self)@),
            old(self)@.next_id < u64::MAX,
        ensures
            game_wf(final(self)@),
            old(self)@.app_state !is Gameplay ==> final(self)@ == old(self)@ && !spawned,
            old(self)@.app_state is Gameplay && !food_budget_ok(old(self)@) ==> !spawned,
            spawned ==> exists|p: GridPosition, f: Food|
                food_spawned(old(self)@, final(self)@, p, f),
            !spawned ==> final(self)@ == old(self)@,
    {
        let ghost m = old(self)@;
        if !in_expected_state(&self.app_state, AppState::Gameplay) {
            return false;
        }
        let ghost s0 = m.snake->0;
        let total = self.registry.total_food_value();
        let growth = match &self.snake {
            Some(s) => s.growth,
            None => 0,
        };
        if !(total <= u32::MAX - FOOD_VALUE_MAX && growth <= u32::MAX - FOOD_VALUE_MAX - total) {
            return false;
        }
        match self.find_free_position() {
            Some(p) => {
                let f = Food::random();
                let pushed = EntityKind::Food { food: f };
                self.registry.spawn(pushed, p);
                proof {
                    let e0 = m.entities;
                    let e = self@.entities;
                    assert(food_spawned(m, self@, p, f));
                    lemma_push_preserves_head(e0, e.last());
                    assert(e.drop_last() =~= e0);
                    assert(total_food_points(e) == total_food_points(e0) + f.value);
                    assert forall|k: int|
                        0 <= k < s0.body.len() implies body_handle_ok(
                        e,
                        #[trigger] s0.body[k],
                    ) by {
                        lemma_push_preserves_body_handle(e0, e.last(), s0.body[k]);
                    }
                    assert(game_wf(self@));
                }
                true
            },
            None => false,
        }
    }

    /// The bomb spawner's tick: outside gameplay it does nothing;
    /// otherwise it tries to place one armed bomb with a full fuse on
    /// a free cell, refusing only when no free cell was found.
    pub fn spawn_bomb_tick(&mut self) -> (spawned: bool)
        requires
            game_wf(old(self)@),
            old(self)@.next_id < u64::MAX,
        ensures
            game_wf(final(self)@),
            old(self)@.app_state !is Gameplay ==> final(self)@ == old(self)@ && !spawned,
            spawned ==> exists|p: GridPosition| bomb_spawned(old(self)@, final(self)@, p),
            !spawned ==> final(self)@ == old(self)@,
    {
        let ghost m = old(self)@;
        if !in_expected_state(&self.app_state, AppState::Gameplay) {
            return false;
        }
        let ghost s0 = m.snake->0;
        match self.find_free_position() {
            Some(p) => {
                let b = Bomb::new(self.config.fuse_ms);
                self.registry.spawn(EntityKind::Bomb { bomb: b }, p);
                proof {
                    let e0 = m.entities;
                    let e = self@.entities;
                    assert(bomb_spawned(m, self@, p));
                    lemma_push_preserves_head(e0, e.last());
                    assert(e.drop_last() =~= e0);
                    assert(total_food_points(e) == total_food_points(e0));
                    assert forall|k: int|
                        0 <= k < s0.body.len() implies body_handle_ok(
                        e,
                        #[trigger] s0.body[k],
                    ) by {
                        lemma_push_preserves_body_handle(e0, e.last(), s0.body[k]);
                    }
                    assert(game_wf(self@));
                }
                true
            },
            None => false,
        }
    }

    /// A fatal event: gameplay entities are destroyed, the walls
    /// persist, and the session transitions to game over.
    fn exit_gameplay(&mut self)
        requires
            old(self).registry.wf(),
            config_wf(old(self)@.config),
            timer_wf(old(self)@.splash),
        ensures
            final(self)@ == game_over_now(old(self)@),
            game_wf(final(self)@),
    {
        self.registry.clear_except_walls();
        self.snake = None;
        self.death = None;
        self.app_state = AppState::GameOver;
    }
}

} // verus!
