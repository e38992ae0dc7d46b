//! The simulation's stated laws, proved once and for all over the tick
//! model: movement, no-reverse, growth conservation, blast lethality
//! and the completeness of the session transitions.

use vstd::prelude::*;
use crate::common::{opposite, stepped, timer_expires, within_blast, Direction, GridPosition};
use crate::gameplay::{
    bombs_picked, fed, fuse_ticked, game_wf, gameplay_ticked, grown, lemma_head_pos_pointwise,
    moved, self_dead, ticked, turn_applied, wall_dead, with_head_pos, with_pos_of, GameModel,
};
use crate::registry::{
    body_handle_ok, head_index, head_pos, is_snake_piece, snake_caught, Entity,
};
use crate::snake::{rotated, snake_wf, turned, SnakeModel};

verus! {

/// Movement invariant: a step advances the head by exactly one cell
/// along the committed direction, and — whenever the snake has a body
/// — the follow-update leaves a body segment within one cell of the
/// new head position along each axis.
pub proof fn lemma_movement_invariant(m: GameModel)
    requires
        game_wf(m),
        m.app_state is Gameplay,
    ensures
        head_pos(moved(m).entities) == stepped(head_pos(m.entities), m.snake->0.direction),
        m.snake->0.body.len() > 0 ==> exists|i: int|
            0 <= i < moved(m).entities.len() && (#[trigger] moved(m).entities[i].kind) is Body
                && within_blast(head_pos(moved(m).entities), moved(m).entities[i].pos),
{
    let s0 = m.snake->0;
    let e0 = m.entities;
    let h = head_pos(e0);
    let followed = if s0.body.len() > 0 {
        with_pos_of(e0, s0.body.last(), h)
    } else {
        e0
    };
    assert(followed.len() == e0.len());
    assert(forall|j: int|
        0 <= j < e0.len() ==> (#[trigger] followed[j].id) == e0[j].id && followed[j].kind
            == e0[j].kind);
    assert forall|j: int|
        0 <= j < e0.len() && (#[trigger] e0[j].kind) is Head implies followed[j].pos
        == e0[j].pos by {
        if s0.body.len() > 0 && e0[j].id == s0.body.last() {
            assert(body_handle_ok(e0, s0.body.last()));
            let i = choose|i: int|
                0 <= i < e0.len() && (#[trigger] e0[i].id) == s0.body.last() && e0[i].kind
                    is Body;
            assert(i == j);
            assert(false);
        }
    }
    lemma_head_pos_pointwise(e0, followed);
    let nh = stepped(h, s0.direction);
    let e2 = moved(m).entities;
    assert(e2 =~= with_head_pos(followed, nh));
    assert(forall|j: int|
        0 <= j < followed.len() ==> (#[trigger] e2[j].id) == followed[j].id && e2[j].kind
            == followed[j].kind);
    let hi = head_index(followed);
    assert(0 <= hi < followed.len() && followed[hi].kind is Head);
    assert(e2[hi].kind is Head);
    let hi2 = head_index(e2);
    assert(0 <= hi2 < e2.len() && e2[hi2].kind is Head);
    assert(followed[hi2].kind is Head);
    assert(hi2 == hi);
    assert(head_pos(e2) == nh);
    if s0.body.len() > 0 {
        assert(body_handle_ok(e0, s0.body.last()));
        let i = choose|i: int|
            0 <= i < e0.len() && (#[trigger] e0[i].id) == s0.body.last() && e0[i].kind is Body;
        assert(followed[i].pos == h);
        assert(e2[i].kind is Body && e2[i].pos == h);
        assert(within_blast(nh, h));
        assert(0 <= i < e2.len() && e2[i].kind is Body && within_blast(head_pos(e2), e2[i].pos));
    }
}

/// No-reverse invariant: however many turn requests arrive between two
/// ticks, the committed direction is never the exact opposite of the
/// direction from the previous tick, because each single request
/// preserves that and leaves the previous-tick direction unchanged.
pub proof fn lemma_no_reverse(s: SnakeModel, d: Direction)
    requires
        snake_wf(s),
    ensures
        snake_wf(turned(s, d)),
        turned(s, d).direction != opposite(s.prev_direction),
        turned(s, d).prev_direction == s.prev_direction,
{
}

/// Growth conservation, at the grow phase: at most one segment is
/// added per tick, and the growth credit decreases by exactly the
/// number of segments added.
pub proof fn lemma_growth_conservation(m: GameModel)
    requires
        game_wf(m),
        m.app_state is Gameplay,
    ensures
        grown(m).snake->0.body.len() - m.snake->0.body.len() == (
        if m.snake->0.growth > 0 {
            1int
        } else {
            0int
        }),
        m.snake->0.growth - grown(m).snake->0.growth == grown(m).snake->0.body.len()
            - m.snake->0.body.len(),
{
}

/// Growth conservation, over a whole tick: a surviving gameplay tick
/// never adds more than one body segment.
pub proof fn lemma_segments_per_tick(m: GameModel, input: Option<Direction>, dt: u64)
    requires
        game_wf(m),
        m.app_state is Gameplay,
    ensures
        gameplay_ticked(m, input, dt).snake matches Some(s2) ==> m.snake->0.body.len()
            <= s2.body.len() <= m.snake->0.body.len() + 1,
{
    let m1 = turn_applied(m, input);
    let m2 = grown(m1);
    let m3 = moved(m2);
    assert(m1.snake->0.body == m.snake->0.body);
    assert(m.snake->0.body.len() <= m2.snake->0.body.len() <= m.snake->0.body.len() + 1);
    assert(m3.snake->0.body.len() == m2.snake->0.body.len()) by {
        let b = m2.snake->0.body;
        if b.len() > 1 {
            assert(rotated(b).len() == b.len());
        }
    }
}

/// Blast lethality: the blast check flags the snake exactly when some
/// snake cell (head or body) lies at Chebyshev distance at most one
/// from the bomb's cell.
pub proof fn lemma_blast_lethality(s: Seq<Entity>, bomb: GridPosition)
    ensures
        snake_caught(s, bomb) <==> exists|i: int|
            0 <= i < s.len() && is_snake_piece(#[trigger] s[i]) && -1 <= s[i].pos.x - bomb.x <= 1
                && -1 <= s[i].pos.y - bomb.y <= 1,
{
}

/// State-transition completeness: the splash screen reaches gameplay
/// exactly on dwell expiry; gameplay reaches game over exactly on a
/// wall hit, a self-collision or death-timer expiry; game over reaches
/// gameplay exactly on the confirmation input.
pub proof fn lemma_session_transitions(
    m: GameModel,
    input: Option<Direction>,
    confirm: bool,
    dt: u64,
)
    requires
        game_wf(m),
    ensures
        m.app_state is SplashScreen ==> (ticked(m, input, confirm, dt).app_state is Gameplay
            <==> timer_expires(m.splash, dt)) && (!timer_expires(m.splash, dt) ==> ticked(
            m,
            input,
            confirm,
            dt,
        ).app_state is SplashScreen),
        m.app_state is GameOver ==> (ticked(m, input, confirm, dt).app_state is Gameplay
            <==> confirm) && (!confirm ==> ticked(m, input, confirm, dt) == m),
        m.app_state is Gameplay ==> (ticked(m, input, confirm, dt).app_state is GameOver <==> (
        wall_dead(moved(grown(turn_applied(m, input)))) || self_dead(
            moved(grown(turn_applied(m, input))),
        ) || (m.death matches Some(t) && timer_expires(t, dt)))),
        m.app_state is Gameplay ==> (ticked(m, input, confirm, dt).app_state is Gameplay <==> !(
        wall_dead(moved(grown(turn_applied(m, input)))) || self_dead(
            moved(grown(turn_applied(m, input))),
        ) || (m.death matches Some(t) && timer_expires(t, dt)))),
{
    if m.app_state is Gameplay {
        let m3 = moved(grown(turn_applied(m, input)));
        assert(m3.death == m.death);
        if !wall_dead(m3) && !self_dead(m3) {
            let m5 = bombs_picked(fed(m3));
            assert(m5.death == m.death);
            assert(m5.app_state is Gameplay);
            assert(fuse_ticked(m5, dt).app_state is Gameplay);
        }
    }
}

} // verus!
