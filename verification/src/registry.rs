//! Handle-based entity store. Every live gameplay entity — the snake's
//! head, its body segments, food, bombs and the boundary walls — is a
//! registry entry mapping a stable integer handle to its kind and grid
//! cell. Cell-occupancy questions are answered here, and the per-tick
//! sweeps (consuming food, advancing fuses, despawning) are registry
//! operations with exact sequence-level contracts.

use vstd::prelude::*;
use crate::bomb::Bomb;
use crate::common::{GridPosition, Timer, timer_advanced, timer_wf, within_blast};
use crate::food::Food;

verus! {

/// What a registry entry is: the kind tag a render collaborator needs,
/// plus kind-specific state.
#[derive(Clone, Copy, PartialEq, Eq, Structural, Debug)]
pub enum EntityKind {
    Head,
    Body,
    Wall,
    Food { food: Food },
    Bomb { bomb: Bomb },
}

/// One live entity: its handle, kind and grid cell.
#[derive(Clone, Copy, PartialEq, Eq, Structural, Debug)]
pub struct Entity {
    pub id: u64,
    pub kind: EntityKind,
    pub pos: GridPosition,
}

/// Whether this entity is part of the snake (head or body segment).
pub open spec fn is_snake_piece(e: Entity) -> bool {
    e.kind is Head || e.kind is Body
}

/// Handles are pairwise distinct and below the allocation cursor.
pub open spec fn ids_ok(s: Seq<Entity>, next_id: u64) -> bool {
    &&& forall|i: int, j: int|
        #![trigger s[i].id, s[j].id]
        0 <= i < j < s.len() ==> s[i].id != s[j].id
    &&& forall|i: int| 0 <= i < s.len() ==> (#[trigger] s[i].id) < next_id
}

/// Every bomb's fuse timer is well-formed.
pub open spec fn bombs_ok(s: Seq<Entity>) -> bool {
    forall|i: int|
        0 <= i < s.len() && (#[trigger] s[i].kind) is Bomb ==> timer_wf(s[i].kind->bomb.timer)
}

/// Whether some entity occupies the cell `p`.
pub open spec fn occupied_at(s: Seq<Entity>, p: GridPosition) -> bool {
    exists|i: int| 0 <= i < s.len() && (#[trigger] s[i].pos) == p
}

/// Whether an entity with handle `id` is live.
pub open spec fn has_id(s: Seq<Entity>, id: u64) -> bool {
    exists|i: int| 0 <= i < s.len() && (#[trigger] s[i].id) == id
}

/// The index of the live entity with handle `id`.
pub open spec fn index_of_id(s: Seq<Entity>, id: u64) -> int {
    choose|i: int| 0 <= i < s.len() && (#[trigger] s[i].id) == id
}

/// The live entity with handle `id`.
pub open spec fn entity_of(s: Seq<Entity>, id: u64) -> Entity {
    s[index_of_id(s, id)]
}

/// Whether some entity of kind `Head` is live.
pub open spec fn has_head(s: Seq<Entity>) -> bool {
    exists|i: int| 0 <= i < s.len() && (#[trigger] s[i].kind) is Head
}

/// At most one entity of kind `Head` is live.
pub open spec fn unique_head(s: Seq<Entity>) -> bool {
    forall|i: int, j: int|
        #![trigger s[i].kind, s[j].kind]
        0 <= i < s.len() && 0 <= j < s.len() && s[i].kind is Head && s[j].kind is Head ==> i == j
}

/// The index of the snake's head entity.
pub open spec fn head_index(s: Seq<Entity>) -> int {
    choose|i: int| 0 <= i < s.len() && (#[trigger] s[i].kind) is Head
}

/// The cell of the snake's head entity.
pub open spec fn head_pos(s: Seq<Entity>) -> GridPosition {
    s[head_index(s)].pos
}

/// Whether some body segment occupies the cell `p`.
pub open spec fn body_at(s: Seq<Entity>, p: GridPosition) -> bool {
    exists|i: int|
        0 <= i < s.len() && (#[trigger] s[i].kind) is Body && s[i].pos == p
}

/// Whether some snake cell lies in the blast neighborhood of `p`.
pub open spec fn snake_caught(s: Seq<Entity>, p: GridPosition) -> bool {
    exists|i: int| 0 <= i < s.len() && is_snake_piece(#[trigger] s[i]) && within_blast(s[i].pos, p)
}

/// The subsequence of `s` whose entities satisfy `keep`, in order.
pub open spec fn kept_entities(s: Seq<Entity>, keep: spec_fn(Entity) -> bool) -> Seq<Entity>
    decreases s.len(),
{
    if s.len() == 0 {
        Seq::empty()
    } else {
        let r = kept_entities(s.drop_last(), keep);
        if keep(s.last()) {
            r.push(s.last())
        } else {
            r
        }
    }
}

/// The sum of `g` over the entities of `s`.
pub open spec fn points_sum(s: Seq<Entity>, g: spec_fn(Entity) -> int) -> int
    decreases s.len(),
{
    if s.len() == 0 {
        0
    } else {
        points_sum(s.drop_last(), g) + g(s.last())
    }
}

/// Keeps entities that are not food on the cell `p`.
pub open spec fn not_food_at(p: GridPosition) -> spec_fn(Entity) -> bool {
    |e: Entity| !(e.kind is Food && e.pos == p)
}

/// Keeps entities that are not bombs on the cell `p`.
pub open spec fn not_bomb_at(p: GridPosition) -> spec_fn(Entity) -> bool {
    |e: Entity| !(e.kind is Bomb && e.pos == p)
}

/// The growth value an entity contributes when food on `p` is eaten.
pub open spec fn food_points_fn(p: GridPosition) -> spec_fn(Entity) -> int {
    |e: Entity|
        if e.kind is Food && e.pos == p {
            e.kind->food.value as int
        } else {
            0
        }
}

/// The growth value an entity contributes wherever it sits.
pub open spec fn any_food_points_fn() -> spec_fn(Entity) -> int {
    |e: Entity|
        if e.kind is Food {
            e.kind->food.value as int
        } else {
            0
        }
}

/// Whether this entity is a bomb whose fuse has run out.
pub open spec fn bomb_expired(e: Entity) -> bool {
    e.kind matches EntityKind::Bomb { bomb } && bomb.timer.elapsed >= bomb.timer.duration
}

/// Keeps entities that are not expired bombs.
pub open spec fn not_expired(
) -> spec_fn(Entity) -> bool {
    |e: Entity| !bomb_expired(e)
}

/// Keeps exactly the expired bombs.
pub open spec fn expired(
) -> spec_fn(Entity) -> bool {
    |e: Entity| bomb_expired(e)
}

/// Keeps exactly the walls.
pub open spec fn is_wall(
) -> spec_fn(Entity) -> bool {
    |e: Entity| e.kind is Wall
}

/// An entity's grid cell.
pub open spec fn pos_of(
) -> spec_fn(Entity) -> GridPosition {
    |e: Entity| e.pos
}

/// An entity with its bomb fuse advanced by `dt`; any other entity is
/// unchanged.
pub open spec fn fuse_advanced(dt: u64) -> spec_fn(Entity) -> Entity {
    |e: Entity|
        match e.kind {
            EntityKind::Bomb { bomb } => Entity {
                id: e.id,
                kind: EntityKind::Bomb { bomb: Bomb { timer: timer_advanced(bomb.timer, dt) } },
                pos: e.pos,
            },
            _ => e,
        }
}

/// The entities left after food on the cell `p` is eaten.
pub open spec fn without_food_at(s: Seq<Entity>, p: GridPosition) -> Seq<Entity> {
    kept_entities(s, not_food_at(p))
}

/// The total growth value of the food on the cell `p`.
pub open spec fn food_points_at(s: Seq<Entity>, p: GridPosition) -> int {
    points_sum(s, food_points_fn(p))
}

/// The total growth value of all food on the board.
pub open spec fn total_food_points(s: Seq<Entity>) -> int {
    points_sum(s, any_food_points_fn())
}

/// The entities left after bombs on the cell `p` are defused.
pub open spec fn without_bombs_at(s: Seq<Entity>, p: GridPosition) -> Seq<Entity> {
    kept_entities(s, not_bomb_at(p))
}

/// All bomb fuses advanced by `dt`.
pub open spec fn fuses_advanced(s: Seq<Entity>, dt: u64) -> Seq<Entity> {
    s.map_values(fuse_advanced(dt))
}

/// The entities left after expired bombs are destroyed.
pub open spec fn without_expired_bombs(s: Seq<Entity>) -> Seq<Entity> {
    kept_entities(s, not_expired())
}

/// The cells of the expired bombs, in registry order.
pub open spec fn expired_bomb_positions(s: Seq<Entity>) -> Seq<GridPosition> {
    kept_entities(s, expired()).map_values(pos_of())
}

/// The entities left when a session leaves gameplay: only the walls.
pub open spec fn walls_only(s: Seq<Entity>) -> Seq<Entity> {
    kept_entities(s, is_wall())
}

/// Every kept entity occurs in the unfiltered sequence.
pub proof fn lemma_kept_entities_membership(s: Seq<Entity>, keep: spec_fn(Entity) -> bool)
    ensures
        forall|k: int|
            0 <= k < kept_entities(s, keep).len() ==> exists|j: int|
                0 <= j < s.len() && s[j] == #[trigger] kept_entities(s, keep)[k],
        kept_entities(s, keep).len() <= s.len(),
    decreases s.len(),
{
    if s.len() > 0 {
        lemma_kept_entities_membership(s.drop_last(), keep);
        let r = kept_entities(s.drop_last(), keep);
        assert forall|k: int| 0 <= k < kept_entities(s, keep).len() implies exists|j: int|
            0 <= j < s.len() && s[j] == #[trigger] kept_entities(s, keep)[k] by {
            if keep(s.last()) && k == kept_entities(s, keep).len() - 1 {
                assert(s[s.len() - 1] == kept_entities(s, keep)[k]);
            } else {
                let j = choose|j: int| 0 <= j < s.drop_last().len() && s.drop_last()[j] == r[k];
                assert(s[j] == kept_entities(s, keep)[k]);
            }
        }
    }
}

/// Filtering keeps handles distinct and below the cursor.
pub proof fn lemma_kept_entities_ids_ok(s: Seq<Entity>, keep: spec_fn(Entity) -> bool, next_id: u64)
    requires
        ids_ok(s, next_id),
    ensures
        ids_ok(kept_entities(s, keep), next_id),
    decreases s.len(),
{
    if s.len() > 0 {
        assert(ids_ok(s.drop_last(), next_id));
        lemma_kept_entities_ids_ok(s.drop_last(), keep, next_id);
        if keep(s.last()) {
            let r = kept_entities(s.drop_last(), keep);
            lemma_kept_entities_membership(s.drop_last(), keep);
            assert forall|k: int| 0 <= k < r.len() implies (#[trigger] r[k].id) != s.last().id by {
                let j = choose|j: int| 0 <= j < s.drop_last().len() && s.drop_last()[j] == r[k];
                assert(s[j].id != s[s.len() - 1].id);
            }
        }
    }
}

/// A nonnegative summand yields a sum no less than over any prefix.
pub proof fn lemma_points_sum_take(s: Seq<Entity>, g: spec_fn(Entity) -> int, n: int)
    requires
        forall|e: Entity| (#[trigger] g(e)) >= 0,
        0 <= n <= s.len(),
    ensures
        0 <= points_sum(s.take(n), g) <= points_sum(s, g),
    decreases s.len() - n,
{
    if n == s.len() {
        assert(s.take(n) =~= s);
        lemma_points_sum_nonneg(s, g);
    } else {
        lemma_points_sum_take(s, g, n + 1);
        lemma_points_sum_nonneg(s.take(n), g);
        assert(s.take(n + 1).drop_last() =~= s.take(n));
        assert(points_sum(s.take(n + 1), g) == points_sum(s.take(n), g) + g(s[n]));
    }
}

/// A nonnegative summand yields a nonnegative sum.
pub proof fn lemma_points_sum_nonneg(s: Seq<Entity>, g: spec_fn(Entity) -> int)
    requires
        forall|e: Entity| (#[trigger] g(e)) >= 0,
    ensures
        points_sum(s, g) >= 0,
    decreases s.len(),
{
    if s.len() > 0 {
        lemma_points_sum_nonneg(s.drop_last(), g);
    }
}

/// A pointwise bound between summands carries over to the sums.
pub proof fn lemma_points_sum_le(s: Seq<Entity>, g1: spec_fn(Entity) -> int, g2: spec_fn(
    Entity,
) -> int)
    requires
        forall|e: Entity| (#[trigger] g1(e)) <= g2(e),
    ensures
        points_sum(s, g1) <= points_sum(s, g2),
    decreases s.len(),
{
    if s.len() > 0 {
        lemma_points_sum_le(s.drop_last(), g1, g2);
    }
}

/// A summand that vanishes on every element yields a zero sum.
pub proof fn lemma_points_sum_zero(s: Seq<Entity>, g: spec_fn(Entity) -> int)
    requires
        forall|i: int| 0 <= i < s.len() ==> g(#[trigger] s[i]) == 0,
    ensures
        points_sum(s, g) == 0,
    decreases s.len(),
{
    if s.len() > 0 {
        assert(forall|i: int| 0 <= i < s.drop_last().len() ==> g(#[trigger] s.drop_last()[i]) == 0);
        lemma_points_sum_zero(s.drop_last(), g);
    }
}

/// Filtering cannot increase a sum with a nonnegative summand.
pub proof fn lemma_points_sum_kept_le(
    s: Seq<Entity>,
    keep: spec_fn(Entity) -> bool,
    g: spec_fn(Entity) -> int,
)
    requires
        forall|e: Entity| (#[trigger] g(e)) >= 0,
    ensures
        points_sum(kept_entities(s, keep), g) <= points_sum(s, g),
    decreases s.len(),
{
    if s.len() > 0 {
        lemma_points_sum_kept_le(s.drop_last(), keep, g);
        if keep(s.last()) {
            let r = kept_entities(s.drop_last(), keep);
            assert(r.push(s.last()).drop_last() =~= r);
        }
    }
}

/// Eating the food on a cell moves exactly its value out of the board
/// total.
pub proof fn lemma_food_conservation(s: Seq<Entity>, p: GridPosition)
    ensures
        total_food_points(without_food_at(s, p)) == total_food_points(s) - food_points_at(s, p),
    decreases s.len(),
{
    if s.len() > 0 {
        lemma_food_conservation(s.drop_last(), p);
        if not_food_at(p)(s.last()) {
            let r = kept_entities(s.drop_last(), not_food_at(p));
            assert(r.push(s.last()).drop_last() =~= r);
        }
    }
}

/// Every element that the predicate keeps occurs in the filtered
/// sequence.
pub proof fn lemma_kept_entities_keeps(s: Seq<Entity>, keep: spec_fn(Entity) -> bool)
    ensures
        forall|j: int|
            0 <= j < s.len() && keep(#[trigger] s[j]) ==> exists|k: int|
                0 <= k < kept_entities(s, keep).len() && kept_entities(s, keep)[k] == s[j],
    decreases s.len(),
{
    if s.len() > 0 {
        lemma_kept_entities_keeps(s.drop_last(), keep);
        let r = kept_entities(s.drop_last(), keep);
        let out = kept_entities(s, keep);
        assert forall|j: int| 0 <= j < s.len() && keep(#[trigger] s[j]) implies exists|k: int|
            0 <= k < out.len() && out[k] == s[j] by {
            if j == s.len() - 1 {
                assert(out[out.len() - 1] == s[j]);
            } else {
                assert(s.drop_last()[j] == s[j]);
                let k = choose|k: int| 0 <= k < r.len() && r[k] == s.drop_last()[j];
                assert(out[k] == s[j]);
            }
        }
    }
}

/// A filter that keeps every head entity preserves the head: it stays
/// present, unique, and on its cell.
pub proof fn lemma_kept_preserves_head(s: Seq<Entity>, keep: spec_fn(Entity) -> bool, next_id: u64)
    requires
        ids_ok(s, next_id),
        has_head(s),
        unique_head(s),
        forall|e: Entity| (#[trigger] e.kind) is Head ==> keep(e),
    ensures
        has_head(kept_entities(s, keep)),
        unique_head(kept_entities(s, keep)),
        head_pos(kept_entities(s, keep)) == head_pos(s),
{
    let out = kept_entities(s, keep);
    lemma_kept_entities_keeps(s, keep);
    lemma_kept_entities_membership(s, keep);
    lemma_kept_entities_ids_ok(s, keep, next_id);
    let hi = head_index(s);
    assert(0 <= hi < s.len() && s[hi].kind is Head);
    let k0 = choose|k: int| 0 <= k < out.len() && out[k] == s[hi];
    assert(out[k0].kind is Head);
    assert(has_head(out));
    assert forall|k1: int, k2: int|
        #![trigger out[k1].kind, out[k2].kind]
        0 <= k1 < out.len() && 0 <= k2 < out.len() && out[k1].kind is Head && out[k2].kind
            is Head implies k1 == k2 by {
        let j1 = choose|j: int| 0 <= j < s.len() && s[j] == out[k1];
        let j2 = choose|j: int| 0 <= j < s.len() && s[j] == out[k2];
        assert(j1 == j2);
        if k1 < k2 {
            assert(out[k1].id != out[k2].id);
        }
        if k2 < k1 {
            assert(out[k1].id != out[k2].id);
        }
    }
    let ko = head_index(out);
    assert(0 <= ko < out.len() && out[ko].kind is Head);
    let jo = choose|j: int| 0 <= j < s.len() && s[j] == out[ko];
    assert(s[jo].kind is Head);
    assert(jo == hi);
}

/// A filter that keeps every body entity preserves the liveness of a
/// body handle.
pub proof fn lemma_kept_preserves_body_handle(
    s: Seq<Entity>,
    keep: spec_fn(Entity) -> bool,
    id: u64,
)
    requires
        body_handle_ok(s, id),
        forall|e: Entity| (#[trigger] e.kind) is Body ==> keep(e),
    ensures
        body_handle_ok(kept_entities(s, keep), id),
{
    lemma_kept_entities_keeps(s, keep);
    let i = choose|i: int| 0 <= i < s.len() && (#[trigger] s[i].id) == id && s[i].kind is Body;
    let out = kept_entities(s, keep);
    let k = choose|k: int| 0 <= k < out.len() && out[k] == s[i];
    assert(out[k].id == id && out[k].kind is Body);
}

/// A sum is unchanged by a pointwise map that the summand cannot see.
pub proof fn lemma_points_sum_map(s: Seq<Entity>, f: spec_fn(Entity) -> Entity, g: spec_fn(
    Entity,
) -> int)
    requires
        forall|e: Entity| g(#[trigger] f(e)) == g(e),
    ensures
        points_sum(s.map_values(f), g) == points_sum(s, g),
    decreases s.len(),
{
    if s.len() > 0 {
        lemma_points_sum_map(s.drop_last(), f, g);
        assert(s.map_values(f).drop_last() =~= s.drop_last().map_values(f));
        assert(s.map_values(f).last() == f(s.last()));
    }
}

/// Sums agree on sequences whose elements the summand cannot tell
/// apart.
pub proof fn lemma_points_sum_pointwise(s1: Seq<Entity>, s2: Seq<Entity>, g: spec_fn(
    Entity,
) -> int)
    requires
        s1.len() == s2.len(),
        forall|j: int| 0 <= j < s1.len() ==> g(#[trigger] s2[j]) == g(#[trigger] s1[j]),
    ensures
        points_sum(s2, g) == points_sum(s1, g),
    decreases s1.len(),
{
    if s1.len() > 0 {
        assert(forall|j: int|
            0 <= j < s1.drop_last().len() ==> g(#[trigger] s2.drop_last()[j]) == g(
                #[trigger] s1.drop_last()[j],
            ));
        lemma_points_sum_pointwise(s1.drop_last(), s2.drop_last(), g);
        assert(g(s2.last()) == g(s1.last()));
    }
}

/// Whether an entity with handle `id` is live and is a body segment.
pub open spec fn body_handle_ok(s: Seq<Entity>, id: u64) -> bool {
    exists|i: int| 0 <= i < s.len() && (#[trigger] s[i].id) == id && s[i].kind is Body
}

/// Filtering preserves registry well-formedness.
pub proof fn lemma_kept_entities_wf(s: Seq<Entity>, keep: spec_fn(Entity) -> bool, next_id: u64)
    requires
        ids_ok(s, next_id),
        bombs_ok(s),
    ensures
        ids_ok(kept_entities(s, keep), next_id),
        bombs_ok(kept_entities(s, keep)),
{
    lemma_kept_entities_ids_ok(s, keep, next_id);
    lemma_kept_entities_membership(s, keep);
    let r = kept_entities(s, keep);
    assert forall|k: int|
        0 <= k < r.len() && (#[trigger] r[k].kind) is Bomb implies timer_wf(
        r[k].kind->bomb.timer,
    ) by {
        let j = choose|j: int| 0 <= j < s.len() && s[j] == r[k];
        assert(s[j].kind is Bomb);
    }
}

/// The handle-based store of all live entities.
pub struct Registry {
    pub entities: Vec<Entity>,
    pub next_id: u64,
}

impl Registry {
    /// Handles are distinct, below the allocation cursor, and bomb
    /// fuses well-formed.
    pub open spec fn wf(&self) -> bool {
        ids_ok(self.entities@, self.next_id) && bombs_ok(self.entities@)
    }

    /// An empty registry.
    pub fn new() -> (r: Registry)
        ensures
            r.entities@ == Seq::<Entity>::empty(),
            r.next_id == 0,
            r.wf(),
    {
        let r = Registry { entities: Vec::new(), next_id: 0 };
        assert(r.entities@ =~= Seq::<Entity>::empty());
        r
    }

    /// Number of live entities.
    pub fn len(&self) -> (n: usize)
        ensures
            n == self.entities@.len(),
    {
        self.entities.len()
    }

    /// The entity at index `i`, for render snapshots and tests.
    pub fn get(&self, i: usize) -> (e: Entity)
        requires
            i < self.entities@.len(),
        ensures
            e == self.entities@[i as int],
    {
        self.entities[i]
    }

    /// Adds an entity of the given kind at `pos` and returns its fresh
    /// handle.
    pub fn spawn(&mut self, kind: EntityKind, pos: GridPosition) -> (id: u64)
        requires
            old(self).wf(),
            old(self).next_id < u64::MAX,
            kind matches EntityKind::Bomb { bomb } ==> timer_wf(bomb.timer),
        ensures
            final(self).wf(),
            id == old(self).next_id,
            final(self).next_id == old(self).next_id + 1,
            final(self).entities@ == old(self).entities@.push(
                Entity { id: old(self).next_id, kind, pos },
            ),
    {
        let id = self.next_id;
        self.entities.push(Entity { id, kind, pos });
        self.next_id = self.next_id + 1;
        id
    }

    /// Whether any entity occupies the cell `p`.
    pub fn occupied(&self, p: GridPosition) -> (r: bool)
        ensures
            r == occupied_at(self.entities@, p),
    {
        let n = self.entities.len();
        for i in 0..n
            invariant
                n == self.entities@.len(),
                forall|j: int| 0 <= j < i ==> (#[trigger] self.entities@[j].pos) != p,
        {
            if self.entities[i].pos == p {
                return true;
            }
        }
        false
    }

    /// The index of the live entity with handle `id`, if any.
    pub fn index_of(&self, id: u64) -> (r: Option<usize>)
        ensures
            match r {
                Some(i) => i < self.entities@.len() && self.entities@[i as int].id == id,
                None => !has_id(self.entities@, id),
            },
    {
        let n = self.entities.len();
        for i in 0..n
            invariant
                n == self.entities@.len(),
                forall|j: int| 0 <= j < i ==> (#[trigger] self.entities@[j].id) != id,
        {
            if self.entities[i].id == id {
                return Some(i);
            }
        }
        None
    }

    /// Moves the entity with handle `id` to the cell `p`.
    pub fn set_position_of(&mut self, id: u64, p: GridPosition)
        requires
            old(self).wf(),
            has_id(old(self).entities@, id),
        ensures
            final(self).wf(),
            final(self).next_id == old(self).next_id,
            final(self).entities@.len() == old(self).entities@.len(),
            forall|j: int|
                0 <= j < old(self).entities@.len() ==> #[trigger] final(self).entities@[j] == (
                if old(self).entities@[j].id == id {
                    Entity { id, kind: old(self).entities@[j].kind, pos: p }
                } else {
                    old(self).entities@[j]
                }),
    {
        let n = self.entities.len();
        let ghost s = self.entities@;
        for i in 0..n
            invariant
                n == s.len(),
                self.next_id == old(self).next_id,
                self.entities@.len() == s.len(),
                s == old(self).entities@,
                ids_ok(s, self.next_id),
                forall|j: int|
                    0 <= j < s.len() ==> #[trigger] self.entities@[j] == (
                    if s[j].id == id && j < i {
                        Entity { id, kind: s[j].kind, pos: p }
                    } else {
                        s[j]
                    }),
        {
            if self.entities[i].id == id {
                let kind = self.entities[i].kind;
                self.entities.set(i, Entity { id, kind, pos: p });
            }
        }
        assert forall|j: int|
            0 <= j < old(self).entities@.len() implies #[trigger] self.entities@[j] == (
        if old(self).entities@[j].id == id {
            Entity { id, kind: old(self).entities@[j].kind, pos: p }
        } else {
            old(self).entities@[j]
        }) by {}
        assert(ids_ok(self.entities@, self.next_id)) by {
            assert forall|j: int| 0 <= j < self.entities@.len() implies (
            #[trigger] self.entities@[j].id) == old(self).entities@[j].id by {}
        }
        assert(bombs_ok(self.entities@)) by {
            assert forall|j: int|
                0 <= j < self.entities@.len() && (#[trigger] self.entities@[j].kind)
                    is Bomb implies timer_wf(self.entities@[j].kind->bomb.timer) by {
                assert(self.entities@[j].kind == old(self).entities@[j].kind);
            }
        }
    }

    /// The cell of the snake's head entity.
    pub fn head_position(&self) -> (p: GridPosition)
        requires
            has_head(self.entities@),
            unique_head(self.entities@),
        ensures
            p == head_pos(self.entities@),
    {
        let n = self.entities.len();
        for i in 0..n
            invariant
                n == self.entities@.len(),
                has_head(self.entities@),
                unique_head(self.entities@),
                forall|j: int| 0 <= j < i ==> !((#[trigger] self.entities@[j].kind) is Head),
        {
            let e = self.entities[i];
            let is_head: bool = match e.kind {
                EntityKind::Head => true,
                _ => false,
            };
            if is_head {
                proof {
                    let hi = head_index(self.entities@);
                    assert(0 <= hi < self.entities@.len() && self.entities@[hi].kind is Head);
                    assert(hi == i as int);
                }
                return e.pos;
            }
        }
        proof {
            let hi = head_index(self.entities@);
            assert(0 <= hi < self.entities@.len() && self.entities@[hi].kind is Head);
            assert(false);
        }
        GridPosition { x: 0, y: 0 }
    }

    /// Moves the head entity to the cell `p`.
    pub fn set_head_position(&mut self, p: GridPosition)
        requires
            old(self).wf(),
        ensures
            final(self).wf(),
            final(self).next_id == old(self).next_id,
            final(self).entities@.len() == old(self).entities@.len(),
            forall|j: int|
                0 <= j < old(self).entities@.len() ==> #[trigger] final(self).entities@[j] == (
                if old(self).entities@[j].kind is Head {
                    Entity {
                        id: old(self).entities@[j].id,
                        kind: old(self).entities@[j].kind,
                        pos: p,
                    }
                } else {
                    old(self).entities@[j]
                }),
    {
        let n = self.entities.len();
        let ghost s = self.entities@;
        for i in 0..n
            invariant
                n == s.len(),
                self.next_id == old(self).next_id,
                self.entities@.len() == s.len(),
                s == old(self).entities@,
                forall|j: int|
                    0 <= j < s.len() ==> #[trigger] self.entities@[j] == (
                    if s[j].kind is Head && j < i {
                        Entity { id: s[j].id, kind: s[j].kind, pos: p }
                    } else {
                        s[j]
                    }),
        {
            let e = self.entities[i];
            let is_head: bool = match e.kind {
                EntityKind::Head => true,
                _ => false,
            };
            if is_head {
                self.entities.set(i, Entity { id: e.id, kind: e.kind, pos: p });
            }
        }
        assert(ids_ok(self.entities@, self.next_id)) by {
            assert forall|j: int| 0 <= j < self.entities@.len() implies (
            #[trigger] self.entities@[j].id) == old(self).entities@[j].id by {}
        }
        assert(bombs_ok(self.entities@)) by {
            assert forall|j: int|
                0 <= j < self.entities@.len() && (#[trigger] self.entities@[j].kind)
                    is Bomb implies timer_wf(self.entities@[j].kind->bomb.timer) by {
                assert(self.entities@[j].kind == old(self).entities@[j].kind);
            }
        }
    }

    /// Whether some body segment occupies the cell `p`.
    pub fn body_at_cell(&self, p: GridPosition) -> (r: bool)
        ensures
            r == body_at(self.entities@, p),
    {
        let n = self.entities.len();
        for i in 0..n
            invariant
                n == self.entities@.len(),
                forall|j: int|
                    0 <= j < i ==> !((#[trigger] self.entities@[j].kind) is Body
                        && self.entities@[j].pos == p),
        {
            let e = self.entities[i];
            let is_body: bool = match e.kind {
                EntityKind::Body => true,
                _ => false,
            };
            if is_body && e.pos == p {
                return true;
            }
        }
        false
    }

    /// The total growth value of all food on the board.
    pub fn total_food_value(&self) -> (total: u32)
        requires
            total_food_points(self.entities@) <= u32::MAX,
        ensures
            total == total_food_points(self.entities@),
    {
        let ghost s = self.entities@;
        let n = self.entities.len();
        let mut total: u32 = 0;
        for i in 0..n
            invariant
                n == s.len(),
                self.entities@ == s,
                total_food_points(s) <= u32::MAX,
                total == points_sum(s.take(i as int), any_food_points_fn()),
        {
            let e = self.entities[i];
            proof {
                assert forall|x: Entity| (#[trigger] any_food_points_fn()(x)) >= 0 by {}
                assert(s.take(i as int + 1).drop_last() =~= s.take(i as int));
                assert(s.take(i as int + 1).last() == s[i as int]);
                lemma_points_sum_take(s, any_food_points_fn(), i as int + 1);
            }
            match e.kind {
                EntityKind::Food { food } => {
                    total = total + food.value;
                },
                _ => {},
            }
        }
        proof {
            assert(s.take(n as int) =~= s);
        }
        total
    }

    /// Eats all food on the cell `p`: those entities are destroyed and
    /// the sum of their values is returned.
    pub fn consume_food_at(&mut self, p: GridPosition) -> (points: u32)
        requires
            old(self).wf(),
            food_points_at(old(self).entities@, p) <= u32::MAX,
        ensures
            final(self).wf(),
            final(self).next_id == old(self).next_id,
            final(self).entities@ == without_food_at(old(self).entities@, p),
            points == food_points_at(old(self).entities@, p),
    {
        let ghost s = self.entities@;
        let n = self.entities.len();
        let mut out: Vec<Entity> = Vec::new();
        let mut points: u32 = 0;
        assert(out@ =~= kept_entities(s.take(0), not_food_at(p)));
        for i in 0..n
            invariant
                n == s.len(),
                self.entities@ == s,
                self.next_id == old(self).next_id,
                food_points_at(s, p) <= u32::MAX,
                out@ == kept_entities(s.take(i as int), not_food_at(p)),
                points == points_sum(s.take(i as int), food_points_fn(p)),
        {
            let e = self.entities[i];
            proof {
                assert forall|x: Entity| (#[trigger] food_points_fn(p)(x)) >= 0 by {}
                assert(s.take(i as int + 1).drop_last() =~= s.take(i as int));
                assert(s.take(i as int + 1).last() == s[i as int]);
                lemma_points_sum_take(s, food_points_fn(p), i as int + 1);
            }
            match e.kind {
                EntityKind::Food { food } => {
                    if e.pos == p {
                        points = points + food.value;
                    } else {
                        out.push(e);
                    }
                },
                _ => {
                    out.push(e);
                },
            }
        }
        proof {
            assert(s.take(n as int) =~= s);
            lemma_kept_entities_wf(s, not_food_at(p), self.next_id);
        }
        self.entities = out;
        points
    }

    /// Defuses all bombs on the cell `p`: those entities are destroyed
    /// with no explosion and no damage.
    pub fn despawn_bombs_at(&mut self, p: GridPosition)
        requires
            old(self).wf(),
        ensures
            final(self).wf(),
            final(self).next_id == old(self).next_id,
            final(self).entities@ == without_bombs_at(old(self).entities@, p),
    {
        let ghost s = self.entities@;
        let n = self.entities.len();
        let mut out: Vec<Entity> = Vec::new();
        assert(out@ =~= kept_entities(s.take(0), not_bomb_at(p)));
        for i in 0..n
            invariant
                n == s.len(),
                self.entities@ == s,
                self.next_id == old(self).next_id,
                out@ == kept_entities(s.take(i as int), not_bomb_at(p)),
        {
            let e = self.entities[i];
            proof {
                assert(s.take(i as int + 1).drop_last() =~= s.take(i as int));
                assert(s.take(i as int + 1).last() == s[i as int]);
            }
            let keep: bool = match e.kind {
                EntityKind::Bomb { bomb: _ } => !(e.pos == p),
                _ => true,
            };
            if keep {
                out.push(e);
            }
        }
        proof {
            assert(s.take(n as int) =~= s);
            lemma_kept_entities_wf(s, not_bomb_at(p), self.next_id);
        }
        self.entities = out;
    }

    /// Advances every bomb's fuse by `dt` milliseconds.
    pub fn advance_fuses(&mut self, dt: u64)
        requires
            old(self).wf(),
        ensures
            final(self).wf(),
            final(self).next_id == old(self).next_id,
            final(self).entities@ == fuses_advanced(old(self).entities@, dt),
    {
        let ghost s = self.entities@;
        let n = self.entities.len();
        let mut out: Vec<Entity> = Vec::new();
        assert(out@ =~= s.take(0).map_values(fuse_advanced(dt)));
        for i in 0..n
            invariant
                n == s.len(),
                self.entities@ == s,
                self.next_id == old(self).next_id,
                bombs_ok(s),
                out@ == s.take(i as int).map_values(fuse_advanced(dt)),
        {
            let e = self.entities[i];
            match e.kind {
                EntityKind::Bomb { bomb } => {
                    let mut t = bomb.timer;
                    proof {
                        assert(s[i as int].kind is Bomb);
                    }
                    t.advance(dt);
                    out.push(
                        Entity { id: e.id, kind: EntityKind::Bomb { bomb: Bomb { timer: t } }, pos: e.pos },
                    );
                },
                _ => {
                    out.push(e);
                },
            }
            proof {
                assert(out@.last() == fuse_advanced(dt)(s[i as int]));
                assert(out@ =~= s.take(i as int + 1).map_values(fuse_advanced(dt)));
            }
        }
        proof {
            assert(s.take(n as int) =~= s);
            let t = s.map_values(fuse_advanced(dt));
            assert forall|j: int| 0 <= j < t.len() implies (#[trigger] t[j]).id == s[j].id by {}
            assert forall|i: int, j: int|
                #![trigger t[i].id, t[j].id]
                0 <= i < j < t.len() implies t[i].id != t[j].id by {
                assert(s[i].id != s[j].id);
            }
            assert forall|j: int| 0 <= j < t.len() implies (#[trigger] t[j].id) < self.next_id by {
                assert(s[j].id < self.next_id);
            }
            assert forall|j: int|
                0 <= j < t.len() && (#[trigger] t[j].kind) is Bomb implies timer_wf(
                t[j].kind->bomb.timer,
            ) by {
                if s[j].kind is Bomb {
                    assert(timer_wf(s[j].kind->bomb.timer));
                } else {
                    assert(t[j] == s[j]);
                }
            }
        }
        self.entities = out;
    }

    /// Destroys every bomb whose fuse has run out and returns their
    /// cells, in registry order.
    pub fn remove_expired_bombs(&mut self) -> (exploded: Vec<GridPosition>)
        requires
            old(self).wf(),
        ensures
            final(self).wf(),
            final(self).next_id == old(self).next_id,
            final(self).entities@ == without_expired_bombs(old(self).entities@),
            exploded@ == expired_bomb_positions(old(self).entities@),
    {
        let ghost s = self.entities@;
        let n = self.entities.len();
        let mut out: Vec<Entity> = Vec::new();
        let mut exploded: Vec<GridPosition> = Vec::new();
        assert(out@ =~= kept_entities(s.take(0), not_expired()));
        assert(exploded@ =~= kept_entities(s.take(0), expired()).map_values(pos_of()));
        for i in 0..n
            invariant
                n == s.len(),
                self.entities@ == s,
                self.next_id == old(self).next_id,
                out@ == kept_entities(s.take(i as int), not_expired()),
                exploded@ == kept_entities(s.take(i as int), expired()).map_values(pos_of()),
        {
            let e = self.entities[i];
            proof {
                assert(s.take(i as int + 1).drop_last() =~= s.take(i as int));
                assert(s.take(i as int + 1).last() == s[i as int]);
            }
            let is_expired: bool = match e.kind {
                EntityKind::Bomb { bomb } => bomb.timer.finished(),
                _ => false,
            };
            if is_expired {
                exploded.push(e.pos);
                proof {
                    assert(kept_entities(s.take(i as int + 1), expired())
                        == kept_entities(s.take(i as int), expired()).push(s[i as int]));
                    assert(exploded@ =~= kept_entities(s.take(i as int + 1), expired()).map_values(
                        pos_of(),
                    ));
                }
            } else {
                out.push(e);
                proof {
                    assert(exploded@ =~= kept_entities(s.take(i as int + 1), expired()).map_values(
                        pos_of(),
                    ));
                }
            }
        }
        proof {
            assert(s.take(n as int) =~= s);
            lemma_kept_entities_wf(s, not_expired(), self.next_id);
        }
        self.entities = out;
        exploded
    }

    /// Whether any snake cell lies in the blast neighborhood of `p`.
    /// Scanning stops at the first caught piece.
    pub fn snake_caught_by(&self, p: GridPosition) -> (r: bool)
        ensures
            r == snake_caught(self.entities@, p),
    {
        let n = self.entities.len();
        for i in 0..n
            invariant
                n == self.entities@.len(),
                forall|j: int|
                    0 <= j < i ==> !(is_snake_piece(#[trigger] self.entities@[j]) && within_blast(
                        self.entities@[j].pos,
                        p,
                    )),
        {
            let e = self.entities[i];
            let piece: bool = match e.kind {
                EntityKind::Head => true,
                EntityKind::Body => true,
                _ => false,
            };
            if piece && e.pos.within_blast_of(&p) {
                return true;
            }
        }
        false
    }

    /// Destroys everything but the walls, which persist until the
    /// session leaves the game-over state.
    pub fn clear_except_walls(&mut self)
        requires
            old(self).wf(),
        ensures
            final(self).wf(),
            final(self).next_id == old(self).next_id,
            final(self).entities@ == walls_only(old(self).entities@),
    {
        let ghost s = self.entities@;
        let n = self.entities.len();
        let mut out: Vec<Entity> = Vec::new();
        assert(out@ =~= kept_entities(s.take(0), is_wall()));
        for i in 0..n
            invariant
                n == s.len(),
                self.entities@ == s,
                self.next_id == old(self).next_id,
                out@ == kept_entities(s.take(i as int), is_wall()),
        {
            let e = self.entities[i];
            proof {
                assert(s.take(i as int + 1).drop_last() =~= s.take(i as int));
                assert(s.take(i as int + 1).last() == s[i as int]);
            }
            let keep: bool = match e.kind {
                EntityKind::Wall => true,
                _ => false,
            };
            if keep {
                out.push(e);
            }
        }
        proof {
            assert(s.take(n as int) =~= s);
            lemma_kept_entities_wf(s, is_wall(), self.next_id);
        }
        self.entities = out;
    }

    /// Destroys every entity.
    pub fn clear(&mut self)
        requires
            old(self).wf(),
        ensures
            final(self).wf(),
            final(self).next_id == old(self).next_id,
            final(self).entities@ == Seq::<Entity>::empty(),
    {
        let out: Vec<Entity> = Vec::new();
        assert(out@ =~= Seq::<Entity>::empty());
        self.entities = out;
    }
}

} // verus!
