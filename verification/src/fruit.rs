//! Pickups: fruits spawned at random grid cells inside the playfield. A
//! hundred fruits seed the board; every eaten fruit is replaced by a fresh
//! one the following step.

use vstd::prelude::*;

use crate::arena::{Collider, EntityData, EntityId, EntityKind};
use crate::snek::Game;
use crate::vec3::Vec3i;
use crate::{SCREEN_HEIGHT, SCREEN_WIDTH, STEP_SIZE};

verus! {

/// How many fruits seed the board at startup.
pub const INITIAL_FRUIT_COUNT: usize = 100;

/// Relies on rand::random_range over a half-open integer range: the result
/// is drawn from the thread-local generator and lies within the range. It
/// panics only on an empty range, which the precondition rules out.
#[verifier::external_body]
pub(crate) fn rand_range(lo: i64, hi: i64) -> (r: i64)
    requires
        lo < hi,
    ensures
        lo <= r < hi,
{
    rand::random_range(lo..hi)
}

/// The position sits at the centre of a grid cell inside the playfield,
/// on the board plane.
pub open spec fn fruit_cell(p: Vec3i) -> bool {
    &&& (p.x - STEP_SIZE / 2) % (STEP_SIZE as int) == 0
    &&& -(SCREEN_WIDTH / 2) < p.x < SCREEN_WIDTH / 2
    &&& (p.y - STEP_SIZE / 2) % (STEP_SIZE as int) == 0
    &&& -(SCREEN_HEIGHT / 2) < p.y < SCREEN_HEIGHT / 2
    &&& p.z == 0
}

/// What a freshly spawned fruit looks like: a motionless pickup with a
/// grid-cell collider, somewhere on the board.
pub open spec fn fruit_shaped(d: EntityData) -> bool {
    &&& d.kind == EntityKind::Fruit
    &&& d.vel is None
    &&& d.collider is Some
    &&& d.collider->0.radius == STEP_SIZE / 2
    &&& fruit_cell(d.pos)
}

/// Roll one fruit: a random grid cell inside the playfield.
fn fruit_sprite() -> (d: EntityData)
    ensures
        fruit_shaped(d),
{
    let cx = rand_range(-(SCREEN_WIDTH / STEP_SIZE / 2), SCREEN_WIDTH / STEP_SIZE / 2);
    let cy = rand_range(-(SCREEN_HEIGHT / STEP_SIZE / 2), SCREEN_HEIGHT / STEP_SIZE / 2);
    proof {
        assert(-400 < cx * STEP_SIZE + STEP_SIZE / 2 < 400 && -400 < cy * STEP_SIZE + STEP_SIZE
            / 2 < 400) by (nonlinear_arith)
            requires -20 <= cx <= 19 && -15 <= cy <= 14,
        ;
    }
    let p = Vec3i { x: cx * STEP_SIZE + STEP_SIZE / 2, y: cy * STEP_SIZE + STEP_SIZE / 2, z: 0 };
    proof {
        vstd::arithmetic::div_mod::lemma_mod_multiples_basic(cx as int, STEP_SIZE as int);
        vstd::arithmetic::div_mod::lemma_mod_multiples_basic(cy as int, STEP_SIZE as int);
    }
    EntityData {
        pos: p,
        vel: None,
        collider: Some(Collider::new(STEP_SIZE)),
        kind: EntityKind::Fruit,
    }
}

/// Spawn `count` fresh fruits at random grid cells; hands back their
/// handles, one per fruit, all distinct and all new. Every entity that was
/// already live is untouched.
#[verifier::loop_isolation(false)]
pub fn spawn_fruits(game: &mut Game, count: usize) -> (ids: Vec<EntityId>)
    requires
        old(game).wf(),
    ensures
        final(game).wf(),
        final(game).head == old(game).head,
        final(game).snek == old(game).snek,
        final(game).last_dir == old(game).last_dir,
        final(game).clock == old(game).clock,
        final(game).movement_events == old(game).movement_events,
        final(game).fruit_events == old(game).fruit_events,
        ids@.len() == count,
        forall|i: int, j: int| 0 <= i < j < count ==> ids@[i] != ids@[j],
        forall|i: int| 0 <= i < count ==> {
            &&& !old(game).arena.is_live(#[trigger] ids@[i])
            &&& final(game).arena.is_live(ids@[i])
            &&& fruit_shaped(final(game).arena.data_of(ids@[i]))
        },
        forall|id: EntityId| #[trigger] old(game).arena.is_live(id) ==> final(game).arena.is_live(id) && final(game).arena.data_of(id) == old(game).arena.data_of(id),
        forall|id: EntityId| #[trigger] final(game).arena.is_live(id) ==> old(game).arena.is_live(id) || ids@.contains(id),
{
    let ghost g0 = *old(game);
    let mut ids: Vec<EntityId> = Vec::new();
    let mut j: usize = 0;
    while j < count
        invariant
            0 <= j <= count,
            game.wf(),
            game.head == g0.head,
            game.snek == g0.snek,
            game.last_dir == g0.last_dir,
            game.clock == g0.clock,
            game.movement_events == g0.movement_events,
            game.fruit_events == g0.fruit_events,
            ids@.len() == j,
            forall|a: int, b: int| 0 <= a < b < j ==> ids@[a] != ids@[b],
            forall|i: int| 0 <= i < j ==> {
                &&& !g0.arena.is_live(#[trigger] ids@[i])
                &&& game.arena.is_live(ids@[i])
                &&& fruit_shaped(game.arena.data_of(ids@[i]))
            },
            forall|id: EntityId| #[trigger] g0.arena.is_live(id) ==> game.arena.is_live(id)
                && game.arena.data_of(id) == g0.arena.data_of(id),
            forall|id: EntityId| #[trigger] game.arena.is_live(id) ==> g0.arena.is_live(id)
                || ids@.contains(id),
        decreases count - j,
    {
        let ghost g_prev = *game;
        let d = fruit_sprite();
        let id = game.arena.spawn(d);
        let ghost ids_pre = ids@;
        ids.push(id);
        proof {
            assert forall|id3: EntityId| #[trigger] crate::collision::has_collider(
                game.arena,
                id3,
            ) implies 0 <= crate::collision::radius_of(game.arena, id3)
                <= crate::vec3::COORD_LIMIT by {
                if id3 != id {
                    assert(crate::collision::has_collider(g_prev.arena, id3));
                }
            }
            assert(ids@[ids@.len() - 1] == id);
            assert(ids@.contains(id));
            assert forall|a: int, b: int| 0 <= a < b < j + 1 implies ids@[a] != ids@[b] by {
                if b == j {
                    assert(game.arena.is_live(ids@[a]));
                    assert(!g_prev.arena.is_live(id));
                }
            }
            assert forall|i: int| 0 <= i < j + 1 implies !g0.arena.is_live(#[trigger] ids@[i])
                && game.arena.is_live(ids@[i]) && fruit_shaped(game.arena.data_of(ids@[i])) by {
                if i < j {
                    assert(g_prev.arena.is_live(ids@[i]));
                } else {
                    assert(ids@[i] == id);
                    if g0.arena.is_live(id) {
                        assert(g_prev.arena.is_live(id));
                    }
                }
            }
            assert forall|id2: EntityId| #[trigger] game.arena.is_live(id2) implies
                g0.arena.is_live(id2) || ids@.contains(id2) by {
                if id2 != id {
                    assert(g_prev.arena.is_live(id2));
                    if !g0.arena.is_live(id2) {
                        let t = choose|t: int| 0 <= t < j && ids_pre[t] == id2;
                        assert(ids@[t] == id2);
                    }
                }
            }
        }
        j = j + 1;
    }
    ids
}

/// Seed the board: a hundred fruits at random grid cells, spawned once at
/// startup.
pub fn spawn_fruit_setup(game: &mut Game) -> (ids: Vec<EntityId>)
    requires
        old(game).wf(),
    ensures
        final(game).wf(),
        ids@.len() == INITIAL_FRUIT_COUNT,
        forall|i: int| 0 <= i < ids@.len() ==> final(game).arena.is_live(#[trigger] ids@[i])
            && fruit_shaped(final(game).arena.data_of(ids@[i])),
        forall|id: EntityId| #[trigger] old(game).arena.is_live(id) ==> final(game).arena.is_live(id) && final(game).arena.data_of(id) == old(game).arena.data_of(id),
        final(game).head == old(game).head,
        final(game).snek == old(game).snek,
        final(game).last_dir == old(game).last_dir,
        final(game).clock == old(game).clock,
        final(game).movement_events == old(game).movement_events,
        final(game).fruit_events == old(game).fruit_events,
{
    spawn_fruits(game, INITIAL_FRUIT_COUNT)
}

/// Replacement spawning: one fresh fruit per readable pickup event, leaving
/// the events themselves for the growth rule to drain.
pub fn spawn_fruit(game: &mut Game) -> (ids: Vec<EntityId>)
    requires
        old(game).wf(),
        old(game).fruit_events.readable().len() <= usize::MAX,
    ensures
        final(game).wf(),
        ids@.len() == old(game).fruit_events.readable().len(),
        forall|i: int| 0 <= i < ids@.len() ==> final(game).arena.is_live(#[trigger] ids@[i])
            && fruit_shaped(final(game).arena.data_of(ids@[i])),
        forall|id: EntityId| #[trigger] old(game).arena.is_live(id) ==> final(game).arena.is_live(id) && final(game).arena.data_of(id) == old(game).arena.data_of(id),
        forall|id: EntityId| #[trigger] final(game).arena.is_live(id) ==> old(game).arena.is_live(id) || ids@.contains(id),
        final(game).head == old(game).head,
        final(game).snek == old(game).snek,
        final(game).last_dir == old(game).last_dir,
        final(game).clock == old(game).clock,
        final(game).movement_events == old(game).movement_events,
        final(game).fruit_events == old(game).fruit_events,
{
    let n = game.fruit_events.len();
    spawn_fruits(game, n)
}

} // verus!
