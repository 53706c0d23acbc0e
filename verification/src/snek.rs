//! The chain game itself: a single head entity pulling an ordered chain of
//! segments across a fixed grid. Holds the game state, the input rule (a
//! direction and its opposite are never accepted consecutively), the
//! velocity-relay chain propagator, growth on pickup, and the terminal
//! rules that freeze the clock.

use vstd::prelude::*;

use crate::arena::{Arena, Collider, EntityData, EntityId, EntityKind};
use crate::collision::FruitEatenEvent;
use crate::events::EventQueue;
use crate::fixed_timestep::{TickClock, FREEZE_NS, STARTING_DELAY_NS};
use crate::movement::{velocities_bounded, MovementEvent};
use crate::vec3::Vec3i;
use crate::{SCREEN_HEIGHT, SCREEN_WIDTH, STEP_SIZE, VEL_LIMIT};

verus! {

/// A facing direction on the grid; `Idle` before the first input.
#[derive(Copy, Clone, Debug, PartialEq, Eq, Structural, Default)]
pub enum Direction {
    #[default]
    Idle,
    Left,
    Right,
    Up,
    Down,
}

impl Direction {
    /// The reverse of this direction; `Idle` is its own reverse.
    pub open spec fn opposite(self) -> Direction {
        match self {
            Direction::Idle => Direction::Idle,
            Direction::Left => Direction::Right,
            Direction::Right => Direction::Left,
            Direction::Up => Direction::Down,
            Direction::Down => Direction::Up,
        }
    }

    /// The unit vector this direction points along.
    pub open spec fn val_spec(self) -> Vec3i {
        match self {
            Direction::Left => Vec3i { x: -1 as i64, y: 0, z: 0 },
            Direction::Right => Vec3i { x: 1, y: 0, z: 0 },
            Direction::Up => Vec3i { x: 0, y: 1, z: 0 },
            Direction::Down => Vec3i { x: 0, y: -1 as i64, z: 0 },
            Direction::Idle => Vec3i { x: 0, y: 0, z: 0 },
        }
    }

    /// The unit vector this direction points along.
    pub fn val(&self) -> (v: Vec3i)
        ensures
            v == self.val_spec(),
    {
        match self {
            Direction::Left => Vec3i { x: -1, y: 0, z: 0 },
            Direction::Right => Vec3i { x: 1, y: 0, z: 0 },
            Direction::Up => Vec3i { x: 0, y: 1, z: 0 },
            Direction::Down => Vec3i { x: 0, y: -1, z: 0 },
            Direction::Idle => Vec3i { x: 0, y: 0, z: 0 },
        }
    }
}

/// An abstract key the input collaborator reports as pressed.
#[derive(Copy, Clone, Debug, PartialEq, Eq, Structural)]
pub enum Key {
    W,
    A,
    S,
    D,
    J,
    K,
    E,
    Q,
    Space,
}

/// The head emitted a movement notification this step.
#[derive(Copy, Clone, Debug, PartialEq, Eq, Structural)]
pub struct SnekMovementEvent;

/// The chain head's own bookkeeping: its facing direction and the handles
/// of its body segments, in head-to-tail order.
pub struct SnekHead {
    pub dir: Direction,
    pub children: Vec<EntityId>,
}

/// The whole simulation state of the chain game.
pub struct Game {
    pub arena: Arena,
    pub head: EntityId,
    pub snek: SnekHead,
    pub last_dir: Direction,
    pub clock: TickClock,
    pub movement_events: EventQueue<MovementEvent>,
    pub fruit_events: EventQueue<FruitEatenEvent>,
}

impl Game {
    /// The segment handles, head-to-tail.
    pub open spec fn segs(self) -> Seq<EntityId> {
        self.snek.children@
    }

    /// The velocity of segment `i`.
    pub open spec fn seg_vel(self, i: int) -> Vec3i {
        self.arena.data_of(self.segs()[i]).vel->0
    }

    /// The position of segment `i`.
    pub open spec fn seg_pos(self, i: int) -> Vec3i {
        self.arena.data_of(self.segs()[i]).pos
    }

    /// The head's velocity.
    pub open spec fn head_vel(self) -> Vec3i {
        self.arena.data_of(self.head).vel->0
    }

    /// The head's position.
    pub open spec fn head_pos(self) -> Vec3i {
        self.arena.data_of(self.head).pos
    }

    /// Well-formedness: the head is live with a velocity; every segment
    /// handle is live, distinct, has a velocity and the segment role; no
    /// segment handle aliases the head; all velocities are bounded; the
    /// step duration never exceeds the freeze value.
    pub open spec fn wf(self) -> bool {
        &&& self.arena.is_live(self.head)
        &&& self.arena.data_of(self.head).kind == EntityKind::Head
        &&& self.arena.data_of(self.head).vel is Some
        &&& forall|i: int| 0 <= i < self.segs().len() ==> {
            &&& self.arena.is_live(#[trigger] self.segs()[i])
            &&& self.arena.data_of(self.segs()[i]).kind == EntityKind::Segment
            &&& self.arena.data_of(self.segs()[i]).vel is Some
        }
        &&& forall|i: int, j: int| 0 <= i < j < self.segs().len()
            ==> self.segs()[i] != self.segs()[j]
        &&& forall|i: int| 0 <= i < self.segs().len() ==> self.segs()[i] != self.head
        &&& velocities_bounded(self.arena, VEL_LIMIT as int)
        &&& crate::collision::radii_bounded(self.arena)
        &&& self.clock.step_ns <= FREEZE_NS
    }

    /// The player's score: head plus body length.
    pub fn score(&self) -> (s: usize)
        requires
            self.segs().len() < usize::MAX,
        ensures
            s == self.segs().len() + 1,
    {
        self.snek.children.len() + 1
    }
}

/// Spawn the head entity: one grid half-step into the first quadrant, at
/// rest, with a grid-cell collider.
pub fn spawn_snek(arena: &mut Arena) -> (id: EntityId)
    ensures
        final(arena).is_live(id),
        !old(arena).is_live(id),
        final(arena).data_of(id).kind == EntityKind::Head,
        final(arena).data_of(id).pos == (Vec3i { x: (STEP_SIZE / 2) as i64, y: (STEP_SIZE / 2) as i64, z: 1 }),
        final(arena).data_of(id).vel == Some(Vec3i { x: 0, y: 0, z: 0 }),
        final(arena).data_of(id).collider is Some,
        final(arena).data_of(id).collider->0.radius == STEP_SIZE / 2,
        forall|id2: EntityId| #[trigger] old(arena).is_live(id2) ==> final(arena).is_live(id2)
            && final(arena).data_of(id2) == old(arena).data_of(id2),
        forall|id2: EntityId| #[trigger] final(arena).is_live(id2) && id2 != id
            ==> old(arena).is_live(id2),
{
    let data = EntityData {
        pos: Vec3i { x: STEP_SIZE / 2, y: STEP_SIZE / 2, z: 1 },
        vel: Some(Vec3i { x: 0, y: 0, z: 0 }),
        collider: Some(Collider::new(STEP_SIZE)),
        kind: EntityKind::Head,
    };
    arena.spawn(data)
}

impl Game {
    /// A fresh game: an arena holding only the head, no segments, no
    /// pending events, no accepted direction yet, and the starting step
    /// duration.
    pub fn new() -> (g: Game)
        ensures
            g.wf(),
            g.segs().len() == 0,
            g.snek.dir == Direction::Idle,
            g.last_dir == Direction::Idle,
            g.head_pos() == (Vec3i { x: (STEP_SIZE / 2) as i64, y: (STEP_SIZE / 2) as i64, z: 1 }),
            g.head_vel() == (Vec3i { x: 0, y: 0, z: 0 }),
            g.clock.step_ns == STARTING_DELAY_NS,
            g.clock.accum_ns == 0,
            g.movement_events.readable() == Seq::<MovementEvent>::empty(),
            g.fruit_events.readable() == Seq::<FruitEatenEvent>::empty(),
            forall|id: EntityId| #[trigger] g.arena.is_live(id) ==> id == g.head,
    {
        let mut arena = Arena::new();
        let head = spawn_snek(&mut arena);
        Game {
            arena,
            head,
            snek: SnekHead { dir: Direction::Idle, children: Vec::new() },
            last_dir: Direction::Idle,
            clock: TickClock::new(STARTING_DELAY_NS),
            movement_events: EventQueue::new(),
            fruit_events: EventQueue::new(),
        }
    }
}

/// The candidate direction a movement key maps to; other keys map to
/// `Idle` and leave the head alone.
pub open spec fn key_direction(k: Key) -> Direction {
    match k {
        Key::W => Direction::Up,
        Key::S => Direction::Down,
        Key::A => Direction::Left,
        Key::D => Direction::Right,
        _ => Direction::Idle,
    }
}

/// The velocity a facing direction gives the head: one grid step along it.
pub open spec fn dir_velocity(d: Direction) -> Vec3i {
    Vec3i {
        x: (d.val_spec().x * STEP_SIZE) as i64,
        y: (d.val_spec().y * STEP_SIZE) as i64,
        z: (d.val_spec().z * STEP_SIZE) as i64,
    }
}

/// One pressed key applied to the head: the candidate is accepted, and the
/// velocity retargeted, only when the last accepted direction is not the
/// candidate's reverse.
pub open spec fn apply_key(dir: Direction, vel: Vec3i, last: Direction, k: Key) -> (
    Direction,
    Vec3i,
) {
    let cand = key_direction(k);
    if cand != Direction::Idle && last != cand.opposite() {
        (cand, dir_velocity(cand))
    } else {
        (dir, vel)
    }
}

/// All pressed keys applied in order.
pub open spec fn fold_keys(dir: Direction, vel: Vec3i, last: Direction, keys: Seq<Key>) -> (
    Direction,
    Vec3i,
)
    decreases keys.len(),
{
    if keys.len() <= 0 {
        (dir, vel)
    } else {
        let r = apply_key(dir, vel, last, keys[0]);
        fold_keys(r.0, r.1, last, keys.drop_first())
    }
}

/// Direction invariant: whatever keys arrive in one frame, an accepted
/// direction change never reverses the last accepted direction.
pub proof fn lemma_direction_invariant(dir: Direction, vel: Vec3i, last: Direction, keys: Seq<Key>)
    ensures
        ({
            let r = fold_keys(dir, vel, last, keys);
            r.0 == dir || r.0 != last.opposite()
        }),
    decreases keys.len(),
{
    if keys.len() > 0 {
        let r1 = apply_key(dir, vel, last, keys[0]);
        lemma_direction_invariant(r1.0, r1.1, last, keys.drop_first());
    }
}

/// Map this frame's pressed keys onto the head: each movement key retargets
/// the facing direction and the velocity, unless it would reverse the last
/// accepted direction. Later keys in the same frame override earlier ones.
#[verifier::loop_isolation(false)]
pub fn handle_snek_input(game: &mut Game, pressed: &Vec<Key>)
    requires
        old(game).wf(),
    ensures
        final(game).wf(),
        (final(game).snek.dir, final(game).head_vel()) == fold_keys(
            old(game).snek.dir,
            old(game).head_vel(),
            old(game).last_dir,
            pressed@,
        ),
        final(game).head == old(game).head,
        final(game).snek.children == old(game).snek.children,
        final(game).last_dir == old(game).last_dir,
        final(game).clock == old(game).clock,
        final(game).movement_events == old(game).movement_events,
        final(game).fruit_events == old(game).fruit_events,
        old(game).arena.same_live(final(game).arena),
        forall|id: EntityId| #[trigger] old(game).arena.is_live(id) && id != old(game).head
            ==> final(game).arena.data_of(id) == old(game).arena.data_of(id),
        final(game).arena.data_of(final(game).head).pos == old(game).arena.data_of(
            old(game).head,
        ).pos,
        final(game).arena.data_of(final(game).head).kind == old(game).arena.data_of(
            old(game).head,
        ).kind,
        final(game).arena.data_of(final(game).head).collider == old(game).arena.data_of(
            old(game).head,
        ).collider,
{
    let ghost d0 = old(game).snek.dir;
    let ghost v0 = old(game).head_vel();
    let ghost last = old(game).last_dir;
    let n: usize = pressed.len();
    proof {
        assert(pressed@.subrange(0, n as int) =~= pressed@);
    }
    let mut i: usize = 0;
    while i < n
        invariant
            0 <= i <= n,
            game.wf(),
            fold_keys(game.snek.dir, game.head_vel(), last, pressed@.subrange(i as int, n as int))
                == fold_keys(d0, v0, last, pressed@),
            game.head == old(game).head,
            game.snek.children == old(game).snek.children,
            game.last_dir == old(game).last_dir,
            game.clock == old(game).clock,
            game.movement_events == old(game).movement_events,
            game.fruit_events == old(game).fruit_events,
            old(game).arena.same_live(game.arena),
            forall|id: EntityId| #[trigger] old(game).arena.is_live(id) && id != game.head
                ==> game.arena.data_of(id) == old(game).arena.data_of(id),
            game.arena.data_of(game.head).pos == old(game).arena.data_of(old(game).head).pos,
            game.arena.data_of(game.head).kind == old(game).arena.data_of(old(game).head).kind,
            game.arena.data_of(game.head).collider == old(game).arena.data_of(
                old(game).head,
            ).collider,
        decreases n - i,
    {
        let ghost rest = pressed@.subrange(i as int, n as int);
        proof {
            assert(rest[0] == pressed@[i as int]);
            assert(rest.drop_first() =~= pressed@.subrange(i + 1, n as int));
        }
        let ghost g_prev = *game;
        let k = pressed[i];
        let mut cand = Direction::Idle;
        if k == Key::W && game.last_dir != Direction::Down {
            cand = Direction::Up;
        }
        if k == Key::S && game.last_dir != Direction::Up {
            cand = Direction::Down;
        }
        if k == Key::A && game.last_dir != Direction::Right {
            cand = Direction::Left;
        }
        if k == Key::D && game.last_dir != Direction::Left {
            cand = Direction::Right;
        }
        if !(cand == Direction::Idle) {
            game.snek.dir = cand;
            let unit = cand.val();
            let v = Vec3i {
                x: unit.x * STEP_SIZE,
                y: unit.y * STEP_SIZE,
                z: unit.z * STEP_SIZE,
            };
            game.arena.set_vel(game.head, Some(v));
            proof {
                assert(v == dir_velocity(cand));
                assert forall|id3: EntityId| #[trigger] crate::collision::has_collider(
                    game.arena,
                    id3,
                ) implies 0 <= crate::collision::radius_of(game.arena, id3)
                    <= crate::vec3::COORD_LIMIT by {
                    assert(crate::collision::has_collider(g_prev.arena, id3));
                }
                assert forall|id: EntityId| #[trigger] old(game).arena.is_live(id)
                    && id != game.head implies game.arena.data_of(id) == old(
                    game,
                ).arena.data_of(id) by {
                    assert(g_prev.arena.is_live(id));
                }
                assert((game.snek.dir, game.head_vel()) == apply_key(
                    g_prev.snek.dir,
                    g_prev.head_vel(),
                    last,
                    k,
                ));
            }
        } else {
            proof {
                assert((game.snek.dir, game.head_vel()) == apply_key(
                    g_prev.snek.dir,
                    g_prev.head_vel(),
                    last,
                    k,
                ));
            }
        }
        i = i + 1;
    }
    proof {
        assert(pressed@.subrange(n as int, n as int) =~= Seq::<Key>::empty());
    }
}

/// The segment velocities, head-to-tail.
pub open spec fn seg_vels(g: Game) -> Seq<Vec3i> {
    Seq::new(g.segs().len(), |i: int| g.seg_vel(i))
}

/// One relay pass: the first segment takes the head's velocity, each later
/// segment its predecessor's previous one; the last velocity drops out.
pub open spec fn shifted_once(hv: Vec3i, vels: Seq<Vec3i>) -> Seq<Vec3i> {
    if vels.len() == 0 {
        vels
    } else {
        seq![hv] + vels.drop_last()
    }
}

/// `k` relay passes in a row.
pub open spec fn shifted(hv: Vec3i, vels: Seq<Vec3i>, k: nat) -> Seq<Vec3i>
    decreases k,
{
    if k == 0 {
        vels
    } else {
        shifted_once(hv, shifted(hv, vels, (k - 1) as nat))
    }
}

/// How many of the events name the head.
pub open spec fn head_event_count(events: Seq<MovementEvent>, head: EntityId) -> nat
    decreases events.len(),
{
    if events.len() == 0 {
        0
    } else {
        (if events[0].0 == head {
            1nat
        } else {
            0nat
        }) + head_event_count(events.drop_first(), head)
    }
}

/// Appending one event raises the head count by one exactly when the event
/// names the head.
proof fn lemma_head_count_push(events: Seq<MovementEvent>, ev: MovementEvent, head: EntityId)
    ensures
        head_event_count(events.push(ev), head) == head_event_count(events, head) + (
        if ev.0 == head {
            1nat
        } else {
            0nat
        }),
    decreases events.len(),
{
    if events.len() == 0 {
        assert(events.push(ev).drop_first() =~= events);
    } else {
        assert(events.push(ev).drop_first() =~= events.drop_first().push(ev));
        lemma_head_count_push(events.drop_first(), ev, head);
    }
}

/// Velocity-relay invariant: after one pass, the first segment holds the
/// head's velocity and every later segment the velocity its predecessor
/// held before the pass (the head counting as predecessor of segment 0).
pub proof fn lemma_velocity_relay(hv: Vec3i, vels: Seq<Vec3i>)
    ensures
        shifted_once(hv, vels).len() == vels.len(),
        vels.len() > 0 ==> shifted_once(hv, vels)[0] == hv,
        forall|i: int| 1 <= i < vels.len() ==> shifted_once(hv, vels)[i] == vels[i - 1],
{
}

/// The chain propagator: for every movement event naming the head, one
/// relay pass shifts the head's velocity down the chain, segment by
/// segment in head-to-tail order, without storing any position history.
/// Integration next step then moves each segment to where its predecessor
/// just was.
#[verifier::loop_isolation(false)]
pub fn move_children(game: &mut Game)
    requires
        old(game).wf(),
    ensures
        final(game).wf(),
        final(game).head == old(game).head,
        final(game).snek == old(game).snek,
        final(game).last_dir == old(game).last_dir,
        final(game).clock == old(game).clock,
        final(game).movement_events == old(game).movement_events,
        final(game).fruit_events == old(game).fruit_events,
        old(game).arena.same_live(final(game).arena),
        forall|id: EntityId| #[trigger] old(game).arena.is_live(id) && !old(game).segs().contains(
            id,
        ) ==> final(game).arena.data_of(id) == old(game).arena.data_of(id),
        forall|i: int| 0 <= i < old(game).segs().len() ==> {
            &&& final(game).arena.data_of(old(game).segs()[i]).pos == old(game).arena.data_of(
                old(game).segs()[i],
            ).pos
            &&& final(game).arena.data_of(old(game).segs()[i]).kind == old(game).arena.data_of(
                old(game).segs()[i],
            ).kind
            &&& final(game).arena.data_of(old(game).segs()[i]).collider == old(game).arena.data_of(old(game).segs()[i]).collider
        },
        seg_vels(*final(game)) == shifted(
            old(game).head_vel(),
            seg_vels(*old(game)),
            head_event_count(old(game).movement_events.readable(), old(game).head),
        ),
{
    let ghost hv0 = old(game).head_vel();
    let ghost vels0 = seg_vels(*old(game));
    let evs = game.movement_events.read_all();
    let ne: usize = evs.len();
    let mut e: usize = 0;
    proof {
        assert(evs@.subrange(0, 0) =~= Seq::<MovementEvent>::empty());
    }
    while e < ne
        invariant
            0 <= e <= ne,
            game.wf(),
            game.head == old(game).head,
            game.snek == old(game).snek,
            game.last_dir == old(game).last_dir,
            game.clock == old(game).clock,
            game.movement_events == old(game).movement_events,
            game.fruit_events == old(game).fruit_events,
            game.head_vel() == hv0,
            old(game).arena.same_live(game.arena),
            forall|id: EntityId| #[trigger] old(game).arena.is_live(id) && !old(game).segs().contains(id) ==> game.arena.data_of(id) == old(game).arena.data_of(id),
            forall|i: int| 0 <= i < old(game).segs().len() ==> {
                &&& game.arena.data_of(old(game).segs()[i]).pos == old(game).arena.data_of(
                    old(game).segs()[i],
                ).pos
                &&& game.arena.data_of(old(game).segs()[i]).kind == old(game).arena.data_of(
                    old(game).segs()[i],
                ).kind
                &&& game.arena.data_of(old(game).segs()[i]).collider == old(game).arena.data_of(
                    old(game).segs()[i],
                ).collider
            },
            seg_vels(*game) == shifted(
                hv0,
                vels0,
                head_event_count(evs@.subrange(0, e as int), old(game).head),
            ),
        decreases ne - e,
    {
        let ev = evs[e];
        proof {
            assert(evs@.subrange(0, e as int).push(ev) =~= evs@.subrange(0, e + 1));
            lemma_head_count_push(evs@.subrange(0, e as int), ev, old(game).head);
        }
        if ev.0 == game.head {
            let ghost g_pass = *game;
            let ghost vpre = seg_vels(*game);
            let hd = game.arena.get(game.head).unwrap();
            let mut carry: Vec3i = match hd.vel {
                Some(v) => v,
                None => Vec3i { x: 0, y: 0, z: 0 },
            };
            let m: usize = game.snek.children.len();
            let mut sidx: usize = 0;
            while sidx < m
                invariant
                    0 <= sidx <= m,
                    m == game.segs().len(),
                    game.wf(),
                    game.head == g_pass.head,
                    game.snek == g_pass.snek,
                    game.last_dir == g_pass.last_dir,
                    game.clock == g_pass.clock,
                    game.movement_events == g_pass.movement_events,
                    game.fruit_events == g_pass.fruit_events,
                    g_pass.arena.same_live(game.arena),
                    forall|id: EntityId| #[trigger] g_pass.arena.is_live(id) && !g_pass.segs(
                    ).contains(id) ==> game.arena.data_of(id) == g_pass.arena.data_of(id),
                    forall|i: int| 0 <= i < m ==> {
                        &&& game.arena.data_of(game.segs()[i]).pos == g_pass.arena.data_of(
                            g_pass.segs()[i],
                        ).pos
                        &&& game.arena.data_of(game.segs()[i]).kind == g_pass.arena.data_of(
                            g_pass.segs()[i],
                        ).kind
                        &&& game.arena.data_of(game.segs()[i]).collider == g_pass.arena.data_of(
                            g_pass.segs()[i],
                        ).collider
                    },
                    forall|t: int| 0 <= t < sidx ==> game.seg_vel(t) == shifted_once(
                        hv0,
                        vpre,
                    )[t],
                    forall|t: int| sidx <= t < m ==> game.seg_vel(t) == vpre[t],
                    carry == (if sidx == 0 {
                        hv0
                    } else {
                        vpre[sidx - 1]
                    }),
                decreases m - sidx,
            {
                let ghost g_prev = *game;
                let seg = game.snek.children[sidx];
                let d = game.arena.get(seg).unwrap();
                let oldv: Vec3i = match d.vel {
                    Some(v) => v,
                    None => Vec3i { x: 0, y: 0, z: 0 },
                };
                game.arena.set_vel(seg, Some(carry));
                proof {
                    assert forall|id3: EntityId| #[trigger] crate::collision::has_collider(
                        game.arena,
                        id3,
                    ) implies 0 <= crate::collision::radius_of(game.arena, id3)
                        <= crate::vec3::COORD_LIMIT by {
                        assert(crate::collision::has_collider(g_prev.arena, id3));
                    }
                    assert(g_pass.segs()[sidx as int] == seg);
                    assert(g_pass.segs().contains(seg));
                    assert forall|id: EntityId| #[trigger] g_prev.arena.is_live(id) && id != seg
                        implies game.arena.data_of(id) == g_prev.arena.data_of(id) by {}
                    assert forall|id: EntityId| #[trigger] g_pass.arena.is_live(id)
                        && !g_pass.segs().contains(id) implies game.arena.data_of(id)
                        == g_pass.arena.data_of(id) by {
                        assert(id != seg);
                        assert(g_prev.arena.is_live(id));
                    }
                    assert forall|t: int| 0 <= t < m && t != sidx implies game.seg_vel(t)
                        == g_prev.seg_vel(t) by {
                        assert(game.segs()[t] != seg);
                    }
                    assert(game.seg_vel(sidx as int) == carry);
                    assert(shifted_once(hv0, vpre)[sidx as int] == (if sidx == 0 {
                        hv0
                    } else {
                        vpre[sidx - 1]
                    }));
                    assert forall|t: int| 0 <= t < sidx implies game.seg_vel(t) == shifted_once(
                        hv0,
                        vpre,
                    )[t] by {
                        assert(game.segs()[t] != seg);
                        assert(game.seg_vel(t) == g_prev.seg_vel(t));
                        assert(g_prev.seg_vel(t) == shifted_once(hv0, vpre)[t]);
                    }
                }
                carry = oldv;
                sidx = sidx + 1;
            }
            proof {
                assert(g_pass.segs() == old(game).segs());
                assert forall|id: EntityId| #[trigger] old(game).arena.is_live(id) && !old(game).segs().contains(id) implies game.arena.data_of(id) == old(game).arena.data_of(
                    id,
                ) by {
                    assert(g_pass.arena.is_live(id));
                }
                assert(seg_vels(*game) =~= shifted_once(hv0, vpre));
                assert(seg_vels(*game) == shifted(
                    hv0,
                    vels0,
                    head_event_count(evs@.subrange(0, e + 1), old(game).head),
                ));
            }
        }
        e = e + 1;
    }
    proof {
        assert(evs@.subrange(0, ne as int) =~= evs@);
    }
}

/// The step duration after `k` growth speed-ups.
pub open spec fn sped_up(step: u64, k: nat) -> u64
    decreases k,
{
    if k == 0 {
        step
    } else {
        (sped_up(step, (k - 1) as nat) * crate::fixed_timestep::SPEED_UP_NUM / (
        crate::fixed_timestep::SPEED_UP_DEN as int)) as u64
    }
}

/// A speed-up never lengthens the step.
proof fn lemma_sped_up_le(step: u64, k: nat)
    ensures
        sped_up(step, k) <= step,
    decreases k,
{
    if k > 0 {
        lemma_sped_up_le(step, (k - 1) as nat);
        let s = sped_up(step, (k - 1) as nat);
        assert(s * crate::fixed_timestep::SPEED_UP_NUM / (
        crate::fixed_timestep::SPEED_UP_DEN as int) <= s) by (nonlinear_arith)
        ;
    }
}

/// The growth rule: every pending pickup event yields exactly one new
/// segment, spawned at the current tail's position (the head's if the
/// chain is empty) with a zeroed velocity and appended as the new tail;
/// each pickup also shortens the step duration once. The pickup queue is
/// drained, so a pickup never grows the chain twice.
#[verifier::loop_isolation(false)]
pub fn add_child(game: &mut Game)
    requires
        old(game).wf(),
    ensures
        final(game).wf(),
        final(game).head == old(game).head,
        final(game).snek.dir == old(game).snek.dir,
        final(game).last_dir == old(game).last_dir,
        final(game).movement_events == old(game).movement_events,
        final(game).fruit_events.readable() == Seq::<FruitEatenEvent>::empty(),
        final(game).segs().len() == old(game).segs().len() + old(game).fruit_events.readable().len(),
        forall|i: int| 0 <= i < old(game).segs().len()
            ==> final(game).segs()[i] == old(game).segs()[i],
        forall|id: EntityId| #[trigger] old(game).arena.is_live(id) ==> final(game).arena.is_live(id) && final(game).arena.data_of(id) == old(game).arena.data_of(id),
        forall|id: EntityId| #[trigger] final(game).arena.is_live(id) ==> old(game).arena.is_live(id) || (exists|t: int|
            old(game).segs().len() <= t < final(game).segs().len() && final(game).segs()[t]
                == id),
        forall|t: int| old(game).segs().len() <= t < final(game).segs().len() ==> {
            &&& !old(game).arena.is_live(#[trigger] final(game).segs()[t])
            &&& final(game).arena.data_of(final(game).segs()[t]).kind == EntityKind::Segment
            &&& final(game).arena.data_of(final(game).segs()[t]).vel == Some(
                Vec3i { x: 0, y: 0, z: 0 },
            )
            &&& final(game).arena.data_of(final(game).segs()[t]).pos == (if old(game).segs().len() == 0 {
                old(game).head_pos()
            } else {
                old(game).seg_pos(old(game).segs().len() - 1)
            })
        },
        final(game).clock.step_ns == sped_up(
            old(game).clock.step_ns,
            old(game).fruit_events.readable().len(),
        ),
        final(game).clock.accum_ns == old(game).clock.accum_ns,
{
    let ghost g0 = *old(game);
    let ghost len0 = old(game).segs().len();
    let ghost anchor0: Vec3i = if len0 == 0 {
        g0.head_pos()
    } else {
        g0.seg_pos(len0 - 1)
    };
    let ghost step0 = old(game).clock.step_ns;
    let evs = game.fruit_events.drain();
    let n_ev: usize = evs.len();
    let mut j: usize = 0;
    while j < n_ev
        invariant
            0 <= j <= n_ev,
            game.wf(),
            game.head == g0.head,
            game.snek.dir == g0.snek.dir,
            game.last_dir == g0.last_dir,
            game.movement_events == g0.movement_events,
            game.fruit_events.readable() == Seq::<FruitEatenEvent>::empty(),
            game.segs().len() == len0 + j,
            forall|i: int| 0 <= i < len0 ==> game.segs()[i] == g0.segs()[i],
            forall|id: EntityId| #[trigger] g0.arena.is_live(id) ==> game.arena.is_live(id)
                && game.arena.data_of(id) == g0.arena.data_of(id),
            forall|id: EntityId| #[trigger] game.arena.is_live(id) ==> g0.arena.is_live(id) || (
            exists|t: int| len0 <= t < game.segs().len() && game.segs()[t] == id),
            forall|t: int| len0 <= t < game.segs().len() ==> {
                &&& !g0.arena.is_live(#[trigger] game.segs()[t])
                &&& game.arena.data_of(game.segs()[t]).kind == EntityKind::Segment
                &&& game.arena.data_of(game.segs()[t]).vel == Some(Vec3i { x: 0, y: 0, z: 0 })
                &&& game.arena.data_of(game.segs()[t]).pos == anchor0
            },
            game.clock.step_ns == sped_up(step0, j as nat),
            game.clock.accum_ns == g0.clock.accum_ns,
        decreases n_ev - j,
    {
        proof {
            lemma_sped_up_le(step0, j as nat);
        }
        game.clock.speed_up();
        let anchor: Vec3i = if game.snek.children.len() == 0 {
            game.arena.get(game.head).unwrap().pos
        } else {
            let tail = game.snek.children[game.snek.children.len() - 1];
            game.arena.get(tail).unwrap().pos
        };
        proof {
            assert(anchor == anchor0);
        }
        let ghost g_prev = *game;
        let data = EntityData {
            pos: anchor,
            vel: Some(Vec3i { x: 0, y: 0, z: 0 }),
            collider: Some(Collider::new(STEP_SIZE)),
            kind: EntityKind::Segment,
        };
        let id = game.arena.spawn(data);
        game.snek.children.push(id);
        proof {
            assert forall|id3: EntityId| #[trigger] crate::collision::has_collider(
                game.arena,
                id3,
            ) implies 0 <= crate::collision::radius_of(game.arena, id3)
                <= crate::vec3::COORD_LIMIT by {
                if id3 != id {
                    assert(crate::collision::has_collider(g_prev.arena, id3));
                }
            }
            assert(game.segs()[game.segs().len() - 1] == id);
            assert forall|id2: EntityId| #[trigger] game.arena.is_live(id2) implies
                g0.arena.is_live(id2) || (exists|t: int|
                len0 <= t < game.segs().len() && game.segs()[t] == id2) by {
                if id2 == id {
                    assert(game.segs()[game.segs().len() - 1] == id2);
                } else {
                    assert(g_prev.arena.is_live(id2));
                    if !g0.arena.is_live(id2) {
                        let t = choose|t: int|
                            len0 <= t < g_prev.segs().len() && g_prev.segs()[t] == id2;
                        assert(game.segs()[t] == id2);
                    }
                }
            }
            assert forall|i: int, jj: int| 0 <= i < jj < game.segs().len() implies game.segs()[i]
                != game.segs()[jj] by {
                if jj == game.segs().len() - 1 {
                    assert(game.arena.is_live(game.segs()[i]));
                }
            }
            assert(game.clock.step_ns == sped_up(step0, (j + 1) as nat));
        }
        j = j + 1;
    }
}

/// The entity is a live fruit within one grid step of the head:
/// the pickup condition.
pub open spec fn in_pickup_range(a: Arena, head: EntityId, id: EntityId) -> bool {
    &&& a.is_live(id)
    &&& a.data_of(id).kind == EntityKind::Fruit
    &&& Vec3i::dist_sq_spec(a.data_of(id).pos, a.data_of(head).pos) < STEP_SIZE * STEP_SIZE
}

/// How many of the slots below `k` hold a fruit in pickup range.
pub open spec fn picked_count(a: Arena, head: EntityId, k: int) -> int
    decreases k,
{
    if k <= 0 {
        0
    } else {
        picked_count(a, head, k - 1) + (if a.slots@[k - 1].data is Some && in_pickup_range(
            a,
            head,
            crate::collision::slot_id(a, k - 1),
        ) {
            1int
        } else {
            0int
        })
    }
}

/// Pickup detection: every live fruit within one grid step (squared
/// distance below one step squared) of the head is despawned, and exactly
/// one pickup event per despawned fruit is written in a single batch.
/// Everything else is untouched.
#[verifier::loop_isolation(false)]
pub fn fruit_collision(game: &mut Game)
    requires
        old(game).wf(),
        crate::collision::positions_bounded(
            old(game).arena,
            crate::vec3::COORD_LIMIT as int,
        ),
    ensures
        final(game).wf(),
        final(game).head == old(game).head,
        final(game).snek == old(game).snek,
        final(game).last_dir == old(game).last_dir,
        final(game).clock == old(game).clock,
        final(game).movement_events == old(game).movement_events,
        final(game).fruit_events.previous@ == old(game).fruit_events.previous@,
        final(game).fruit_events.current@.len() == old(game).fruit_events.current@.len()
            + picked_count(old(game).arena, old(game).head, old(game).arena.slots@.len() as int),
        forall|id: EntityId| #[trigger] final(game).arena.is_live(id) <==> (old(game).arena.is_live(id) && !in_pickup_range(old(game).arena, old(game).head, id)),
        forall|id: EntityId| #[trigger] final(game).arena.is_live(id) ==> final(game).arena.data_of(id) == old(game).arena.data_of(id),
{
    let ghost a0 = old(game).arena;
    let ghost head0 = old(game).head;
    let n: usize = game.arena.slot_count();
    let head_pos = game.arena.get(game.head).unwrap().pos;
    let mut events: Vec<FruitEatenEvent> = Vec::new();
    let mut i: usize = 0;
    while i < n
        invariant
            0 <= i <= n,
            game.wf(),
            n == game.arena.slots@.len(),
            game.head == old(game).head,
            game.snek == old(game).snek,
            game.last_dir == old(game).last_dir,
            game.clock == old(game).clock,
            game.movement_events == old(game).movement_events,
            game.fruit_events == old(game).fruit_events,
            head_pos == a0.data_of(head0).pos,
            forall|k: int| 0 <= k < n ==> game.arena.slots@[k].gen == a0.slots@[k].gen,
            forall|k: int| i <= k < n ==> (game.arena.slots@[k].data is Some
                <==> a0.slots@[k].data is Some),
            forall|id: EntityId| #[trigger] game.arena.is_live(id) && id.idx >= i ==> a0.is_live(
                id,
            ),
            forall|id: EntityId| #[trigger] a0.is_live(id) && id.idx >= i
                ==> game.arena.is_live(id),
            forall|id: EntityId| id.idx < i ==> (#[trigger] game.arena.is_live(id) <==> (
            a0.is_live(id) && !in_pickup_range(a0, head0, id))),
            forall|id: EntityId| #[trigger] game.arena.is_live(id) ==> game.arena.data_of(id)
                == a0.data_of(id),
            events@.len() == picked_count(a0, head0, i as int),
        decreases n - i,
    {
        let ghost g_prev = *game;
        match game.arena.id_at(i) {
            Some(id) => {
                proof {
                    assert(crate::collision::slot_id(a0, i as int) == id);
                }
                let d = game.arena.get(id).unwrap();
                let is_fruit: bool = match d.kind {
                    EntityKind::Fruit => true,
                    _ => false,
                };
                if is_fruit {
                    let dist = Vec3i::dist_sq(d.pos, head_pos);
                    if dist < STEP_SIZE * STEP_SIZE {
                        proof {
                            assert(in_pickup_range(a0, head0, id));
                            assert(id != game.head);
                            assert forall|t: int| 0 <= t < game.segs().len()
                                implies game.segs()[t] != id by {
                                assert(game.arena.is_live(game.segs()[t]));
                            }
                        }
                        events.push(FruitEatenEvent);
                        game.arena.despawn(id);
                        proof {
                            assert forall|id2: EntityId| #[trigger] g_prev.arena.is_live(id2)
                                && id2 != id implies game.arena.is_live(id2)
                                && game.arena.data_of(id2) == g_prev.arena.data_of(id2) by {}
                            assert forall|id3: EntityId| #[trigger] crate::collision::has_collider(
                                game.arena,
                                id3,
                            ) implies 0 <= crate::collision::radius_of(game.arena, id3)
                                <= crate::vec3::COORD_LIMIT by {
                                assert(g_prev.arena.is_live(id3));
                                assert(crate::collision::has_collider(g_prev.arena, id3));
                            }

                            assert forall|id2: EntityId| id2.idx < i + 1 implies (
                                #[trigger] game.arena.is_live(id2) <==> (a0.is_live(id2)
                                    && !in_pickup_range(a0, head0, id2))) by {
                                if id2.idx == i {
                                    if id2 != id {
                                        assert(a0.is_live(id2) ==> id2.gen == a0.slots@[
                                            i as int].gen);
                                        assert(!a0.is_live(id2));
                                        assert(!game.arena.is_live(id2));
                                    }
                                } else {
                                    if game.arena.is_live(id2) {
                                        assert(g_prev.arena.is_live(id2));
                                    }
                                    if g_prev.arena.is_live(id2) {
                                        assert(id2 != id);
                                    }
                                }
                            }
                        }
                    } else {
                        proof {
                            assert(!in_pickup_range(a0, head0, id));
                            assert forall|id2: EntityId| id2.idx == i && id2 != id implies !(
                                #[trigger] game.arena.is_live(id2)) && !a0.is_live(id2) by {}
                        }
                    }
                } else {
                    proof {
                        assert(!in_pickup_range(a0, head0, id));
                        assert forall|id2: EntityId| id2.idx == i && id2 != id implies !(
                            #[trigger] game.arena.is_live(id2)) && !a0.is_live(id2) by {}
                    }
                }
            },
            None => {
                proof {
                    assert(game.arena.slots@[i as int].data is None);
                    assert(a0.slots@[i as int].data is None);
                    assert forall|id: EntityId| id.idx == i implies !a0.is_live(id)
                        && !game.arena.is_live(id) by {}
                }
            },
        }
        i = i + 1;
    }
    game.fruit_events.send_batch(events);
    proof {
        assert forall|id: EntityId| #[trigger] game.arena.is_live(id) implies (a0.is_live(id)
            && !in_pickup_range(a0, head0, id)) by {
            assert(id.idx < n);
        }
        assert forall|id: EntityId| a0.is_live(id) && !in_pickup_range(a0, head0, id)
            implies game.arena.is_live(id) by {
            assert(id.idx < n);
        }
    }
}

/// Whether the head overlaps segment `t` (squared distance below one grid
/// step squared).
pub open spec fn self_hit(g: Game, t: int) -> bool {
    Vec3i::dist_sq_spec(g.head_pos(), g.seg_pos(t)) < STEP_SIZE * STEP_SIZE
}

/// The self-collision terminal rule: segments beyond the first three are
/// tested against the head; any overlap inflates the step duration to the
/// freeze value. Nothing else changes.
#[verifier::loop_isolation(false)]
pub fn self_collision(game: &mut Game)
    requires
        old(game).wf(),
        crate::collision::positions_bounded(
            old(game).arena,
            crate::vec3::COORD_LIMIT as int,
        ),
    ensures
        final(game).wf(),
        final(game).arena == old(game).arena,
        final(game).head == old(game).head,
        final(game).snek == old(game).snek,
        final(game).last_dir == old(game).last_dir,
        final(game).movement_events == old(game).movement_events,
        final(game).fruit_events == old(game).fruit_events,
        final(game).clock.accum_ns == old(game).clock.accum_ns,
        final(game).clock.step_ns == (if exists|t: int|
            3 <= t < old(game).segs().len() && #[trigger] self_hit(*old(game), t) {
            FREEZE_NS
        } else {
            old(game).clock.step_ns
        }),
{
    let head_pos = game.arena.get(game.head).unwrap().pos;
    let m: usize = game.snek.children.len();
    let mut i: usize = 3;
    if m < 3 {
        proof {
            assert forall|t: int| 3 <= t < old(game).segs().len() implies !self_hit(
                *old(game),
                t,
            ) by {}
        }
        return ;
    }
    while i < m
        invariant
            3 <= i <= m,
            m == game.segs().len(),
            game.wf(),
            game.arena == old(game).arena,
            game.head == old(game).head,
            game.snek == old(game).snek,
            game.last_dir == old(game).last_dir,
            game.movement_events == old(game).movement_events,
            game.fruit_events == old(game).fruit_events,
            head_pos == old(game).head_pos(),
            game.clock.accum_ns == old(game).clock.accum_ns,
            game.clock.step_ns == (if exists|t: int|
                3 <= t < i && #[trigger] self_hit(*old(game), t) {
                FREEZE_NS
            } else {
                old(game).clock.step_ns
            }),
        decreases m - i,
    {
        let seg = game.snek.children[i];
        let d = game.arena.get(seg).unwrap();
        let dist = Vec3i::dist_sq(head_pos, d.pos);
        if dist < STEP_SIZE * STEP_SIZE {
            proof {
                assert(self_hit(*old(game), i as int));
            }
            game.clock.freeze();
        }
        i = i + 1;
    }
}

/// The boundary terminal rule: a head outside the playfield half-extents
/// on either axis inflates the step duration to the freeze value. Nothing
/// else changes.
pub open spec fn wall_out(p: Vec3i) -> bool {
    ||| p.x < -(SCREEN_WIDTH / 2)
    ||| p.x > SCREEN_WIDTH / 2
    ||| p.y < -(SCREEN_HEIGHT / 2)
    ||| p.y > SCREEN_HEIGHT / 2
}

/// Freeze the clock when the head has left the playfield.
pub fn wall_collision(game: &mut Game)
    requires
        old(game).wf(),
    ensures
        final(game).wf(),
        final(game).arena == old(game).arena,
        final(game).head == old(game).head,
        final(game).snek == old(game).snek,
        final(game).last_dir == old(game).last_dir,
        final(game).movement_events == old(game).movement_events,
        final(game).fruit_events == old(game).fruit_events,
        final(game).clock.accum_ns == old(game).clock.accum_ns,
        final(game).clock.step_ns == (if wall_out(old(game).head_pos()) {
            FREEZE_NS
        } else {
            old(game).clock.step_ns
        }),
{
    let t = game.arena.get(game.head).unwrap().pos;
    if t.x < -(SCREEN_WIDTH / 2) || t.x > SCREEN_WIDTH / 2 {
        game.clock.freeze();
    }
    if t.y < -(SCREEN_HEIGHT / 2) || t.y > SCREEN_HEIGHT / 2 {
        game.clock.freeze();
    }
}

/// A sequence of `k` zero velocities: what freshly grown segments carry.
pub open spec fn zero_vels(k: nat) -> Seq<Vec3i> {
    Seq::new(k, |i: int| Vec3i { x: 0, y: 0, z: 0 })
}

/// The movement batch of one step names a live entity exactly once, when
/// it moved, and never otherwise.
proof fn lemma_head_count_of_movers(a: Arena, head: EntityId, k: int)
    requires
        a.is_live(head),
        k <= usize::MAX,
    ensures
        head_event_count(crate::movement::movement_events_upto(a, k), head) == (
        if head.idx < k && crate::movement::entity_moves(a, head) {
            1nat
        } else {
            0nat
        }),
    decreases k,
{
    if k > 0 {
        lemma_head_count_of_movers(a, head, k - 1);
        let prefix = crate::movement::movement_events_upto(a, k - 1);
        if a.slots@[k - 1].data is Some && crate::movement::entity_moves(
            a,
            crate::collision::slot_id(a, k - 1),
        ) {
            let ev = MovementEvent(crate::collision::slot_id(a, k - 1));
            assert(crate::movement::movement_events_upto(a, k) =~= prefix.push(ev));
            lemma_head_count_push(prefix, ev, head);
            if ev.0 == head {
                assert(head.idx == k - 1);
            } else {
                assert(head.idx == k - 1 ==> crate::collision::slot_id(a, k - 1) == head);
            }
        } else {
            assert(crate::movement::movement_events_upto(a, k) =~= prefix);
            if head.idx == k - 1 {
                assert(crate::collision::slot_id(a, k - 1) == head);
            }
        }
    }
}

/// One full simulation step: the three phases in order, each drained
/// before the next starts.
///
/// Pre-step: the previous step's movement buffer is cleared, every entity
/// with a velocity advances by it, and movers are announced. Step: the
/// last accepted direction is recorded, eaten fruits are replaced, growth
/// consumes the pickup events, the chain relays velocities, pickups are
/// detected, and all overlap lists are recomputed. Post-step: self and
/// wall collisions freeze the clock.
#[verifier::loop_isolation(false)]
pub fn run_fixed_tick(game: &mut Game)
    requires
        old(game).wf(),
        crate::collision::positions_bounded(old(game).arena, crate::POS_LIMIT as int),
        old(game).fruit_events.readable().len() <= usize::MAX,
    ensures
        final(game).wf(),
        crate::collision::positions_bounded(
            final(game).arena,
            crate::POS_LIMIT as int + VEL_LIMIT as int,
        ),
        final(game).head == old(game).head,
        final(game).snek.dir == old(game).snek.dir,
        final(game).last_dir == old(game).snek.dir,
        final(game).head_vel() == old(game).head_vel(),
        final(game).head_pos().x == old(game).head_pos().x + old(game).head_vel().x,
        final(game).head_pos().y == old(game).head_pos().y + old(game).head_vel().y,
        final(game).head_pos().z == old(game).head_pos().z + old(game).head_vel().z,
        final(game).segs().len() == old(game).segs().len() + old(game).fruit_events.readable().len(),
        seg_vels(*final(game)) == shifted(
            old(game).head_vel(),
            seg_vels(*old(game)) + zero_vels(old(game).fruit_events.readable().len()),
            (if old(game).head_vel() != (Vec3i { x: 0, y: 0, z: 0 }) {
                1nat
            } else {
                0nat
            }),
        ),
        final(game).clock.accum_ns == old(game).clock.accum_ns,
        final(game).clock.step_ns == (if wall_out(final(game).head_pos()) || (exists|t: int|
            3 <= t < final(game).segs().len() && #[trigger] self_hit(*final(game), t)) {
            FREEZE_NS
        } else {
            sped_up(old(game).clock.step_ns, old(game).fruit_events.readable().len())
        }),
        final(game).movement_events.previous@ == Seq::<MovementEvent>::empty(),
        final(game).movement_events.current@ == crate::movement::movement_events_upto(
            old(game).arena,
            old(game).arena.slots@.len() as int,
        ),
        final(game).fruit_events.previous@ == Seq::<FruitEatenEvent>::empty(),
{
    let ghost g0 = *old(game);
    let n_slots: usize = game.arena.slot_count();

    // Pre-step phase.
    crate::events::my_event_manager(&mut game.movement_events);
    crate::movement::update_position(&mut game.arena, &mut game.movement_events);
    proof {
        assert(game.arena.is_live(g0.head));
        assert forall|i: int| 0 <= i < game.segs().len() implies game.arena.is_live(
            #[trigger] game.segs()[i],
        ) && game.arena.data_of(game.segs()[i]).kind == EntityKind::Segment
            && game.arena.data_of(game.segs()[i]).vel is Some by {
            assert(g0.arena.is_live(g0.segs()[i]));
        }
        assert forall|id3: EntityId| #[trigger] crate::collision::has_collider(game.arena, id3)
            implies 0 <= crate::collision::radius_of(game.arena, id3)
            <= crate::vec3::COORD_LIMIT by {
            assert(g0.arena.is_live(id3));
            assert(crate::collision::has_collider(g0.arena, id3));
        }
        assert(game.wf());
    }
    let ghost g1 = *game;

    // Step phase.
    update_last_dir(game);
    let _replacements = crate::fruit::spawn_fruit(game);
    let ghost g2 = *game;
    add_child(game);
    let ghost g3 = *game;
    proof {
        assert(game.head_pos() == g1.head_pos());
        assert(game.head_vel() == g1.head_vel());
        assert(game.segs().len() == g0.segs().len() + g0.fruit_events.readable().len());
    }
    move_children(game);
    let ghost g4 = *game;
    proof {
        assert(game.arena.data_of(game.head) == g3.arena.data_of(g3.head));
        assert forall|id: EntityId| #[trigger] game.arena.is_live(id)
            implies game.arena.data_of(id).pos.within(
            crate::POS_LIMIT as int + VEL_LIMIT as int,
        ) by {
            assert(g3.arena.is_live(id));
            if g2.arena.is_live(id) {
                if g1.arena.is_live(id) {
                    if g0.arena.is_live(id) {
                    } else {
                        assert(crate::fruit::fruit_shaped(g2.arena.data_of(id)));
                    }
                } else {
                    assert(crate::fruit::fruit_shaped(g2.arena.data_of(id)));
                }
            } else {
                assert(exists|t: int|
                    g2.segs().len() <= t < g3.segs().len() && g3.segs()[t] == id);
                let t = choose|t: int|
                    g2.segs().len() <= t < g3.segs().len() && g3.segs()[t] == id;
                assert(g3.arena.data_of(id).pos == (if g2.segs().len() == 0 {
                    g2.head_pos()
                } else {
                    g2.seg_pos(g2.segs().len() - 1)
                }));
                assert(g2.arena.is_live(g2.head));
                if g2.segs().len() > 0 {
                    assert(g2.arena.is_live(g2.segs()[g2.segs().len() - 1]));
                }
            }
        }
        assert(crate::collision::positions_bounded(
            game.arena,
            crate::vec3::COORD_LIMIT as int,
        ));
    }
    fruit_collision(game);
    let ghost g5 = *game;
    proof {
        assert(game.arena.is_live(game.head) && game.arena.data_of(game.head) == g4.arena.data_of(
            g4.head,
        ));
        assert(crate::collision::positions_bounded(game.arena, crate::vec3::COORD_LIMIT as int));
    }
    crate::collision::collision_detection(&mut game.arena);
    proof {
        assert(g5.arena.is_live(g5.head));
        assert(game.arena.is_live(game.head));
        assert(game.arena.data_of(game.head).kind == EntityKind::Head);
        assert(game.arena.data_of(game.head).vel == g5.arena.data_of(g5.head).vel);
        assert(game.arena.data_of(game.head).pos == g5.arena.data_of(g5.head).pos);
        assert forall|i: int| 0 <= i < game.segs().len() implies game.arena.is_live(
            #[trigger] game.segs()[i],
        ) && game.arena.data_of(game.segs()[i]).kind == EntityKind::Segment
            && game.arena.data_of(game.segs()[i]).vel is Some
            && game.arena.data_of(game.segs()[i]).pos == g5.arena.data_of(
            g5.segs()[i],
        ).pos by {
            assert(g5.arena.is_live(g5.segs()[i]));
        }
        assert forall|id: EntityId| #[trigger] game.arena.is_live(id) && game.arena.data_of(
            id,
        ).vel is Some implies game.arena.data_of(id).vel->0.within(VEL_LIMIT as int) by {
            assert(g5.arena.is_live(id));
        }
        assert forall|id3: EntityId| #[trigger] crate::collision::has_collider(game.arena, id3)
            implies 0 <= crate::collision::radius_of(game.arena, id3)
            <= crate::vec3::COORD_LIMIT by {
            assert(g5.arena.is_live(id3));
            assert(crate::collision::has_collider(g5.arena, id3));
        }
        assert(game.wf());
        assert forall|id: EntityId| #[trigger] game.arena.is_live(id)
            implies game.arena.data_of(id).pos.within(
            crate::POS_LIMIT as int + VEL_LIMIT as int,
        ) by {
            assert(g5.arena.is_live(id));
        }
    }

    // Post-step phase.
    let ghost g6 = *game;
    self_collision(game);
    wall_collision(game);
    proof {
        assert(game.segs() == g6.segs());
        assert forall|t: int| 3 <= t < game.segs().len() implies #[trigger] self_hit(*game, t)
            == self_hit(g6, t) by {
            assert(game.head_pos() == g6.head_pos());
            assert(game.seg_pos(t) == g6.seg_pos(t));
        }
        if exists|t: int| 3 <= t < game.segs().len() && #[trigger] self_hit(*game, t) {
            let t = choose|t: int| 3 <= t < game.segs().len() && self_hit(*game, t);
            assert(self_hit(g6, t));
        }
        if exists|t: int| 3 <= t < g6.segs().len() && #[trigger] self_hit(g6, t) {
            let t = choose|t: int| 3 <= t < g6.segs().len() && self_hit(g6, t);
            assert(self_hit(*game, t));
        }

        // Step-level relay: the batch named the head exactly once if it
        // moved, and the chain it shifted was the old chain plus the
        // zero-velocity tail the growth rule appended.
        let n0 = n_slots as int;
        assert(n0 == g0.arena.slots@.len());
        let k = g0.fruit_events.readable().len();
        assert(g3.movement_events == g1.movement_events);
        assert(g3.movement_events.readable() =~= crate::movement::movement_events_upto(
            g0.arena,
            n0,
        ));
        lemma_head_count_of_movers(g0.arena, g0.head, n0);
        assert(crate::movement::entity_moves(g0.arena, g0.head) == (g0.head_vel() != (Vec3i {
            x: 0,
            y: 0,
            z: 0,
        })));
        assert forall|i: int| 0 <= i < g0.segs().len() implies g3.seg_vel(i) == g0.seg_vel(
            i,
        ) by {
            assert(g0.arena.is_live(g0.segs()[i]));
            assert(g1.arena.is_live(g0.segs()[i]));
            assert(g2.arena.is_live(g0.segs()[i]));
            assert(g3.segs()[i] == g0.segs()[i]);
        }
        assert forall|i: int| g0.segs().len() <= i < g3.segs().len() implies g3.seg_vel(i)
            == (Vec3i { x: 0, y: 0, z: 0 }) by {}
        assert(seg_vels(g3) =~= seg_vels(g0) + zero_vels(k));
        assert(seg_vels(g4) == shifted(
            g0.head_vel(),
            seg_vels(g0) + zero_vels(k),
            (if g0.head_vel() != (Vec3i { x: 0, y: 0, z: 0 }) {
                1nat
            } else {
                0nat
            }),
        ));
        assert forall|i: int| 0 <= i < game.segs().len() implies game.seg_vel(i) == g4.seg_vel(
            i,
        ) by {
            assert(g4.arena.is_live(g4.segs()[i]));
            assert(g5.arena.is_live(g4.segs()[i]));
            assert(g5.arena.data_of(g5.segs()[i]) == g4.arena.data_of(g4.segs()[i]));
        }
        assert(seg_vels(*game) =~= seg_vels(g4));
    }
}

/// One real-time frame: this frame's pressed keys are applied to the head,
/// the clock accumulates the elapsed time, and at most one fixed step runs
/// if the accumulator reached the step duration. When no step fires — in
/// particular once the clock is frozen — no entity moves.
pub fn frame(game: &mut Game, pressed: &Vec<Key>, elapsed_ns: u64) -> (fired: bool)
    requires
        old(game).wf(),
        crate::collision::positions_bounded(old(game).arena, crate::POS_LIMIT as int),
        old(game).clock.accum_ns + elapsed_ns <= u64::MAX,
        old(game).fruit_events.readable().len() <= usize::MAX,
    ensures
        final(game).wf(),
        fired == old(game).clock.fires(elapsed_ns),
        final(game).head == old(game).head,
        final(game).clock.accum_ns == old(game).clock.after_frame(elapsed_ns).accum_ns,
        !fired ==> {
            &&& final(game).clock == old(game).clock.after_frame(elapsed_ns)
            &&& final(game).snek.children == old(game).snek.children
            &&& final(game).last_dir == old(game).last_dir
            &&& old(game).arena.same_live(final(game).arena)
            &&& forall|id: EntityId| #[trigger] old(game).arena.is_live(id) ==> final(game).arena.data_of(id).pos == old(game).arena.data_of(id).pos
            &&& final(game).movement_events == old(game).movement_events
            &&& final(game).fruit_events == old(game).fruit_events
        },
        fired ==> ({
            let folded = fold_keys(
                old(game).snek.dir,
                old(game).head_vel(),
                old(game).last_dir,
                pressed@,
            );
            &&& final(game).snek.dir == folded.0
            &&& final(game).last_dir == folded.0
            &&& final(game).head_vel() == folded.1
            &&& final(game).head_pos().x == old(game).head_pos().x + folded.1.x
            &&& final(game).head_pos().y == old(game).head_pos().y + folded.1.y
            &&& final(game).head_pos().z == old(game).head_pos().z + folded.1.z
            &&& final(game).segs().len() == old(game).segs().len() + old(
                game,
            ).fruit_events.readable().len()
        }),
        fired ==> crate::collision::positions_bounded(
            final(game).arena,
            crate::POS_LIMIT as int + VEL_LIMIT as int,
        ),
{
    handle_snek_input(game, pressed);
    let fired = game.clock.advance(elapsed_ns);
    if fired {
        run_fixed_tick(game);
    }
    fired
}

/// Despawn the head and, cascading, every segment it owns: segment
/// lifetime is tied to head lifetime, so no dangling segment survives.
/// The game no longer holds a live head afterwards; every other entity is
/// untouched.
#[verifier::loop_isolation(false)]
pub fn despawn_snek(game: &mut Game)
    requires
        old(game).wf(),
    ensures
        !final(game).arena.is_live(old(game).head),
        final(game).segs().len() == 0,
        forall|id: EntityId| #[trigger] final(game).arena.is_live(id) <==> (old(game).arena.is_live(id) && id != old(game).head && !old(game).segs().contains(id)),
        forall|id: EntityId| #[trigger] final(game).arena.is_live(id) ==> final(game).arena.data_of(id) == old(game).arena.data_of(id),
        final(game).head == old(game).head,
        final(game).last_dir == old(game).last_dir,
        final(game).clock == old(game).clock,
        final(game).movement_events == old(game).movement_events,
        final(game).fruit_events == old(game).fruit_events,
{
    let ghost g0 = *old(game);
    game.arena.despawn(game.head);
    let m: usize = game.snek.children.len();
    let mut i: usize = 0;
    while i < m
        invariant
            0 <= i <= m,
            m == game.segs().len(),
            game.head == g0.head,
            game.snek == g0.snek,
            game.last_dir == g0.last_dir,
            game.clock == g0.clock,
            game.movement_events == g0.movement_events,
            game.fruit_events == g0.fruit_events,
            forall|t: int| 0 <= t < g0.segs().len() ==> {
                &&& g0.arena.is_live(#[trigger] g0.segs()[t])
                &&& g0.segs()[t] != g0.head
            },
            forall|t: int, u: int| 0 <= t < u < g0.segs().len() ==> g0.segs()[t]
                != g0.segs()[u],
            forall|id: EntityId| #[trigger] game.arena.is_live(id) <==> (g0.arena.is_live(id)
                && id != g0.head && !(exists|t: int|
                0 <= t < i && g0.segs()[t] == id)),
            forall|id: EntityId| #[trigger] game.arena.is_live(id) ==> game.arena.data_of(id)
                == g0.arena.data_of(id),
        decreases m - i,
    {
        let ghost a_prev = game.arena;
        let seg = game.snek.children[i];
        proof {
            assert(a_prev.is_live(seg));
        }
        game.arena.despawn(seg);
        proof {
            assert forall|id: EntityId| #[trigger] game.arena.is_live(id) <==> (
                g0.arena.is_live(id) && id != g0.head && !(exists|t: int|
                0 <= t < i + 1 && g0.segs()[t] == id)) by {
                if game.arena.is_live(id) {
                    assert(a_prev.is_live(id));
                    assert(id != seg);
                    if exists|t: int| 0 <= t < i + 1 && g0.segs()[t] == id {
                        let t = choose|t: int| 0 <= t < i + 1 && g0.segs()[t] == id;
                        assert(t == i ==> id == seg);
                        assert(exists|t2: int| 0 <= t2 < i && g0.segs()[t2] == id);
                        assert(!a_prev.is_live(id));
                    }
                }
                if g0.arena.is_live(id) && id != g0.head && !(exists|t: int|
                    0 <= t < i + 1 && g0.segs()[t] == id) {
                    assert(!(exists|t: int| 0 <= t < i && g0.segs()[t] == id));
                    assert(a_prev.is_live(id));
                    assert(g0.segs()[i as int] != id);
                    assert(id != seg);
                }
            }
        }
        i = i + 1;
    }
    game.snek.children = Vec::new();
    proof {
        assert forall|id: EntityId| #[trigger] game.arena.is_live(id) <==> (g0.arena.is_live(
            id,
        ) && id != g0.head && !g0.segs().contains(id)) by {
            if g0.segs().contains(id) {
                let t = choose|t: int| 0 <= t < g0.segs().len() && g0.segs()[t] == id;
                assert(exists|t2: int| 0 <= t2 < m && g0.segs()[t2] == id);
            }
            if exists|t: int| 0 <= t < m && g0.segs()[t] == id {
                let t = choose|t: int| 0 <= t < m && g0.segs()[t] == id;
                assert(g0.segs().contains(id));
            }
        }
    }
}

/// The other death rule, driven by recomputed overlap lists: if any
/// segment's overlap list names the head, the head is despawned, and with
/// it — cascading — the whole chain. Reports whether that happened.
#[verifier::loop_isolation(false)]
pub fn snek_collision(game: &mut Game) -> (dead: bool)
    requires
        old(game).wf(),
    ensures
        dead == (exists|i: int|
            0 <= i < old(game).segs().len() && crate::collision::in_overlaps(
                old(game).arena,
                #[trigger] old(game).segs()[i],
                old(game).head,
            )),
        !dead ==> *final(game) == *old(game),
        dead ==> {
            &&& !final(game).arena.is_live(old(game).head)
            &&& final(game).segs().len() == 0
            &&& forall|id: EntityId| #[trigger] final(game).arena.is_live(id) <==> (old(game).arena.is_live(id) && id != old(game).head && !old(game).segs().contains(id))
            &&& forall|id: EntityId| #[trigger] final(game).arena.is_live(id) ==> final(game).arena.data_of(id) == old(game).arena.data_of(id)
        },
{
    let m: usize = game.snek.children.len();
    let mut hit: bool = false;
    let mut i: usize = 0;
    while i < m
        invariant
            0 <= i <= m,
            *game == *old(game),
            m == game.segs().len(),
            hit == (exists|t: int|
                0 <= t < i && crate::collision::in_overlaps(
                    game.arena,
                    #[trigger] game.segs()[t],
                    game.head,
                )),
        decreases m - i,
    {
        let seg = game.snek.children[i];
        let d = game.arena.get(seg).unwrap();
        match &d.collider {
            Some(c) => {
                if crate::collision::contains_id(&c.colliding_entities, game.head) {
                    proof {
                        assert(crate::collision::in_overlaps(
                            game.arena,
                            game.segs()[i as int],
                            game.head,
                        ));
                    }
                    hit = true;
                }
            },
            None => {},
        }
        i = i + 1;
    }
    if hit {
        despawn_snek(game);
    }
    hit
}

/// Record the direction the head actually holds as the last accepted one;
/// next frame's inputs are judged against it.
pub fn update_last_dir(game: &mut Game)
    ensures
        final(game).last_dir == old(game).snek.dir,
        final(game).arena == old(game).arena,
        final(game).head == old(game).head,
        final(game).snek == old(game).snek,
        final(game).clock == old(game).clock,
        final(game).movement_events == old(game).movement_events,
        final(game).fruit_events == old(game).fruit_events,
{
    game.last_dir = game.snek.dir;
}

} // verus!
