use vstd::prelude::*;

use crate::animation::{animations_of, elapsed, has_pair, select_and_tick, Animations};
use crate::dialogbox::DialogTree;
use crate::cell::grid_fits;
use crate::map::{tagged, TileMap};
use crate::tileset::{Tileset, TilesetError};
use crate::entity::{Action, Entity, MAX_SPEED};
use crate::math::{abs, isqrt, random_below, sqrt_floor, Point};

verus! {

/// The kinds of character on the map.
#[derive(Clone, Copy, Debug, PartialEq, Eq, Structural)]
pub enum Character {
    Player,
    Peasant,
}

/// The name a character goes by in content files and spawn tags.
pub open spec fn character_name(c: Character) -> Seq<char> {
    match c {
        Character::Player => "player"@,
        Character::Peasant => "peasant"@,
    }
}

impl Character {
    pub fn to_str(&self) -> (r: &'static str)
        ensures
            r@ == character_name(*self),
    {
        match self {
            Character::Player => {
                proof {
                    reveal_strlit("player");
                }
                "player"
            },
            Character::Peasant => {
                proof {
                    reveal_strlit("peasant");
                }
                "peasant"
            },
        }
    }
}

/// What an NPC is up to.
#[derive(Clone, Copy, Debug, PartialEq, Eq, Structural)]
pub enum Behavior {
    /// In a conversation; stands still.
    Talking,
    /// Idle since the given time, in milliseconds.
    Waiting(u64),
    /// Walking to a target, once one has been picked.
    Wandering(Option<Point>),
}

/// How an NPC wanders: how far from its spawn point it picks targets, how
/// close counts as arrived, and how long it rests, in milliseconds.
#[derive(Clone, Copy, Debug, PartialEq, Eq, Structural)]
pub struct WanderConfig {
    pub radius: i32,
    pub reach: i32,
    pub wait_time: u64,
}

pub open spec fn config_wf(c: WanderConfig) -> bool {
    0 <= c.radius <= MAX_SPEED && 1 <= c.reach
}

/// The squared distance between two points.
pub open spec fn dist2(a: Point, b: Point) -> int {
    (a.x - b.x) * (a.x - b.x) + (a.y - b.y) * (a.y - b.y)
}

/// Whether a disk of `radius` round `p` stays within the integer range.
pub open spec fn disk_fits(p: Point, radius: int) -> bool {
    &&& i32::MIN <= p.x - radius
    &&& p.x + radius <= i32::MAX
    &&& i32::MIN <= p.y - radius
    &&& p.y + radius <= i32::MAX
}

/// Half the height of the chord of a disk of `radius` at x offset
/// `u - radius`: how far y may stray when x is drawn as `u` from
/// `[0, 2 * radius]`.
pub open spec fn chord_spec(radius: int, u: int) -> int {
    sqrt_floor(radius * radius - (u - radius) * (u - radius))
}

/// The point that the draws `u` (for x) and `v` (for y) select round
/// `origin`: x offset `u - radius`, y offset `v - chord`.
pub open spec fn nearby_spec(origin: Point, radius: int, u: int, v: int) -> Point {
    Point {
        x: (origin.x + u - radius) as i32,
        y: (origin.y + v - chord_spec(radius, u)) as i32,
    }
}

/// Computes `chord_spec`.
pub fn chord(radius: i32, u: u128) -> (m: u64)
    requires
        0 <= radius <= MAX_SPEED,
        u <= 2 * radius,
    ensures
        m == chord_spec(radius as int, u as int),
        m <= radius,
        (u - radius) * (u - radius) + m * m <= radius * radius,
{
    let r = radius as i64;
    let dx: i64 = u as i64 - r;
    assert(dx * dx <= r * r) by (nonlinear_arith)
        requires
            -r <= dx <= r,
    ;
    assert(r * r <= 0x1000_0000 * 0x1000_0000) by (nonlinear_arith)
        requires
            0 <= r <= 0x1000_0000,
    ;
    assert(0x1000_0000int * 0x1000_0000int == 0x100_0000_0000_0000int) by (nonlinear_arith);
    assert(0 <= dx * dx) by (nonlinear_arith);
    let room: u64 = (r * r - dx * dx) as u64;
    let m = isqrt(room);
    assert(m <= r) by (nonlinear_arith)
        requires
            m * m <= room,
            room <= r * r,
            r >= 0,
            m >= 0,
    ;
    m
}

/// The point that the draws `u` and `v` select: x offset `u - radius`,
/// then y offset `v - chord(radius, u)`, which keeps the point in the disk.
pub fn nearby_point(origin: Point, radius: i32, u: u128, v: u128) -> (r: Point)
    requires
        0 <= radius <= MAX_SPEED,
        disk_fits(origin, radius as int),
        u <= 2 * radius,
        v <= 2 * chord_spec(radius as int, u as int),
    ensures
        r == nearby_spec(origin, radius as int, u as int, v as int),
        dist2(r, origin) <= radius * radius,
{
    let m = chord(radius, u);
    let dx: i64 = u as i64 - radius as i64;
    let dy: i64 = v as i64 - m as i64;
    assert(dy * dy <= m * m) by (nonlinear_arith)
        requires
            -m <= dy <= m,
    ;
    assert(m <= radius);
    let r = Point { x: (origin.x as i64 + dx) as i32, y: (origin.y as i64 + dy) as i32 };
    assert(dist2(r, origin) == dx * dx + dy * dy);
    assert(dx * dx + m * m <= radius * radius);
    r
}

/// A point at most `within_radius` from `origin`. The x offset is drawn
/// uniformly from `[-radius, radius]`, then the y offset uniformly from the
/// chord of the disk at that x. This keeps targets in the disk without
/// trigonometry; it is neither the polar sampling with a linearly scaled
/// radius nor an area-uniform one.
pub fn random_nearby_point(origin: Point, within_radius: i32) -> (r: Point)
    requires
        0 <= within_radius <= MAX_SPEED,
        disk_fits(origin, within_radius as int),
    ensures
        dist2(r, origin) <= within_radius * within_radius,
        exists|u: int, v: int|
            0 <= u <= 2 * within_radius && 0 <= v <= 2 * chord_spec(within_radius as int, u) && r
                == #[trigger] nearby_spec(origin, within_radius as int, u, v),
{
    let u = random_below(0, 2 * within_radius as u128 + 1);
    let m = chord(within_radius, u);
    let v = random_below(0, 2 * m as u128 + 1);
    let r = nearby_point(origin, within_radius, u, v);
    assert(r == nearby_spec(origin, within_radius as int, u as int, v as int));
    r
}

/// The action that heads from `p` to `t`, or `None` once `p` is within
/// `reach` of `t` on both axes. Within reach on one axis, it moves along
/// the other; otherwise diagonally.
pub open spec fn steer(p: Point, t: Point, reach: int) -> Option<Action> {
    let near_x = abs(p.x - t.x) < reach;
    let near_y = abs(p.y - t.y) < reach;
    if near_x && near_y {
        None
    } else if near_x {
        Some(if p.y > t.y { Action::MovingUp } else { Action::MovingDown })
    } else if near_y {
        Some(if p.x > t.x { Action::MovingLeft } else { Action::MovingRight })
    } else if p.x > t.x {
        Some(if p.y > t.y { Action::MovingUpLeft } else { Action::MovingDownLeft })
    } else {
        Some(if p.y > t.y { Action::MovingUpRight } else { Action::MovingDownRight })
    }
}

/// Decides the action toward a target.
pub fn steer_toward(p: Point, t: Point, reach: i32) -> (r: Option<Action>)
    ensures
        r == steer(p, t, reach as int),
{
    let dx: i64 = p.x as i64 - t.x as i64;
    let dy: i64 = p.y as i64 - t.y as i64;
    let near_x = (if dx < 0 { -dx } else { dx }) < reach as i64;
    let near_y = (if dy < 0 { -dy } else { dy }) < reach as i64;
    if near_x && near_y {
        None
    } else if near_x {
        Some(if p.y > t.y { Action::MovingUp } else { Action::MovingDown })
    } else if near_y {
        Some(if p.x > t.x { Action::MovingLeft } else { Action::MovingRight })
    } else if p.x > t.x {
        Some(if p.y > t.y { Action::MovingUpLeft } else { Action::MovingDownLeft })
    } else {
        Some(if p.y > t.y { Action::MovingUpRight } else { Action::MovingDownRight })
    }
}

/// One tick of the behaviour at `now`, given the entity and a freshly
/// drawn `target` to use wherever a new one is needed; the result is the
/// entity and the behaviour afterwards.
pub open spec fn step_spec(
    e: Entity,
    b: Behavior,
    c: WanderConfig,
    now: u64,
    target: Point,
) -> (Entity, Behavior) {
    match b {
        Behavior::Wandering(None) => (e, Behavior::Wandering(Some(target))),
        Behavior::Wandering(Some(t)) => match steer(e.position, t, c.reach as int) {
            None => (Entity { action: Action::IdleRight, ..e }, Behavior::Waiting(now)),
            Some(a) => {
                let turned = Entity { action: a, ..e };
                (Entity { position: turned.moved(), ..turned }, b)
            },
        },
        Behavior::Waiting(start) => if elapsed(start, now) > c.wait_time {
            (e, Behavior::Wandering(Some(target)))
        } else {
            (e, b)
        },
        Behavior::Talking => (e, b),
    }
}

/// Whether `t` could be drawn as a target round the NPC's spawn point.
pub open spec fn drawn_target(n: NPC, t: Point) -> bool {
    dist2(t, n.entity.spawn) <= n.wander.radius * n.wander.radius
}

/// Whether `new` is NPC `old` after one tick at `now`: the behaviour step
/// with some target within the wander radius, and the animation following
/// the action.
pub open spec fn npc_ticked(old: NPC, new: NPC, now: u64) -> bool {
    &&& new.wf()
    &&& exists|target: Point|
        drawn_target(old, target) && (new.entity, new.behavior) == #[trigger] step_spec(
            old.entity,
            old.behavior,
            old.wander,
            now,
            target,
        )
    &&& select_and_tick(old.animations@, new.entity.action, now, new.animations@)
    &&& new.wander == old.wander
    &&& new.character == old.character
    &&& new.dialogtree@ == old.dialogtree@
}

/// A non-player character that wanders round its spawn point, rests, and
/// can be talked to.
pub struct NPC {
    pub entity: Entity,
    pub behavior: Behavior,
    pub animations: Animations,
    pub dialogtree: DialogTree,
    pub character: Character,
    pub wander: WanderConfig,
}

impl NPC {
    /// The entity fits its map, the disk round the spawn point fits the
    /// integer range, and any target lies within the wander radius.
    pub open spec fn wf(&self) -> bool {
        &&& self.entity.wf()
        &&& config_wf(self.wander)
        &&& disk_fits(self.entity.spawn, self.wander.radius as int)
        &&& self.dialogtree@.contains_key(0)
        &&& (self.behavior matches Behavior::Wandering(Some(t)) ==> dist2(t, self.entity.spawn)
            <= self.wander.radius * self.wander.radius)
    }

    /// A target, once picked, lies within the wander radius of the spawn
    /// point; the entity stays well formed.
    pub proof fn lemma_target_in_radius(&self)
        requires
            self.wf(),
        ensures
            self.entity.wf(),
            config_wf(self.wander),
            self.behavior matches Behavior::Wandering(Some(t)) ==> dist2(t, self.entity.spawn)
                <= self.wander.radius * self.wander.radius,
    {
    }

    /// An NPC at `spawn` that has not yet picked a target.
    pub fn new(
        character: Character,
        dialogtree: DialogTree,
        animations: Animations,
        spawn: Point,
        map_dimensions: (i32, i32),
        size: (i32, i32),
        speed: i32,
        wander: WanderConfig,
    ) -> (r: NPC)
        requires
            0 <= size.0 <= map_dimensions.0,
            0 <= size.1 <= map_dimensions.1,
            0 <= speed <= MAX_SPEED,
            config_wf(wander),
            disk_fits(spawn, wander.radius as int),
            dialogtree@.contains_key(0),
        ensures
            r.wf(),
            r.entity.position == spawn,
            r.entity.spawn == spawn,
            r.entity.action == Action::IdleLeft,
            r.entity.map_dimensions == map_dimensions,
            r.entity.size == size,
            r.entity.speed == speed,
            r.behavior == Behavior::Wandering(None),
            r.wander == wander,
            r.character == character,
            r.dialogtree@ == dialogtree@,
            r.animations@ == animations@,
    {
        NPC {
            character,
            dialogtree,
            entity: Entity::new(spawn, map_dimensions, size, speed),
            behavior: Behavior::Wandering(None),
            animations,
            wander,
        }
    }

    /// An NPC of `character` at each of the map's spawn points for that
    /// character, each with a copy of `dialogtree` and animations from the
    /// tiles of entities `top` and `bottom`.
    pub fn build_npcs(
        character: Character,
        tileset: &Tileset,
        map: &TileMap,
        dialogtree: &DialogTree,
        top: &str,
        bottom: &str,
        size: (i32, i32),
        speed: i32,
        wander: WanderConfig,
        now: u64,
    ) -> (r: Result<Vec<NPC>, TilesetError>)
        requires
            tileset.wf(),
            0 <= size.0 <= map.dimensions.0 * map.cell_size,
            0 <= size.1 <= map.dimensions.1 * map.cell_size,
            grid_fits(map.dimensions.0 as int, map.dimensions.1 as int, map.cell_size as int),
            0 <= speed <= MAX_SPEED,
            config_wf(wander),
            dialogtree@.contains_key(0),
        ensures
            ({
                let points = tagged(map.spawns@, character_name(character));
                let fits = forall|k: int|
                    0 <= k < points.len() ==> disk_fits(#[trigger] points[k], wander.radius as int);
                let pairs = has_pair(tileset@, top@, bottom@, 0) && has_pair(tileset@, top@, bottom@, 1);
                &&& !fits ==> r == Err::<Vec<NPC>, TilesetError>(TilesetError::GridTooLarge)
                &&& fits && points.len() > 0 && !pairs ==> r == Err::<Vec<NPC>, TilesetError>(
                    TilesetError::MissingEntityKeyframe,
                )
                &&& fits && (points.len() == 0 || pairs) ==> (r matches Ok(v) && {
                    &&& v@.len() == points.len()
                    &&& forall|k: int|
                        0 <= k < v@.len() ==> {
                            &&& (#[trigger] v@[k]).wf()
                            &&& v@[k].entity.position == points[k]
                            &&& v@[k].entity.spawn == points[k]
                            &&& v@[k].entity.action == Action::IdleLeft
                            &&& v@[k].entity.map_dimensions == (
                                (map.dimensions.0 * map.cell_size) as i32,
                                (map.dimensions.1 * map.cell_size) as i32,
                            )
                            &&& v@[k].entity.size == size
                            &&& v@[k].entity.speed == speed
                            &&& v@[k].behavior == Behavior::Wandering(None)
                            &&& v@[k].character == character
                            &&& v@[k].wander == wander
                            &&& v@[k].dialogtree@ == dialogtree@
                            &&& animations_of(tileset@, top@, bottom@, now, v@[k].animations@)
                        }
                })
            }),
    {
        let points = map.spawn_points_of(character);
        let dims = map.get_dimensions();
        let ghost fits = forall|k: int|
            0 <= k < points@.len() ==> disk_fits(#[trigger] points@[k], wander.radius as int);
        let mut q: usize = 0;
        while q < points.len()
            invariant
                q <= points@.len(),
                points@ == tagged(map.spawns@, character_name(character)),
                forall|k: int| 0 <= k < q ==> disk_fits(#[trigger] points@[k], wander.radius as int),
            decreases points@.len() - q,
        {
            let p = points[q];
            let rad = wander.radius as i64;
            if (p.x as i64) - rad < i32::MIN as i64 || (p.x as i64) + rad > i32::MAX as i64
                || (p.y as i64) - rad < i32::MIN as i64 || (p.y as i64) + rad > i32::MAX as i64 {
                assert(!disk_fits(points@[q as int], wander.radius as int));
                assert(!disk_fits(tagged(map.spawns@, character_name(character))[q as int], wander.radius as int));
                return Err(TilesetError::GridTooLarge);
            }
            q += 1;
        }
        let mut npcs: Vec<NPC> = Vec::new();
        let mut k: usize = 0;
        while k < points.len()
            invariant
                tileset.wf(),
                k <= points@.len(),
                points@ == tagged(map.spawns@, character_name(character)),
                forall|j: int| 0 <= j < points@.len() ==> disk_fits(#[trigger] points@[j], wander.radius as int),
                dims.0 == map.dimensions.0 * map.cell_size,
                dims.1 == map.dimensions.1 * map.cell_size,
                0 <= size.0 <= dims.0,
                0 <= size.1 <= dims.1,
                0 <= speed <= MAX_SPEED,
                config_wf(wander),
                dialogtree@.contains_key(0),
                k > 0 ==> has_pair(tileset@, top@, bottom@, 0) && has_pair(tileset@, top@, bottom@, 1),
                npcs@.len() == k,
                forall|j: int|
                    0 <= j < k ==> {
                        &&& (#[trigger] npcs@[j]).wf()
                        &&& npcs@[j].entity.position == points@[j]
                        &&& npcs@[j].entity.spawn == points@[j]
                        &&& npcs@[j].entity.action == Action::IdleLeft
                        &&& npcs@[j].entity.map_dimensions == dims
                        &&& npcs@[j].entity.size == size
                        &&& npcs@[j].entity.speed == speed
                        &&& npcs@[j].behavior == Behavior::Wandering(None)
                        &&& npcs@[j].character == character
                        &&& npcs@[j].wander == wander
                        &&& npcs@[j].dialogtree@ == dialogtree@
                        &&& animations_of(tileset@, top@, bottom@, now, npcs@[j].animations@)
                    },
            decreases points@.len() - k,
        {
            let p = points[k];
            let animations = match Animations::new(tileset, top, bottom, now) {
                Ok(a) => a,
                Err(e) => return Err(e),
            };
            let npc = NPC::new(character, dialogtree.clone(), animations, p, dims, size, speed, wander);
            let ghost before = npcs@;
            npcs.push(npc);
            assert forall|j: int| 0 <= j < k + 1 implies {
                &&& (#[trigger] npcs@[j]).wf()
                &&& npcs@[j].entity.position == points@[j]
                &&& npcs@[j].entity.spawn == points@[j]
                &&& npcs@[j].entity.action == Action::IdleLeft
                &&& npcs@[j].entity.map_dimensions == dims
                &&& npcs@[j].entity.size == size
                &&& npcs@[j].entity.speed == speed
                &&& npcs@[j].behavior == Behavior::Wandering(None)
                &&& npcs@[j].character == character
                &&& npcs@[j].wander == wander
                &&& npcs@[j].dialogtree@ == dialogtree@
                &&& animations_of(tileset@, top@, bottom@, now, npcs@[j].animations@)
            } by {
                if j < k {
                    assert(npcs@[j] == before[j]);
                }
            }
            k += 1;
        }
        Ok(npcs)
    }

    /// One tick at `now`, with `target` as the freshly drawn target should
    /// one be needed: the behaviour decides the action, the entity moves
    /// by it, and the animation follows the action.
    pub fn step(&mut self, now: u64, target: Point)
        requires
            old(self).wf(),
            dist2(target, old(self).entity.spawn) <= old(self).wander.radius * old(
                self,
            ).wander.radius,
        ensures
            final(self).wf(),
            (final(self).entity, final(self).behavior) == step_spec(
                old(self).entity,
                old(self).behavior,
                old(self).wander,
                now,
                target,
            ),
            select_and_tick(old(self).animations@, final(self).entity.action, now, final(self).animations@),
            final(self).wander == old(self).wander,
            final(self).character == old(self).character,
            final(self).dialogtree@ == old(self).dialogtree@,
    {
        match self.behavior {
            Behavior::Wandering(None) => {
                self.behavior = Behavior::Wandering(Some(target));
            },
            Behavior::Wandering(Some(t)) => {
                match steer_toward(self.entity.position, t, self.wander.reach) {
                    None => {
                        self.entity.action = Action::IdleRight;
                        self.behavior = Behavior::Waiting(now);
                    },
                    Some(a) => {
                        self.entity.action = a;
                        self.entity.update();
                    },
                }
            },
            Behavior::Waiting(start) => {
                let gone: u64 = if now >= start { now - start } else { 0 };
                if gone > self.wander.wait_time {
                    self.behavior = Behavior::Wandering(Some(target));
                }
            },
            Behavior::Talking => {},
        }
        self.animations.update(self.entity.action, now);
    }

    /// One tick at `now`: as `step`, with a target drawn round the spawn
    /// point. An NPC without a target only picks one, and does not move.
    pub fn update(&mut self, now: u64)
        requires
            old(self).wf(),
        ensures
            npc_ticked(*old(self), *final(self), now),
            old(self).behavior == Behavior::Wandering(None) ==> final(self).entity.position
                == old(self).entity.position,
    {
        let ghost before = *self;
        let target = random_nearby_point(self.entity.spawn, self.wander.radius);
        self.step(now, target);
        assert(drawn_target(before, target) && (self.entity, self.behavior) == step_spec(
            before.entity,
            before.behavior,
            before.wander,
            now,
            target,
        ));
    }

    /// Starts a conversation: the NPC stands still and hands out its
    /// dialog tree.
    pub fn get_dialogtree(&mut self) -> (r: DialogTree)
        requires
            old(self).wf(),
        ensures
            final(self).wf(),
            r@ == old(self).dialogtree@,
            final(self).behavior == Behavior::Talking,
            final(self).character == old(self).character,
            final(self).entity == old(self).entity,
            final(self).animations@ == old(self).animations@,
            final(self).wander == old(self).wander,
            final(self).dialogtree@ == old(self).dialogtree@,
    {
        self.behavior = Behavior::Talking;
        self.dialogtree.clone()
    }

    pub fn is_talking(&self) -> (r: bool)
        ensures
            r == (self.behavior == Behavior::Talking),
    {
        self.behavior == Behavior::Talking
    }

    /// Ends a conversation: the NPC wanders off to a target drawn round its
    /// spawn point.
    pub fn stop_talking(&mut self)
        requires
            old(self).wf(),
        ensures
            final(self).wf(),
            final(self).behavior matches Behavior::Wandering(Some(_)),
            final(self).entity == old(self).entity,
            final(self).animations@ == old(self).animations@,
            final(self).wander == old(self).wander,
            final(self).dialogtree@ == old(self).dialogtree@,
    {
        let target = random_nearby_point(self.entity.spawn, self.wander.radius);
        self.behavior = Behavior::Wandering(Some(target));
    }
}

} // verus!
