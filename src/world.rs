use vstd::prelude::*;

use crate::cell::grid_fits;
use crate::dialogbox::DialogTree;
use crate::animation::select_and_tick;
use crate::map::{map_ticked, TileMap};
use crate::math::Point;
use crate::npc::{dist2, npc_ticked, Behavior, NPC};
use crate::player::{KeyCode, Player};

verus! {

/// Whether `p` and `q` are closer than `reach`.
pub open spec fn near(p: Point, q: Point, reach: int) -> bool {
    dist2(p, q) < reach * reach
}

/// Whether `a` and `b` are within `reach` of each other.
pub fn within(a: Point, b: Point, reach: i32) -> (r: bool)
    ensures
        r == near(a, b, reach as int),
{
    let dx: i128 = a.x as i128 - b.x as i128;
    let dy: i128 = a.y as i128 - b.y as i128;
    assert(dx * dx <= 0x1_0000_0000_0000_0000) by (nonlinear_arith)
        requires
            -0x1_0000_0000 <= dx <= 0x1_0000_0000,
    ;
    assert(dy * dy <= 0x1_0000_0000_0000_0000) by (nonlinear_arith)
        requires
            -0x1_0000_0000 <= dy <= 0x1_0000_0000,
    ;
    assert(0 <= dx * dx && 0 <= dy * dy) by (nonlinear_arith);
    assert(reach * reach <= 0x1_0000_0000_0000_0000) by (nonlinear_arith)
        requires
            -0x1_0000_0000 <= reach <= 0x1_0000_0000,
    ;
    let sx: i128 = dx * dx;
    let sy: i128 = dy * dy;
    let r128: i128 = reach as i128;
    assert(0 <= r128 * r128) by (nonlinear_arith);
    let rr: i128 = r128 * r128;
    sx + sy < rr
}

/// Whether NPC `k` is the first within reach of the player.
pub open spec fn is_first_in_reach(w: World, k: int) -> bool {
    &&& 0 <= k < w.npcs@.len()
    &&& near(w.player.entity.position, w.npcs@[k].entity.position, w.reach as int)
    &&& forall|j: int|
        0 <= j < k ==> !near(w.player.entity.position, (#[trigger] w.npcs@[j]).entity.position, w.reach as int)
}

/// Whether `new` is NPC `old` drawn into a conversation: talking, and
/// otherwise unchanged.
pub open spec fn talking_to(old: NPC, new: NPC) -> bool {
    &&& new.behavior == Behavior::Talking
    &&& new.wf()
    &&& new.entity == old.entity
    &&& new.animations@ == old.animations@
    &&& new.wander == old.wander
    &&& new.character == old.character
    &&& new.dialogtree@ == old.dialogtree@
}

/// Everything on the map: the map itself, the player and the NPCs, with
/// the distance within which the player can talk to an NPC.
pub struct World {
    pub map: TileMap,
    pub player: Player,
    pub npcs: Vec<NPC>,
    pub reach: i32,
}

impl World {
    pub open spec fn wf(&self) -> bool {
        &&& self.player.entity.wf()
        &&& forall|k: int| 0 <= k < self.npcs@.len() ==> (#[trigger] self.npcs@[k]).wf()
    }

    pub fn new(map: TileMap, player: Player, npcs: Vec<NPC>, reach: i32) -> (r: World)
        ensures
            r.map == map,
            r.player == player,
            r.npcs@ == npcs@,
            r.reach == reach,
    {
        World { map, player, npcs, reach }
    }

    /// The first NPC within reach of the player, if any.
    pub fn npc_in_range(&self) -> (r: Option<usize>)
        ensures
            match r {
                Some(k) => k < self.npcs@.len() && near(
                    self.player.entity.position,
                    self.npcs@[k as int].entity.position,
                    self.reach as int,
                ) && forall|j: int|
                    0 <= j < k ==> !near(
                        self.player.entity.position,
                        (#[trigger] self.npcs@[j]).entity.position,
                        self.reach as int,
                    ),
                None => forall|j: int|
                    0 <= j < self.npcs@.len() ==> !near(
                        self.player.entity.position,
                        (#[trigger] self.npcs@[j]).entity.position,
                        self.reach as int,
                    ),
            },
    {
        let p = self.player.entity.position;
        let mut k: usize = 0;
        while k < self.npcs.len()
            invariant
                k <= self.npcs@.len(),
                p == self.player.entity.position,
                forall|j: int|
                    0 <= j < k ==> !near(p, (#[trigger] self.npcs@[j]).entity.position, self.reach as int),
            decreases self.npcs@.len() - k,
        {
            if within(p, self.npcs[k].entity.position, self.reach) {
                return Some(k);
            }
            k += 1;
        }
        None
    }

    /// Whether some NPC is within reach of the player.
    pub fn player_in_talking_range(&self) -> (r: bool)
        ensures
            r == exists|j: int|
                0 <= j < self.npcs@.len() && near(
                    self.player.entity.position,
                    (#[trigger] self.npcs@[j]).entity.position,
                    self.reach as int,
                ),
    {
        match self.npc_in_range() {
            Some(k) => {
                assert(near(self.player.entity.position, self.npcs@[k as int].entity.position, self.reach as int));
                true
            },
            None => false,
        }
    }

    /// Starts a conversation with the first NPC within reach of the player
    /// and hands out its dialog tree; `None` if no NPC is within reach.
    pub fn get_dialogtree(&mut self) -> (r: Option<DialogTree>)
        requires
            old(self).wf(),
        ensures
            final(self).wf(),
            final(self).npcs@.len() == old(self).npcs@.len(),
            final(self).player == old(self).player,
            final(self).map == old(self).map,
            final(self).reach == old(self).reach,
            match r {
                Some(t) => exists|k: int|
                    is_first_in_reach(*old(self), k) && t@ == old(self).npcs@[k].dialogtree@
                        && talking_to(old(self).npcs@[k], #[trigger] final(self).npcs@[k]) && forall|j: int|
                        0 <= j < old(self).npcs@.len() && j != k ==> #[trigger] final(self).npcs@[j]
                            == old(self).npcs@[j],
                None => final(self).npcs@ == old(self).npcs@ && forall|j: int|
                    0 <= j < old(self).npcs@.len() ==> !near(
                        old(self).player.entity.position,
                        (#[trigger] old(self).npcs@[j]).entity.position,
                        old(self).reach as int,
                    ),
            },
    {
        match self.npc_in_range() {
            Some(k) => {
                let ghost before = self.npcs@;
                let mut npc = self.npcs.remove(k);
                let t = npc.get_dialogtree();
                self.npcs.insert(k, npc);
                assert forall|j: int| 0 <= j < self.npcs@.len() implies (#[trigger] self.npcs@[j]).wf() by {
                    if j < k {
                        assert(self.npcs@[j] == before[j]);
                    } else if j > k {
                        assert(self.npcs@[j] == before[j]);
                    }
                }
                assert(is_first_in_reach(*old(self), k as int));
                assert(talking_to(before[k as int], self.npcs@[k as int]));
                assert forall|j: int| 0 <= j < before.len() && j != k implies #[trigger] self.npcs@[j] == before[j] by {
                    if j < k {
                        assert(self.npcs@[j] == before[j]);
                    } else {
                        assert(self.npcs@[j] == before[j]);
                    }
                }
                Some(t)
            },
            None => None,
        }
    }

    /// One tick at `now`: the map's animations, then the player, then
    /// each NPC.
    pub fn update(&mut self, now: u64)
        requires
            old(self).wf(),
        ensures
            final(self).wf(),
            final(self).npcs@.len() == old(self).npcs@.len(),
            final(self).reach == old(self).reach,
            final(self).player.entity == (crate::entity::Entity {
                position: old(self).player.entity.moved(),
                ..old(self).player.entity
            }),
            select_and_tick(
                old(self).player.animations@,
                final(self).player.entity.action,
                now,
                final(self).player.animations@,
            ),
            map_ticked(old(self).map, final(self).map, now),
            forall|k: int|
                0 <= k < old(self).npcs@.len() ==> npc_ticked(
                    old(self).npcs@[k],
                    #[trigger] final(self).npcs@[k],
                    now,
                ),
    {
        self.map.update(now);
        self.player.update(now);
        let mut k: usize = 0;
        while k < self.npcs.len()
            invariant
                k <= self.npcs@.len(),
                forall|j: int| 0 <= j < self.npcs@.len() ==> (#[trigger] self.npcs@[j]).wf(),
                self.player.entity.wf(),
                self.player.entity == (crate::entity::Entity {
                    position: old(self).player.entity.moved(),
                    ..old(self).player.entity
                }),
                self.reach == old(self).reach,
                self.npcs@.len() == old(self).npcs@.len(),
                select_and_tick(
                    old(self).player.animations@,
                    self.player.entity.action,
                    now,
                    self.player.animations@,
                ),
                map_ticked(old(self).map, self.map, now),
                forall|j: int| 0 <= j < k ==> npc_ticked(old(self).npcs@[j], #[trigger] self.npcs@[j], now),
                forall|j: int| k <= j < self.npcs@.len() ==> #[trigger] self.npcs@[j] == old(self).npcs@[j],
            decreases self.npcs@.len() - k,
        {
            let ghost before = self.npcs@;
            let mut npc = self.npcs.remove(k);
            assert(before[k as int] == npc);
            npc.update(now);
            self.npcs.insert(k, npc);
            assert forall|j: int| 0 <= j < self.npcs@.len() implies (#[trigger] self.npcs@[j]).wf() by {
                if j != k {
                    assert(self.npcs@[j] == before[j]);
                }
            }
            assert forall|j: int| 0 <= j < k + 1 implies npc_ticked(old(self).npcs@[j], #[trigger] self.npcs@[j], now) by {
                if j < k {
                    assert(self.npcs@[j] == before[j]);
                }
            }
            assert forall|j: int| k + 1 <= j < self.npcs@.len() implies #[trigger] self.npcs@[j] == old(self).npcs@[j] by {
                assert(self.npcs@[j] == before[j]);
            }
            k += 1;
        }
    }

    pub fn give_key_up(&mut self, keycode: KeyCode)
        ensures
            final(self).player.entity == (crate::entity::Entity {
                action: crate::player::key_up_spec(old(self).player.entity.action, keycode),
                ..old(self).player.entity
            }),
    {
        self.player.give_key_up(keycode);
    }

    pub fn give_key_down(&mut self, keycode: KeyCode)
        ensures
            final(self).player.entity == (crate::entity::Entity {
                action: crate::player::key_down_spec(old(self).player.entity.action, keycode),
                ..old(self).player.entity
            }),
    {
        self.player.give_key_down(keycode);
    }

    /// The map's extent in position units.
    pub fn get_dimensions(&self) -> (r: (i32, i32))
        requires
            grid_fits(self.map.dimensions.0 as int, self.map.dimensions.1 as int, self.map.cell_size as int),
        ensures
            r.0 == self.map.dimensions.0 * self.map.cell_size,
            r.1 == self.map.dimensions.1 * self.map.cell_size,
    {
        self.map.get_dimensions()
    }
}

} // verus!
