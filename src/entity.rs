use vstd::prelude::*;

use crate::math::{abs, isqrt, Point};

verus! {

/// What an entity is doing: facing while idle, or moving in one of eight
/// directions.
#[derive(Clone, Copy, Debug, PartialEq, Eq, Structural, Hash)]
pub enum Action {
    IdleLeft,
    IdleRight,
    MovingUp,
    MovingDown,
    MovingLeft,
    MovingRight,
    MovingUpLeft,
    MovingUpRight,
    MovingDownLeft,
    MovingDownRight,
}

pub open spec fn is_diagonal(a: Action) -> bool {
    match a {
        Action::MovingUpLeft | Action::MovingUpRight | Action::MovingDownLeft
        | Action::MovingDownRight => true,
        _ => false,
    }
}

pub open spec fn is_cardinal(a: Action) -> bool {
    match a {
        Action::MovingUp | Action::MovingDown | Action::MovingLeft | Action::MovingRight => true,
        _ => false,
    }
}

/// The displacement of one tick: `speed` along one axis for a cardinal
/// action, `diagonal` along both for a diagonal one, nothing while idle.
pub open spec fn delta(a: Action, speed: int, diagonal: int) -> (int, int) {
    match a {
        Action::IdleLeft | Action::IdleRight => (0, 0),
        Action::MovingUp => (0, -speed),
        Action::MovingDown => (0, speed),
        Action::MovingLeft => (-speed, 0),
        Action::MovingRight => (speed, 0),
        Action::MovingUpLeft => (-diagonal, -diagonal),
        Action::MovingUpRight => (diagonal, -diagonal),
        Action::MovingDownLeft => (-diagonal, diagonal),
        Action::MovingDownRight => (diagonal, diagonal),
    }
}

/// `v` kept within `[0, limit - size]`.
pub open spec fn clamp(v: int, size: int, limit: int) -> int {
    if v < 0 {
        0
    } else if v + size > limit {
        limit - size
    } else {
        v
    }
}

/// The per-axis step of diagonal motion: the largest `d` with
/// `2 * d * d <= speed * speed`, so that a diagonal step is as long as a
/// cardinal one to within a unit.
pub open spec fn is_diagonal_step(speed: int, d: int) -> bool {
    &&& 0 <= d
    &&& 2 * d * d <= speed * speed
    &&& speed * speed < 2 * (d + 1) * (d + 1)
}

/// Upper bound of a speed, in position units per tick.
pub const MAX_SPEED: i32 = 0x1000_0000;

/// The per-axis step of diagonal motion at `speed`.
pub fn diagonal_step(speed: i32) -> (r: i32)
    requires
        0 <= speed <= MAX_SPEED,
    ensures
        is_diagonal_step(speed as int, r as int),
        r <= speed,
{
    assert(speed * speed <= MAX_SPEED * MAX_SPEED) by (nonlinear_arith)
        requires
            0 <= speed <= MAX_SPEED,
    ;
    let sq: u64 = speed as u64 * speed as u64;
    let d = isqrt(sq / 2);
    assert(2 * d * d <= sq && sq < 2 * (d + 1) * (d + 1)) by (nonlinear_arith)
        requires
            d * d <= sq / 2,
            sq / 2 < (d + 1) * (d + 1),
    ;
    assert(d <= speed) by (nonlinear_arith)
        requires
            2 * d * d <= sq,
            sq == speed * speed,
            speed >= 0,
            d >= 0,
    ;
    d as i32
}

/// A moving thing on the map: where it is, where it started and what it is
/// doing, kept within the map.
#[derive(Clone, Copy, Debug)]
pub struct Entity {
    pub position: Point,
    pub spawn: Point,
    pub action: Action,
    /// Width and height of the map.
    pub map_dimensions: (i32, i32),
    /// Width and height of the entity.
    pub size: (i32, i32),
    /// Units moved per tick along one axis.
    pub speed: i32,
    /// Units moved per tick along each axis when moving diagonally.
    pub diagonal: i32,
}

impl Entity {
    /// The map's extent, the entity's extent and its speeds fit together.
    pub open spec fn wf(&self) -> bool {
        &&& 0 <= self.size.0 <= self.map_dimensions.0
        &&& 0 <= self.size.1 <= self.map_dimensions.1
        &&& 0 <= self.speed <= MAX_SPEED
        &&& is_diagonal_step(self.speed as int, self.diagonal as int)
    }

    /// An idle entity at `spawn` on a map of `map_dimensions`, as large as
    /// `size` and moving `speed` units per tick.
    pub fn new(spawn: Point, map_dimensions: (i32, i32), size: (i32, i32), speed: i32) -> (r: Entity)
        requires
            0 <= size.0 <= map_dimensions.0,
            0 <= size.1 <= map_dimensions.1,
            0 <= speed <= MAX_SPEED,
        ensures
            r.wf(),
            r.position == spawn,
            r.spawn == spawn,
            r.action == Action::IdleLeft,
            r.map_dimensions == map_dimensions,
            r.size == size,
            r.speed == speed,
    {
        Entity {
            spawn,
            action: Action::IdleLeft,
            position: spawn,
            map_dimensions,
            size,
            speed,
            diagonal: diagonal_step(speed),
        }
    }

    /// The position after one tick of `action`, before it is set.
    pub open spec fn moved(&self) -> Point {
        let (dx, dy) = delta(self.action, self.speed as int, self.diagonal as int);
        Point {
            x: clamp(self.position.x + dx, self.size.0 as int, self.map_dimensions.0 as int) as i32,
            y: clamp(self.position.y + dy, self.size.1 as int, self.map_dimensions.1 as int) as i32,
        }
    }

    /// One tick: moves by the current action, then clamps into the map.
    pub fn update(&mut self)
        requires
            old(self).wf(),
        ensures
            final(self).wf(),
            *final(self) == (Entity { position: old(self).moved(), ..*old(self) }),
            final(self).position == old(self).moved(),
            final(self).spawn == old(self).spawn,
            final(self).action == old(self).action,
            final(self).map_dimensions == old(self).map_dimensions,
            final(self).size == old(self).size,
            final(self).speed == old(self).speed,
            0 <= final(self).position.x <= final(self).map_dimensions.0 - final(self).size.0,
            0 <= final(self).position.y <= final(self).map_dimensions.1 - final(self).size.1,
    {
        self.move_position();
    }

    fn move_position(&mut self)
        requires
            old(self).wf(),
        ensures
            *final(self) == (Entity { position: old(self).moved(), ..*old(self) }),
            0 <= final(self).position.x <= final(self).map_dimensions.0 - final(self).size.0,
            0 <= final(self).position.y <= final(self).map_dimensions.1 - final(self).size.1,
    {
        let s = self.speed as i64;
        let d = self.diagonal as i64;
        let (dx, dy): (i64, i64) = match self.action {
            Action::IdleLeft | Action::IdleRight => (0, 0),
            Action::MovingUp => (0, -s),
            Action::MovingDown => (0, s),
            Action::MovingLeft => (-s, 0),
            Action::MovingRight => (s, 0),
            Action::MovingUpLeft => (-d, -d),
            Action::MovingUpRight => (d, -d),
            Action::MovingDownLeft => (-d, d),
            Action::MovingDownRight => (d, d),
        };
        let x = clamp_axis(self.position.x as i64 + dx, self.size.0, self.map_dimensions.0);
        let y = clamp_axis(self.position.y as i64 + dy, self.size.1, self.map_dimensions.1);
        self.position = Point { x, y };
    }
}

fn clamp_axis(v: i64, size: i32, limit: i32) -> (r: i32)
    requires
        0 <= size <= limit,
        -0x1_0000_0000 <= v <= 0x1_0000_0000,
    ensures
        r == clamp(v as int, size as int, limit as int),
        0 <= r <= limit - size,
{
    if v < 0 {
        0
    } else if v + size as i64 > limit as i64 {
        limit - size
    } else {
        v as i32
    }
}

/// A diagonal step is as long as a cardinal one to within one unit:
/// `|diagonal|^2 <= |cardinal|^2 < |diagonal + 1 per axis|^2`.
pub proof fn lemma_diagonal_magnitude(e: Entity, diagonal: Action, cardinal: Action)
    requires
        e.wf(),
        is_diagonal(diagonal),
        is_cardinal(cardinal),
    ensures
        ({
            let (dx, dy) = delta(diagonal, e.speed as int, e.diagonal as int);
            let (cx, cy) = delta(cardinal, e.speed as int, e.diagonal as int);
            &&& dx * dx + dy * dy <= cx * cx + cy * cy
            &&& cx * cx + cy * cy < (abs(dx) + 1) * (abs(dx) + 1) + (abs(dy) + 1) * (abs(dy) + 1)
            &&& abs(dx) == abs(dy)
        }),
{
    let s = e.speed as int;
    let d = e.diagonal as int;
    let (dx, dy) = delta(diagonal, s, d);
    let (cx, cy) = delta(cardinal, s, d);
    assert(dx * dx == d * d && dy * dy == d * d) by (nonlinear_arith)
        requires
            dx == d || dx == -d,
            dy == d || dy == -d,
    ;
    assert(cx * cx + cy * cy == s * s) by (nonlinear_arith)
        requires
            (cx == 0 && (cy == s || cy == -s)) || (cy == 0 && (cx == s || cx == -s)),
    ;
    assert(abs(dx) == d && abs(dy) == d);
    assert(2 * d * d == d * d + d * d && 2 * (d + 1) * (d + 1) == (d + 1) * (d + 1) + (d + 1) * (
    d + 1)) by (nonlinear_arith);
}

} // verus!
