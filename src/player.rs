use vstd::prelude::*;

use crate::animation::{select_and_tick, Animations};
use crate::entity::{Action, Entity, MAX_SPEED};
use crate::math::Point;

verus! {

/// The keys the game reacts to.
#[derive(Clone, Copy, Debug, PartialEq, Eq, Structural)]
pub enum KeyCode {
    W,
    A,
    S,
    D,
    Q,
    E,
    Other,
}

/// The action after pressing `key`: a direction, combined with a held
/// perpendicular one into a diagonal.
pub open spec fn key_down_spec(a: Action, key: KeyCode) -> Action {
    match key {
        KeyCode::W => match a {
            Action::MovingLeft => Action::MovingUpLeft,
            Action::MovingRight => Action::MovingUpRight,
            _ => Action::MovingUp,
        },
        KeyCode::A => match a {
            Action::MovingUp => Action::MovingUpLeft,
            Action::MovingDown => Action::MovingDownLeft,
            _ => Action::MovingLeft,
        },
        KeyCode::S => match a {
            Action::MovingLeft => Action::MovingDownLeft,
            Action::MovingRight => Action::MovingDownRight,
            _ => Action::MovingDown,
        },
        KeyCode::D => match a {
            Action::MovingUp => Action::MovingUpRight,
            Action::MovingDown => Action::MovingDownRight,
            _ => Action::MovingRight,
        },
        _ => a,
    }
}

/// The action after releasing `key`: a diagonal falls back to the direction
/// still held, anything else comes to rest.
pub open spec fn key_up_spec(a: Action, key: KeyCode) -> Action {
    match key {
        KeyCode::W => match a {
            Action::MovingUpLeft => Action::MovingLeft,
            Action::MovingUpRight => Action::MovingRight,
            _ => Action::IdleLeft,
        },
        KeyCode::A => match a {
            Action::MovingUpLeft => Action::MovingUp,
            Action::MovingDownLeft => Action::MovingDown,
            _ => Action::IdleLeft,
        },
        KeyCode::S => match a {
            Action::MovingDownLeft => Action::MovingLeft,
            Action::MovingDownRight => Action::MovingRight,
            _ => Action::IdleRight,
        },
        KeyCode::D => match a {
            Action::MovingUpRight => Action::MovingUp,
            Action::MovingDownRight => Action::MovingDown,
            _ => Action::IdleRight,
        },
        _ => a,
    }
}

/// The character the keyboard steers.
pub struct Player {
    pub entity: Entity,
    pub animations: Animations,
}

impl Player {
    pub fn new(
        animations: Animations,
        spawn: Point,
        map_dimensions: (i32, i32),
        size: (i32, i32),
        speed: i32,
    ) -> (r: Player)
        requires
            0 <= size.0 <= map_dimensions.0,
            0 <= size.1 <= map_dimensions.1,
            0 <= speed <= MAX_SPEED,
        ensures
            r.entity.wf(),
            r.entity.position == spawn,
            r.entity.spawn == spawn,
            r.entity.action == Action::IdleLeft,
            r.entity.map_dimensions == map_dimensions,
            r.entity.size == size,
            r.entity.speed == speed,
            r.animations@ == animations@,
    {
        Player { entity: Entity::new(spawn, map_dimensions, size, speed), animations }
    }

    /// One tick at `now`: moves by the current action and animates it.
    pub fn update(&mut self, now: u64)
        requires
            old(self).entity.wf(),
        ensures
            final(self).entity.wf(),
            final(self).entity == (Entity { position: old(self).entity.moved(), ..old(self).entity }),
            select_and_tick(old(self).animations@, final(self).entity.action, now, final(self).animations@),
    {
        self.entity.update();
        self.animations.update(self.entity.action, now);
    }

    pub fn get_position(&self) -> (r: Point)
        ensures
            r == self.entity.position,
    {
        self.entity.position
    }

    pub fn give_key_down(&mut self, keycode: KeyCode)
        ensures
            final(self).entity == (Entity { action: key_down_spec(old(self).entity.action, keycode), ..old(self).entity }),
            final(self).animations@ == old(self).animations@,
    {
        let held = self.entity.action;
        self.entity.action = match keycode {
            KeyCode::W => match held {
                Action::MovingLeft => Action::MovingUpLeft,
                Action::MovingRight => Action::MovingUpRight,
                _ => Action::MovingUp,
            },
            KeyCode::A => match held {
                Action::MovingUp => Action::MovingUpLeft,
                Action::MovingDown => Action::MovingDownLeft,
                _ => Action::MovingLeft,
            },
            KeyCode::S => match held {
                Action::MovingLeft => Action::MovingDownLeft,
                Action::MovingRight => Action::MovingDownRight,
                _ => Action::MovingDown,
            },
            KeyCode::D => match held {
                Action::MovingUp => Action::MovingUpRight,
                Action::MovingDown => Action::MovingDownRight,
                _ => Action::MovingRight,
            },
            _ => held,
        };
    }

    pub fn give_key_up(&mut self, keycode: KeyCode)
        ensures
            final(self).entity == (Entity { action: key_up_spec(old(self).entity.action, keycode), ..old(self).entity }),
            final(self).animations@ == old(self).animations@,
    {
        let held = self.entity.action;
        self.entity.action = match keycode {
            KeyCode::W => match held {
                Action::MovingUpLeft => Action::MovingLeft,
                Action::MovingUpRight => Action::MovingRight,
                _ => Action::IdleLeft,
            },
            KeyCode::A => match held {
                Action::MovingUpLeft => Action::MovingUp,
                Action::MovingDownLeft => Action::MovingDown,
                _ => Action::IdleLeft,
            },
            KeyCode::S => match held {
                Action::MovingDownLeft => Action::MovingLeft,
                Action::MovingDownRight => Action::MovingRight,
                _ => Action::IdleRight,
            },
            KeyCode::D => match held {
                Action::MovingUpRight => Action::MovingUp,
                Action::MovingDownRight => Action::MovingDown,
                _ => Action::IdleRight,
            },
            _ => held,
        };
    }
}

} // verus!
