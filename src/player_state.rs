//! The agent's belief about itself: level, position, facing and inventory.
use vstd::prelude::*;

use crate::commands::{Command, Direction};
use crate::inventory::{empty_inventory, Inventory, Resource};
use crate::movement::{after_command, wrap_coord, Position};

verus! {

/// The highest level an agent can reach.
pub const MAX_LEVEL: u32 = 8;

/// What the agent believes of itself. It changes only when one of its own
/// commands succeeds, and may drift from the server's truth.
#[derive(Debug, Clone)]
pub struct PlayerState {
    level: u32,
    position: Position,
    direction: Direction,
    inventory: Inventory,
}

/// The count of `r` in `inv` after one more is picked up; it stays put at
/// the largest `i32`.
pub open spec fn picked_up(inv: Inventory, r: Resource) -> Inventory {
    if inv.count(r) < i32::MAX {
        inv.with_count(r, (inv.count(r) + 1) as i32)
    } else {
        inv
    }
}

/// The count of `r` in `inv` after one is set down; it stays at zero.
pub open spec fn set_down(inv: Inventory, r: Resource) -> Inventory {
    if inv.count(r) > 0 {
        inv.with_count(r, (inv.count(r) - 1) as i32)
    } else {
        inv
    }
}

impl PlayerState {
    pub open spec fn wf(&self) -> bool {
        1 <= self.level_spec() <= MAX_LEVEL
    }

    pub closed spec fn level_spec(&self) -> u32 {
        self.level
    }

    pub closed spec fn position_spec(&self) -> Position {
        self.position
    }

    pub closed spec fn direction_spec(&self) -> Direction {
        self.direction
    }

    pub closed spec fn inventory_spec(&self) -> Inventory {
        self.inventory
    }

    /// A fresh agent: level 1 at the origin, facing up, carrying nothing.
    pub fn new() -> (r: Self)
        ensures
            r.wf(),
            r.level_spec() == 1,
            r.position_spec() == (Position { x: 0, y: 0 }),
            r.direction_spec() == Direction::Up,
            r.inventory_spec() == empty_inventory(),
    {
        PlayerState {
            level: 1,
            position: Position { x: 0, y: 0 },
            direction: Direction::Up,
            inventory: Inventory::default(),
        }
    }

    pub fn get_level(&self) -> (r: u32)
        ensures
            r == self.level_spec(),
    {
        self.level
    }

    pub fn set_level(&mut self, new_level: u32)
        requires
            1 <= new_level <= MAX_LEVEL,
        ensures
            final(self).wf(),
            final(self).level_spec() == new_level,
            final(self).position_spec() == old(self).position_spec(),
            final(self).direction_spec() == old(self).direction_spec(),
            final(self).inventory_spec() == old(self).inventory_spec(),
    {
        self.level = new_level;
    }

    pub fn get_direction(&self) -> (r: Direction)
        ensures
            r == self.direction_spec(),
    {
        self.direction
    }

    pub fn set_direction(&mut self, new_direction: Direction)
        ensures
            final(self).direction_spec() == new_direction,
            final(self).level_spec() == old(self).level_spec(),
            final(self).position_spec() == old(self).position_spec(),
            final(self).inventory_spec() == old(self).inventory_spec(),
    {
        self.direction = new_direction;
    }

    pub fn get_position(&self) -> (r: Position)
        ensures
            r == self.position_spec(),
    {
        self.position
    }

    pub fn set_position(&mut self, new_position: Position)
        ensures
            final(self).position_spec() == new_position,
            final(self).level_spec() == old(self).level_spec(),
            final(self).direction_spec() == old(self).direction_spec(),
            final(self).inventory_spec() == old(self).inventory_spec(),
    {
        self.position = new_position;
    }

    pub fn get_inventory(&self) -> (r: Inventory)
        ensures
            r == self.inventory_spec(),
    {
        self.inventory
    }

    pub fn set_inventory(&mut self, inventory: Inventory)
        ensures
            final(self).inventory_spec() == inventory,
            final(self).level_spec() == old(self).level_spec(),
            final(self).position_spec() == old(self).position_spec(),
            final(self).direction_spec() == old(self).direction_spec(),
    {
        self.inventory = inventory;
    }

    /// Whether a level above this one exists.
    pub fn can_level_up(&self) -> (r: bool)
        ensures
            r == (self.level_spec() < MAX_LEVEL),
    {
        self.level < MAX_LEVEL
    }

    /// Updates the belief after `cmd` succeeded on a map of `width` by
    /// `height`: turns and steps move the pose as `after_command` says,
    /// taking or setting down changes the carried count by one, and a
    /// completed incantation raises the level by one up to the highest.
    /// Other commands change nothing.
    pub fn record_success(&mut self, cmd: &Command, width: i32, height: i32)
        requires
            old(self).wf(),
            width > 0,
            height > 0,
        ensures
            final(self).wf(),
            ({
                let p = after_command(
                    old(self).position_spec().x as int,
                    old(self).position_spec().y as int,
                    old(self).direction_spec(),
                    *cmd,
                    width as int,
                    height as int,
                );
                &&& final(self).position_spec().x == p.0
                &&& final(self).position_spec().y == p.1
                &&& final(self).direction_spec() == p.2
            }),
            final(self).inventory_spec() == match *cmd {
                Command::Take(r) => picked_up(old(self).inventory_spec(), r),
                Command::Place(r) => set_down(old(self).inventory_spec(), r),
                _ => old(self).inventory_spec(),
            },
            final(self).level_spec() == if *cmd is Incantation && old(self).level_spec()
                < MAX_LEVEL {
                old(self).level_spec() + 1
            } else {
                old(self).level_spec() as int
            },
    {
        match cmd {
            Command::Right => {
                self.direction = match self.direction {
                    Direction::Up => Direction::Right,
                    Direction::Right => Direction::Down,
                    Direction::Down => Direction::Left,
                    Direction::Left => Direction::Up,
                };
            },
            Command::Left => {
                self.direction = match self.direction {
                    Direction::Up => Direction::Left,
                    Direction::Right => Direction::Up,
                    Direction::Down => Direction::Right,
                    Direction::Left => Direction::Down,
                };
            },
            Command::Forward => {
                let x = wrap_coord(self.position.x, width);
                let y = wrap_coord(self.position.y, height);
                let (nx, ny) = match self.direction {
                    Direction::Up => (x, y - 1),
                    Direction::Right => (x + 1, y),
                    Direction::Down => (x, y + 1),
                    Direction::Left => (x - 1, y),
                };
                self.position = Position { x: wrap_coord(nx, width), y: wrap_coord(ny, height) };
            },
            Command::Take(r) => {
                let n = self.inventory.count_of(*r);
                if n < i32::MAX {
                    self.inventory.set_count(*r, n + 1);
                }
            },
            Command::Place(r) => {
                let n = self.inventory.count_of(*r);
                if n > 0 {
                    self.inventory.set_count(*r, n - 1);
                }
            },
            Command::Incantation => {
                if self.level < MAX_LEVEL {
                    self.level = self.level + 1;
                }
            },
            _ => {},
        }
    }
}

} // verus!
