//! What each elevation asks for: the players on the tile and the stones.
use vstd::prelude::*;

use crate::inventory::{empty_inventory, Inventory};

verus! {

/// What it takes to rise to `level`: how many players share the tile, and
/// the least count of each resource. A resource not asked for has count 0.
#[derive(Debug, Clone, Copy, PartialEq, Eq)]
pub struct LevelRequirement {
    pub level: u32,
    pub required_players: u32,
    pub resources: Inventory,
}

/// A requirement table row.
pub open spec fn row(
    level: u32,
    players: u32,
    linemate: i32,
    deraumere: i32,
    sibur: i32,
    mendiane: i32,
    phiras: i32,
    thystame: i32,
) -> LevelRequirement {
    LevelRequirement {
        level,
        required_players: players,
        resources: Inventory { food: 0, linemate, deraumere, sibur, mendiane, phiras, thystame },
    }
}

/// The requirement for rising to `level`, for the levels 2 to 8.
pub open spec fn requirement_spec(level: int) -> Option<LevelRequirement> {
    if level == 2 {
        Some(row(2, 1, 1, 0, 0, 0, 0, 0))
    } else if level == 3 {
        Some(row(3, 2, 1, 1, 1, 0, 0, 0))
    } else if level == 4 {
        Some(row(4, 2, 2, 0, 1, 0, 2, 0))
    } else if level == 5 {
        Some(row(5, 4, 1, 1, 2, 0, 1, 0))
    } else if level == 6 {
        Some(row(6, 4, 1, 2, 1, 3, 0, 0))
    } else if level == 7 {
        Some(row(7, 6, 1, 2, 3, 0, 1, 0))
    } else if level == 8 {
        Some(row(8, 6, 2, 2, 2, 2, 2, 1))
    } else {
        None
    }
}

impl LevelRequirement {
    pub fn new(level: u32, required_players: u32, resources: Inventory) -> (r: Self)
        ensures
            r.level == level,
            r.required_players == required_players,
            r.resources == resources,
    {
        LevelRequirement { level, required_players, resources }
    }
}

fn make_row(
    level: u32,
    players: u32,
    linemate: i32,
    deraumere: i32,
    sibur: i32,
    mendiane: i32,
    phiras: i32,
    thystame: i32,
) -> (r: LevelRequirement)
    ensures
        r == row(level, players, linemate, deraumere, sibur, mendiane, phiras, thystame),
{
    LevelRequirement::new(
        level,
        players,
        Inventory { food: 0, linemate, deraumere, sibur, mendiane, phiras, thystame },
    )
}

/// The whole table, in order of level, from 2 to 8.
pub fn get_level_requirements() -> (r: Vec<LevelRequirement>)
    ensures
        r@.len() == 7,
        forall|i: int| 0 <= i < 7 ==> requirement_spec(i + 2) == Some(#[trigger] r@[i]),
{
    let mut r: Vec<LevelRequirement> = Vec::new();
    r.push(make_row(2, 1, 1, 0, 0, 0, 0, 0));
    r.push(make_row(3, 2, 1, 1, 1, 0, 0, 0));
    r.push(make_row(4, 2, 2, 0, 1, 0, 2, 0));
    r.push(make_row(5, 4, 1, 1, 2, 0, 1, 0));
    r.push(make_row(6, 4, 1, 2, 1, 3, 0, 0));
    r.push(make_row(7, 6, 1, 2, 3, 0, 1, 0));
    r.push(make_row(8, 6, 2, 2, 2, 2, 2, 1));
    r
}

/// The requirement for rising to `level`; `None` past the table's ends.
pub fn requirement_for_level(level: u32) -> (r: Option<LevelRequirement>)
    ensures
        r == requirement_spec(level as int),
{
    let table = get_level_requirements();
    let mut i: usize = 0;
    while i < table.len()
        invariant
            table@.len() == 7,
            forall|k: int| 0 <= k < 7 ==> requirement_spec(k + 2) == Some(#[trigger] table@[k]),
            0 <= i <= 7,
            forall|k: int| 0 <= k < i ==> table@[k].level != level,
        decreases 7 - i,
    {
        if table[i].level == level {
            assert(requirement_spec(i + 2) == Some(table@[i as int]));
            return Some(table[i]);
        }
        i = i + 1;
    }
    assert(!(2 <= level <= 8)) by {
        if 2 <= level <= 8 {
            let k = level - 2;
            assert(requirement_spec(k + 2) == Some(table@[k]));
        }
    }
    None
}

} // verus!
