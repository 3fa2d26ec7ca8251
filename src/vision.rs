//! Reading what a look showed: counting items on the tiles ahead, checking an
//! elevation's needs, and the moves that reach a wanted tile.
use vstd::prelude::*;
use vstd::string::*;

use crate::commands::Command;
use crate::error::ClientError;
use crate::inventory::{resource_name, resource_named, Inventory, Resource};
use crate::levels::{requirement_for_level, requirement_spec, LevelRequirement};
use crate::server_event::string_views;
use crate::text::{chars_of, equals_text, split_words, string_of, views, words};

verus! {

/// How many times `name` stands among `items`.
pub open spec fn occurrences(items: Seq<Seq<char>>, name: Seq<char>) -> nat
    decreases items.len(),
{
    if items.len() == 0 {
        0
    } else {
        occurrences(items.drop_last(), name) + if items.last() == name {
            1nat
        } else {
            0nat
        }
    }
}

/// The items on tile `i` of a look; none for a tile it did not show.
pub open spec fn tile_words(tiles: Seq<Seq<char>>, i: int) -> Seq<Seq<char>> {
    if 0 <= i < tiles.len() {
        words(tiles[i])
    } else {
        Seq::empty()
    }
}

/// The tiles of a look that the agent reasons about: its own and the three
/// ahead of it.
pub open spec fn known_tiles(tiles: Seq<Seq<char>>) -> nat {
    if tiles.len() < 4 {
        tiles.len()
    } else {
        4
    }
}

/// How many times `name` stands on the first `n` tiles.
pub open spec fn seen_count(tiles: Seq<Seq<char>>, name: Seq<char>, n: nat) -> nat
    decreases n,
{
    if n == 0 {
        0
    } else {
        seen_count(tiles, name, (n - 1) as nat) + occurrences(tile_words(tiles, n - 1), name)
    }
}

/// The food on the known tiles.
pub open spec fn food_seen(tiles: Seq<Seq<char>>) -> nat {
    seen_count(tiles, "food"@, known_tiles(tiles))
}

/// `n`, or the largest `u64` where it is larger.
pub open spec fn capped(n: nat) -> u64 {
    if n < u64::MAX {
        n as u64
    } else {
        u64::MAX
    }
}

/// Tile `i` holds an item called `name`.
pub open spec fn tile_has(tiles: Seq<Seq<char>>, i: int, name: Seq<char>) -> bool {
    tile_words(tiles, i).contains(name)
}

/// One of the minerals that collection goes after, in order of preference.
pub open spec fn is_priority_mineral(w: Seq<char>) -> bool {
    w == "linemate"@ || w == "deraumere"@ || w == "sibur"@ || w == "phiras"@
}

/// Tile `i` holds a mineral that collection goes after.
pub open spec fn tile_has_priority(tiles: Seq<Seq<char>>, i: int) -> bool {
    exists|j: int| 0 <= j < tile_words(tiles, i).len() && is_priority_mineral(#[trigger] tile_words(tiles, i)[j])
}

/// A known tile holds a mineral that collection goes after.
pub open spec fn sees_priority(tiles: Seq<Seq<char>>) -> bool {
    exists|i: int| 0 <= i < known_tiles(tiles) && #[trigger] tile_has_priority(tiles, i)
}

/// The moves that reach tile `i` of a look and face the same way again:
/// tile 1 by a left step, tile 2 straight ahead, tile 3 by a right step.
pub open spec fn steps_to_tile(i: int) -> Seq<Command> {
    if i == 1 {
        seq![Command::Left, Command::Forward, Command::Right]
    } else if i == 2 {
        seq![Command::Forward]
    } else if i == 3 {
        seq![Command::Right, Command::Forward, Command::Left]
    } else {
        Seq::empty()
    }
}

/// Where to go for food: stay if the own tile has some, else to the first
/// of tiles 1 to 3 that has; with none in sight, one step ahead. The flag
/// says whether food was seen.
pub open spec fn food_plan(tiles: Seq<Seq<char>>) -> (bool, Seq<Command>) {
    if tile_has(tiles, 0, "food"@) {
        (true, Seq::empty())
    } else if tile_has(tiles, 1, "food"@) {
        (true, steps_to_tile(1))
    } else if tile_has(tiles, 2, "food"@) {
        (true, steps_to_tile(2))
    } else if tile_has(tiles, 3, "food"@) {
        (true, steps_to_tile(3))
    } else {
        (false, seq![Command::Forward])
    }
}

/// Where to go for minerals: stay if the own tile holds a wanted one, else
/// to the first of tiles 1 to 3 that does; with none in sight, one step
/// ahead. The flag says whether the agent already stands on one, ready to
/// pick it up.
pub open spec fn resource_plan(tiles: Seq<Seq<char>>) -> (bool, Seq<Command>) {
    if tile_has_priority(tiles, 0) {
        (true, Seq::empty())
    } else if tile_has_priority(tiles, 1) {
        (false, steps_to_tile(1))
    } else if tile_has_priority(tiles, 2) {
        (false, steps_to_tile(2))
    } else if tile_has_priority(tiles, 3) {
        (false, steps_to_tile(3))
    } else {
        (false, seq![Command::Forward])
    }
}

/// A `Take` for each item of `items` that names a resource, in order.
pub open spec fn take_commands(items: Seq<Seq<char>>) -> Seq<Command>
    decreases items.len(),
{
    if items.len() == 0 {
        Seq::empty()
    } else {
        let before = take_commands(items.drop_last());
        match resource_named(items.last()) {
            Some(r) => before.push(Command::Take(r)),
            None => before,
        }
    }
}

/// The inventory holds at least what `req` asks of each resource.
pub open spec fn inventory_covers(inv: Inventory, req: LevelRequirement) -> bool {
    forall|r: Resource|
        req.resources.count(r) > 0 ==> #[trigger] inv.count(r) >= req.resources.count(r)
}

/// The tile holds what `req` asks of each resource, and its players.
pub open spec fn tile_covers(items: Seq<Seq<char>>, req: LevelRequirement) -> bool {
    &&& forall|r: Resource|
        req.resources.count(r) > 0 ==> occurrences(items, #[trigger] resource_name(r))
            >= req.resources.count(r)
    &&& occurrences(items, "player"@) >= req.required_players
}

/// Whether an agent of `level` carrying `inv` and standing on a tile with
/// `items` may start the elevation to the next level; `None` when no level
/// follows.
pub open spec fn ready_to_rise(level: int, inv: Inventory, items: Seq<Seq<char>>) -> Option<bool> {
    match requirement_spec(level + 1) {
        Some(req) => Some(inventory_covers(inv, req) && tile_covers(items, req)),
        None => None,
    }
}

/// `c` may change what the agent sees around it, so that a look taken
/// before it is stale: everything but looking, reading the inventory,
/// broadcasting and asking for free slots.
pub open spec fn stales_look(c: Command) -> bool {
    !(c is Look || c is Inventory || c is Broadcast || c is ConnectNbr)
}

/// Whether a look taken before `c` succeeded is stale afterwards.
pub fn invalidates_look(c: &Command) -> (r: bool)
    ensures
        r == stales_look(*c),
{
    match c {
        Command::Look | Command::Inventory | Command::Broadcast(_) | Command::ConnectNbr => false,
        _ => true,
    }
}

/// The words of tile `i`.
pub fn tile_word_chars(tiles: &Vec<String>, i: usize) -> (r: Vec<Vec<char>>)
    ensures
        views(r@) == tile_words(string_views(tiles@), i as int),
{
    if i < tiles.len() {
        let v = chars_of(tiles[i].as_str());
        split_words(&v)
    } else {
        let r: Vec<Vec<char>> = Vec::new();
        assert(views(r@) =~= Seq::<Seq<char>>::empty());
        r
    }
}

/// How many times `name` stands among `items`.
pub fn count_word(items: &Vec<Vec<char>>, name: &str) -> (r: u64)
    ensures
        r == occurrences(views(items@), name@),
{
    let ghost vs = views(items@);
    let mut r: u64 = 0;
    let mut i: usize = 0;
    while i < items.len()
        invariant
            vs == views(items@),
            i <= items@.len(),
            r <= i,
            r == occurrences(vs.subrange(0, i as int), name@),
        decreases items@.len() - i,
    {
        assert(vs.subrange(0, i + 1).drop_last() =~= vs.subrange(0, i as int));
        assert(vs.subrange(0, i + 1).last() == items@[i as int]@);
        if equals_text(&items[i], name) {
            r = r + 1;
        }
        i = i + 1;
    }
    assert(vs.subrange(0, i as int) =~= vs);
    r
}

/// Whether `name` stands among `items`.
pub fn contains_word(items: &Vec<Vec<char>>, name: &str) -> (r: bool)
    ensures
        r == views(items@).contains(name@),
{
    let mut i: usize = 0;
    while i < items.len()
        invariant
            i <= items@.len(),
            forall|j: int| 0 <= j < i ==> views(items@)[j] != name@,
        decreases items@.len() - i,
    {
        if equals_text(&items[i], name) {
            assert(views(items@)[i as int] == name@);
            return true;
        }
        i = i + 1;
    }
    false
}

pub fn count_on_tiles(tiles: &Vec<String>, name: &str) -> (r: u64)
    ensures
        r == capped(seen_count(string_views(tiles@), name@, known_tiles(string_views(tiles@)))),
{
    let ghost ts = string_views(tiles@);
    let n: usize = if tiles.len() < 4 {
        tiles.len()
    } else {
        4
    };
    let mut r: u64 = 0;
    let mut i: usize = 0;
    while i < n
        invariant
            ts == string_views(tiles@),
            n == known_tiles(ts),
            i <= n,
            r == capped(seen_count(ts, name@, i as nat)),
        decreases n - i,
    {
        let items = tile_word_chars(tiles, i);
        let c = count_word(&items, name);
        if r > u64::MAX - c {
            r = u64::MAX;
        } else {
            r = r + c;
        }
        i = i + 1;
    }
    r
}

/// The food on the known tiles of a look (capped at the largest `u64`).
pub fn see_food(tiles: &Vec<String>) -> (r: u64)
    ensures
        r == capped(food_seen(string_views(tiles@))),
{
    count_on_tiles(tiles, "food")
}

fn priority_word(w: &Vec<char>) -> (r: bool)
    ensures
        r == is_priority_mineral(w@),
{
    equals_text(w, "linemate") || equals_text(w, "deraumere") || equals_text(w, "sibur")
        || equals_text(w, "phiras")
}

fn tile_priority(tiles: &Vec<String>, i: usize) -> (r: bool)
    ensures
        r == tile_has_priority(string_views(tiles@), i as int),
{
    let items = tile_word_chars(tiles, i);
    let mut j: usize = 0;
    while j < items.len()
        invariant
            views(items@) == tile_words(string_views(tiles@), i as int),
            j <= items@.len(),
            forall|k: int| 0 <= k < j ==> !is_priority_mineral(#[trigger] views(items@)[k]),
        decreases items@.len() - j,
    {
        assert(views(items@)[j as int] == items@[j as int]@);
        if priority_word(&items[j]) {
            return true;
        }
        j = j + 1;
    }
    false
}

/// Whether a known tile holds a mineral that collection goes after.
pub fn see_priority_resource(tiles: &Vec<String>) -> (r: bool)
    ensures
        r == sees_priority(string_views(tiles@)),
{
    let ghost ts = string_views(tiles@);
    let n: usize = if tiles.len() < 4 {
        tiles.len()
    } else {
        4
    };
    let mut i: usize = 0;
    while i < n
        invariant
            ts == string_views(tiles@),
            n == known_tiles(ts),
            i <= n,
            forall|k: int| 0 <= k < i ==> !#[trigger] tile_has_priority(ts, k),
        decreases n - i,
    {
        if tile_priority(tiles, i) {
            return true;
        }
        i = i + 1;
    }
    false
}

/// The items of tile `index` of a look, which must be one of the four
/// known tiles and must have been shown.
pub fn get_look_tile(tiles: &Vec<String>, index: usize) -> (r: Result<Vec<String>, ClientError>)
    ensures
        index > 3 ==> r matches Err(ClientError::InvalidResponse(_)),
        index <= 3 && index >= tiles@.len() ==> r matches Err(ClientError::InvalidResponse(_)),
        r matches Ok(items) ==> index <= 3 && index < tiles@.len() && string_views(items@) == tile_words(
            string_views(tiles@),
            index as int,
        ),
        index <= 3 && index < tiles@.len() ==> r is Ok,
{
    if index > 3 {
        return Err(ClientError::InvalidResponse(String::from_str("Tile index must be 0-3")));
    }
    if index >= tiles.len() {
        return Err(
            ClientError::InvalidResponse(String::from_str("Not enough tiles in look response")),
        );
    }
    let items = tile_word_chars(tiles, index);
    let mut r: Vec<String> = Vec::new();
    let mut i: usize = 0;
    while i < items.len()
        invariant
            i <= items@.len(),
            r@.len() == i,
            forall|j: int| 0 <= j < i ==> (#[trigger] r@[j])@ == items@[j]@,
        decreases items@.len() - i,
    {
        r.push(string_of(&items[i]));
        i = i + 1;
    }
    assert(string_views(r@) =~= views(items@));
    Ok(r)
}

fn steps_to(i: usize) -> (r: Vec<Command>)
    requires
        1 <= i <= 3,
    ensures
        r@ == steps_to_tile(i as int),
{
    let mut r: Vec<Command> = Vec::new();
    if i == 1 {
        r.push(Command::Left);
        r.push(Command::Forward);
        r.push(Command::Right);
    } else if i == 2 {
        r.push(Command::Forward);
    } else {
        r.push(Command::Right);
        r.push(Command::Forward);
        r.push(Command::Left);
    }
    assert(r@ =~= steps_to_tile(i as int));
    r
}

fn tile_food(tiles: &Vec<String>, i: usize) -> (r: bool)
    ensures
        r == tile_has(string_views(tiles@), i as int, "food"@),
{
    let items = tile_word_chars(tiles, i);
    contains_word(&items, "food")
}

/// The moves towards food (see `food_plan`), and whether food was seen.
pub fn move_to_food(tiles: &Vec<String>) -> (r: (bool, Vec<Command>))
    ensures
        (r.0, r.1@) == food_plan(string_views(tiles@)),
{
    if tile_food(tiles, 0) {
        let v: Vec<Command> = Vec::new();
        assert(v@ =~= Seq::<Command>::empty());
        return (true, v);
    }
    let mut i: usize = 1;
    while i <= 3
        invariant
            1 <= i <= 4,
            !tile_has(string_views(tiles@), 0, "food"@),
            forall|k: int| 1 <= k < i ==> !tile_has(string_views(tiles@), k, "food"@),
        decreases 4 - i,
    {
        if tile_food(tiles, i) {
            return (true, steps_to(i));
        }
        i = i + 1;
    }
    let mut v: Vec<Command> = Vec::new();
    v.push(Command::Forward);
    assert(v@ =~= seq![Command::Forward]);
    (false, v)
}

/// The moves towards a wanted mineral (see `resource_plan`), and whether
/// the agent already stands on one.
pub fn move_to_resource(tiles: &Vec<String>) -> (r: (bool, Vec<Command>))
    ensures
        (r.0, r.1@) == resource_plan(string_views(tiles@)),
{
    if tile_priority(tiles, 0) {
        let v: Vec<Command> = Vec::new();
        assert(v@ =~= Seq::<Command>::empty());
        return (true, v);
    }
    let mut i: usize = 1;
    while i <= 3
        invariant
            1 <= i <= 4,
            !tile_has_priority(string_views(tiles@), 0),
            forall|k: int| 1 <= k < i ==> !tile_has_priority(string_views(tiles@), k),
        decreases 4 - i,
    {
        if tile_priority(tiles, i) {
            return (false, steps_to(i));
        }
        i = i + 1;
    }
    let mut v: Vec<Command> = Vec::new();
    v.push(Command::Forward);
    assert(v@ =~= seq![Command::Forward]);
    (false, v)
}

/// A `Take` for every resource on the agent's own tile, in the order the
/// look listed them.
pub fn take_all_resources(tiles: &Vec<String>) -> (r: Vec<Command>)
    ensures
        r@ == take_commands(tile_words(string_views(tiles@), 0)),
{
    let items = tile_word_chars(tiles, 0);
    let ghost vs = views(items@);
    let mut r: Vec<Command> = Vec::new();
    let mut i: usize = 0;
    while i < items.len()
        invariant
            vs == views(items@),
            i <= items@.len(),
            r@ == take_commands(vs.subrange(0, i as int)),
        decreases items@.len() - i,
    {
        assert(vs.subrange(0, i + 1).drop_last() =~= vs.subrange(0, i as int));
        assert(vs.subrange(0, i + 1).last() == items@[i as int]@);
        match Resource::from_chars(&items[i]) {
            Some(res) => r.push(Command::Take(res)),
            None => {},
        }
        i = i + 1;
    }
    assert(vs.subrange(0, i as int) =~= vs);
    r
}

fn covers_count(have: i64, need: i64) -> (r: bool)
    ensures
        r == (need > 0 ==> have >= need),
{
    need <= 0 || have >= need
}

fn inventory_covers_exec(inv: &Inventory, req: &LevelRequirement) -> (r: bool)
    ensures
        r == inventory_covers(*inv, *req),
{
    let n = &req.resources;
    let r = covers_count(inv.food as i64, n.food as i64) && covers_count(
        inv.linemate as i64,
        n.linemate as i64,
    ) && covers_count(inv.deraumere as i64, n.deraumere as i64) && covers_count(
        inv.sibur as i64,
        n.sibur as i64,
    ) && covers_count(inv.mendiane as i64, n.mendiane as i64) && covers_count(
        inv.phiras as i64,
        n.phiras as i64,
    ) && covers_count(inv.thystame as i64, n.thystame as i64);
    assert(r == inventory_covers(*inv, *req)) by {
        if r {
            assert forall|x: Resource| req.resources.count(x) > 0 implies #[trigger] inv.count(x)
                >= req.resources.count(x) by {
                match x {
                    Resource::Food => {},
                    Resource::Linemate => {},
                    Resource::Deraumere => {},
                    Resource::Sibur => {},
                    Resource::Mendiane => {},
                    Resource::Phiras => {},
                    Resource::Thystame => {},
                }
            }
        } else {
            assert(!inventory_covers(*inv, *req)) by {
                let _ = inv.count(Resource::Food);
                let _ = inv.count(Resource::Linemate);
                let _ = inv.count(Resource::Deraumere);
                let _ = inv.count(Resource::Sibur);
                let _ = inv.count(Resource::Mendiane);
                let _ = inv.count(Resource::Phiras);
                let _ = inv.count(Resource::Thystame);
            }
        }
    }
    r
}

fn tile_covers_exec(items: &Vec<Vec<char>>, req: &LevelRequirement) -> (r: bool)
    ensures
        r == tile_covers(views(items@), *req),
{
    let n = &req.resources;
    let ghost vs = views(items@);
    let food = count_word(items, "food");
    let linemate = count_word(items, "linemate");
    let deraumere = count_word(items, "deraumere");
    let sibur = count_word(items, "sibur");
    let mendiane = count_word(items, "mendiane");
    let phiras = count_word(items, "phiras");
    let thystame = count_word(items, "thystame");
    let players = count_word(items, "player");
    let stones = (n.food <= 0 || food >= n.food as u64) && (n.linemate <= 0 || linemate
        >= n.linemate as u64) && (n.deraumere <= 0 || deraumere >= n.deraumere as u64) && (
    n.sibur <= 0 || sibur >= n.sibur as u64) && (n.mendiane <= 0 || mendiane >= n.mendiane as u64)
        && (n.phiras <= 0 || phiras >= n.phiras as u64) && (n.thystame <= 0 || thystame
        >= n.thystame as u64);
    let r = stones && players >= req.required_players as u64;
    assert(r == tile_covers(vs, *req)) by {
        if stones {
            assert forall|x: Resource| req.resources.count(x) > 0 implies occurrences(
                vs,
                #[trigger] resource_name(x),
            ) >= req.resources.count(x) by {
                match x {
                    Resource::Food => {},
                    Resource::Linemate => {},
                    Resource::Deraumere => {},
                    Resource::Sibur => {},
                    Resource::Mendiane => {},
                    Resource::Phiras => {},
                    Resource::Thystame => {},
                }
            }
        } else {
            let _ = resource_name(Resource::Food);
            let _ = resource_name(Resource::Linemate);
            let _ = resource_name(Resource::Deraumere);
            let _ = resource_name(Resource::Sibur);
            let _ = resource_name(Resource::Mendiane);
            let _ = resource_name(Resource::Phiras);
            let _ = resource_name(Resource::Thystame);
        }
    }
    r
}

/// Whether an agent of `level` carrying `inventory` may start the
/// elevation on the tile where the look `tiles` was taken: it carries the
/// stones the next level asks for, and its tile holds them and the players.
/// Fails when no level follows `level`.
pub fn has_level_requirements(level: u32, inventory: &Inventory, tiles: &Vec<String>) -> (r:
    Result<bool, ClientError>)
    ensures
        r matches Ok(b) ==> ready_to_rise(level as int, *inventory, tile_words(string_views(tiles@), 0))
            == Some(b),
        r is Err <==> ready_to_rise(level as int, *inventory, tile_words(string_views(tiles@), 0)) is None,
        r matches Err(e) ==> e is IncantationError,
{
    if level >= 8 {
        return Err(ClientError::IncantationError(String::from_str("Wrong level")));
    }
    let req = match requirement_for_level(level + 1) {
        Some(q) => q,
        None => {
            return Err(ClientError::IncantationError(String::from_str("Wrong level")));
        },
    };
    if !inventory_covers_exec(inventory, &req) {
        return Ok(false);
    }
    let items = tile_word_chars(tiles, 0);
    Ok(tile_covers_exec(&items, &req))
}

} // verus!
