//! The action executor's plans: which commands carry out a chosen action.
use vstd::prelude::*;

use crate::broadcast::{request_text, response_message};
use crate::commands::Command;
use crate::error::ClientError;
use crate::inventory::{Inventory, Resource};
use crate::movement::{axis_delta, calculate_movement_delta, plan_travel, push_travel, travel_commands, Position};
use crate::player_state::PlayerState;
use crate::server_event::string_views;
use crate::vision::{has_level_requirements, ready_to_rise, tile_has, tile_word_chars, tile_words};

verus! {

/// The three ways to wander: straight on, left then on, right then on.
pub open spec fn explore_moves(choice: u32) -> Seq<Command> {
    if choice == 0 {
        seq![Command::Forward]
    } else if choice == 1 {
        seq![Command::Left, Command::Forward]
    } else {
        seq![Command::Right, Command::Forward]
    }
}

/// The wandering move numbered `choice`.
pub fn exploration_plan(choice: u32) -> (r: Vec<Command>)
    requires
        choice < 3,
    ensures
        r@ == explore_moves(choice),
{
    let mut r: Vec<Command> = Vec::new();
    if choice == 1 {
        r.push(Command::Left);
    } else if choice == 2 {
        r.push(Command::Right);
    }
    r.push(Command::Forward);
    assert(r@ =~= explore_moves(choice));
    r
}

/// Relies on `rand::random_range`: a value drawn from `0..bound`, which is
/// not empty.
#[verifier::external_body]
fn random_below(bound: u32) -> (r: u32)
    requires
        bound > 0,
    ensures
        r < bound,
{
    rand::random_range(0..bound)
}

/// One of the three wandering moves, picked at random.
pub fn random_exploration_plan() -> (r: Vec<Command>)
    ensures
        exists|c: u32| c < 3 && r@ == explore_moves(c),
{
    let c = random_below(3);
    exploration_plan(c)
}

/// The commands that take the agent from where it believes it is to
/// `target`, on a map of `width` by `height` (see `travel_commands`).
pub fn move_to_position(state: &PlayerState, target: Position, width: i32, height: i32) -> (r: Vec<
    Command,
>)
    requires
        width > 0,
        height > 0,
    ensures
        r@ == travel_commands(
            state.direction_spec(),
            axis_delta(state.position_spec().x as int, target.x as int, width as int),
            axis_delta(state.position_spec().y as int, target.y as int, height as int),
        ),
{
    let delta = calculate_movement_delta(state.get_position(), target, width, height);
    plan_travel(state.get_direction(), delta)
}

/// Answering a call for help: the answer carrying the agent's own position,
/// then the way to the caller.
pub fn join_team_plan(
    state: &PlayerState,
    team: &str,
    target_level: u32,
    target: Position,
    width: i32,
    height: i32,
) -> (r: Vec<Command>)
    requires
        width > 0,
        height > 0,
    ensures
        r@.len() >= 1,
        r@[0] matches Command::Broadcast(t) && t@ == request_text(
            "RESP"@,
            target_level as int,
            team@,
            state.position_spec(),
        ),
        r@.drop_first() == travel_commands(
            state.direction_spec(),
            axis_delta(state.position_spec().x as int, target.x as int, width as int),
            axis_delta(state.position_spec().y as int, target.y as int, height as int),
        ),
{
    let answer = response_message(target_level, team, state.get_position());
    let delta = calculate_movement_delta(state.get_position(), target, width, height);
    let mut r: Vec<Command> = Vec::new();
    r.push(Command::Broadcast(answer));
    let ghost first = r@;
    push_travel(&mut r, state.get_direction(), delta);
    assert(r@.drop_first() =~= r@.subrange(1, r@.len() as int));
    assert(r@[0] == first[0]);
    assert(r@.drop_first() =~= travel_commands(state.direction_spec(), delta.x as int, delta.y as int));
    r
}

/// Carrying out an elevation: the incantation when everything is at hand,
/// otherwise laying an egg. Fails when no level follows.
pub fn level_up_plan(level: u32, inventory: &Inventory, tiles: &Vec<String>) -> (r: Result<
    Command,
    ClientError,
>)
    ensures
        ready_to_rise(level as int, *inventory, tile_words(string_views(tiles@), 0)) == Some(true)
            ==> r == Ok::<Command, ClientError>(Command::Incantation),
        ready_to_rise(level as int, *inventory, tile_words(string_views(tiles@), 0)) == Some(false)
            ==> r == Ok::<Command, ClientError>(Command::Fork),
        ready_to_rise(level as int, *inventory, tile_words(string_views(tiles@), 0)) is None ==> r is Err,
{
    match has_level_requirements(level, inventory, tiles) {
        Ok(true) => Ok(Command::Incantation),
        Ok(false) => Ok(Command::Fork),
        Err(e) => Err(e),
    }
}

/// One round of plain food gathering: take food when the own tile shows
/// some, else step ahead; nothing without a look.
pub fn food_provider_step(tiles: &Vec<String>) -> (r: Option<Command>)
    ensures
        tiles@.len() == 0 ==> r is None,
        tiles@.len() > 0 && tile_has(string_views(tiles@), 0, "food"@) ==> r == Some(
            Command::Take(Resource::Food),
        ),
        tiles@.len() > 0 && !tile_has(string_views(tiles@), 0, "food"@) ==> r == Some(
            Command::Forward,
        ),
{
    if tiles.len() == 0 {
        return None;
    }
    let items = tile_word_chars(tiles, 0);
    if crate::vision::contains_word(&items, "food") {
        Some(Command::Take(Resource::Food))
    } else {
        Some(Command::Forward)
    }
}

/// The agent carries too little food and should go for more.
pub fn needs_food_supply(inventory: &Inventory) -> (r: bool)
    ensures
        r == (inventory.food < 5),
{
    inventory.food < 5
}

/// The agent carries enough food to spend time calling for help.
pub fn can_call_for_help(inventory: &Inventory) -> (r: bool)
    ensures
        r == (inventory.food > 5),
{
    inventory.food > 5
}

} // verus!
