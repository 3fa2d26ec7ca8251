use zappy_ai::actions::{
    can_call_for_help, exploration_plan, food_provider_step, join_team_plan, level_up_plan,
    move_to_position, needs_food_supply, random_exploration_plan,
};
use zappy_ai::commands::{Command, Direction};
use zappy_ai::decision::{Action, DecisionTree, LayEggNode, Observation, Priority};
use zappy_ai::inventory::{Inventory, Resource};
use zappy_ai::levels::{get_level_requirements, requirement_for_level};
use zappy_ai::movement::Position;
use zappy_ai::player_state::PlayerState;
use zappy_ai::session::Session;
use zappy_ai::vision::{
    get_look_tile, has_level_requirements, move_to_food, move_to_resource, see_food,
    see_priority_resource, take_all_resources,
};

fn tiles(v: &[&str]) -> Vec<String> {
    v.iter().map(|s| s.to_string()).collect()
}

fn inventory(food: i32, linemate: i32) -> Inventory {
    Inventory { food, linemate, ..Inventory::default() }
}

fn obs(level: u32, inv: Inventory, t: &[&str]) -> Observation {
    Observation { level, inventory: inv, tiles: tiles(t), team: "red".to_string() }
}

#[test]
fn food_outranks_ready_level_up() {
    // two food in sight, and everything for level 2 at hand
    let o = obs(1, inventory(10, 1), &["player linemate food", "food", "", ""]);
    assert_eq!(see_food(&o.tiles), 2);
    assert_eq!(has_level_requirements(1, &o.inventory, &o.tiles), Ok(true));
    let mut session = Session::new();
    let (p, a) = DecisionTree::new().evaluate(&o, &mut session);
    assert_eq!(p, Priority::High);
    assert_eq!(a, Action::FindFood);
}

#[test]
fn ready_level_up_when_fed() {
    let o = obs(1, inventory(10, 1), &["player linemate food food", "food food", "", ""]);
    let mut session = Session::new();
    let (p, a) = DecisionTree::new().evaluate(&o, &mut session);
    assert_eq!((p, a), (Priority::Critical, Action::LevelUp));
}

#[test]
fn collect_missing_mineral_in_sight() {
    let o = obs(1, inventory(10, 0), &["player food food", "food food linemate", "", ""]);
    let mut session = Session::new();
    let (p, a) = DecisionTree::new().evaluate(&o, &mut session);
    assert_eq!((p, a), (Priority::High, Action::CollectResource));
}

#[test]
fn explore_when_nothing_to_do() {
    let o = obs(1, inventory(10, 0), &["player food food", "food food", "", ""]);
    let mut session = Session::new();
    let (p, a) = DecisionTree::new().evaluate(&o, &mut session);
    assert_eq!((p, a), (Priority::Low, Action::Explore));
}

#[test]
fn join_a_teammate_call() {
    let o = obs(2, inventory(10, 0), &["player food food", "food food", "", ""]);
    let mut session = Session::new();
    session.on_line("message 4, HELP|3|blue|1:1");
    session.on_line("message 2, HELP|3|red|4:-2");
    let tree = DecisionTree::new();
    // the first message is of another team: taken and passed over
    assert_eq!(tree.evaluate(&o, &mut session), (Priority::Low, Action::Explore));
    assert_eq!(
        tree.evaluate(&o, &mut session),
        (Priority::High, Action::JoinTeam { target_level: 3, position: Position { x: 4, y: -2 } })
    );
    assert_eq!(session.pending_count(), 0);
}

#[test]
fn call_too_far_above_is_ignored() {
    let o = obs(1, inventory(10, 0), &["player food food", "food food", "", ""]);
    let mut session = Session::new();
    session.on_line("message 2, HELP|4|red|4:2");
    assert_eq!(DecisionTree::new().evaluate(&o, &mut session), (Priority::Low, Action::Explore));
}

#[test]
fn vision_counts_and_plans() {
    let t = tiles(&["player", "linemate", "food food", "sibur food", "food"]);
    assert_eq!(see_food(&t), 3);
    assert!(see_priority_resource(&t));
    assert_eq!(move_to_food(&t), (true, vec![Command::Forward]));
    assert_eq!(
        move_to_resource(&t),
        (false, vec![Command::Left, Command::Forward, Command::Right])
    );
    assert_eq!(move_to_resource(&tiles(&["player sibur", "linemate"])), (true, vec![]));
    assert_eq!(move_to_resource(&tiles(&["player", "", "", ""])), (false, vec![Command::Forward]));
    let none = tiles(&["player", "", "", ""]);
    assert_eq!(move_to_food(&none), (false, vec![Command::Forward]));
    assert!(!see_priority_resource(&none));
    let here = tiles(&["player food"]);
    assert_eq!(move_to_food(&here), (true, vec![]));
}

#[test]
fn look_tile_items() {
    let t = tiles(&["player  food", "linemate"]);
    assert_eq!(get_look_tile(&t, 0), Ok(vec!["player".to_string(), "food".to_string()]));
    assert!(get_look_tile(&t, 2).is_err());
    assert!(get_look_tile(&t, 4).is_err());
}

#[test]
fn take_everything_on_own_tile() {
    let t = tiles(&["player food linemate food egg", "sibur"]);
    assert_eq!(
        take_all_resources(&t),
        vec![
            Command::Take(Resource::Food),
            Command::Take(Resource::Linemate),
            Command::Take(Resource::Food)
        ]
    );
}

#[test]
fn level_requirements() {
    let table = get_level_requirements();
    assert_eq!(table.len(), 7);
    assert_eq!(table[1].level, 3);
    assert_eq!(table[1].required_players, 2);
    assert_eq!(table[6].resources.thystame, 1);
    assert!(requirement_for_level(1).is_none());
    assert_eq!(requirement_for_level(5).unwrap().required_players, 4);
    let inv = Inventory { linemate: 1, deraumere: 1, sibur: 1, ..Inventory::default() };
    let one = tiles(&["player linemate deraumere sibur"]);
    let two = tiles(&["player player linemate deraumere sibur"]);
    assert_eq!(has_level_requirements(2, &inv, &one), Ok(false));
    assert_eq!(has_level_requirements(2, &inv, &two), Ok(true));
    assert!(has_level_requirements(8, &inv, &two).is_err());
    assert_eq!(level_up_plan(2, &inv, &two), Ok(Command::Incantation));
    assert_eq!(level_up_plan(2, &inv, &one), Ok(Command::Fork));
}

#[test]
fn executor_plans() {
    assert_eq!(exploration_plan(0), vec![Command::Forward]);
    assert_eq!(exploration_plan(1), vec![Command::Left, Command::Forward]);
    assert_eq!(exploration_plan(2), vec![Command::Right, Command::Forward]);
    let r = random_exploration_plan();
    assert!(r == exploration_plan(0) || r == exploration_plan(1) || r == exploration_plan(2));
    assert_eq!(food_provider_step(&tiles(&["food player"])), Some(Command::Take(Resource::Food)));
    assert_eq!(food_provider_step(&tiles(&["player"])), Some(Command::Forward));
    assert_eq!(food_provider_step(&tiles(&[])), None);
    assert!(needs_food_supply(&inventory(4, 0)));
    assert!(!needs_food_supply(&inventory(5, 0)));
    assert!(can_call_for_help(&inventory(6, 0)));
    assert!(!can_call_for_help(&inventory(5, 0)));
}

#[test]
fn moving_and_joining() {
    let mut s = PlayerState::new();
    s.set_position(Position { x: 9, y: 0 });
    assert_eq!(
        move_to_position(&s, Position { x: 1, y: 0 }, 10, 10),
        vec![Command::Right, Command::Forward, Command::Forward]
    );
    s.set_direction(Direction::Right);
    let plan = join_team_plan(&s, "red", 3, Position { x: 9, y: 2 }, 10, 10);
    assert_eq!(
        plan,
        vec![
            Command::Broadcast("RESP|3|red|9:0".to_string()),
            Command::Right,
            Command::Forward,
            Command::Forward
        ]
    );
}

#[test]
fn collect_any_missing_mineral_in_sight() {
    // level 5 to 6 asks for three mendiane; the other stones are carried
    let inv = Inventory {
        food: 10,
        linemate: 1,
        deraumere: 2,
        sibur: 1,
        mendiane: 0,
        ..Inventory::default()
    };
    let o = Observation {
        level: 5,
        inventory: inv,
        tiles: tiles(&["player food food", "food food mendiane", "", ""]),
        team: "red".to_string(),
    };
    let mut session = Session::new();
    let (p, a) = DecisionTree::new().evaluate(&o, &mut session);
    assert_eq!((p, a), (Priority::High, Action::CollectResource));
}
