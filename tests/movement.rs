use zappy_ai::commands::{Command, Direction};
use zappy_ai::inventory::Resource;
use zappy_ai::movement::{calculate_movement_delta, plan_travel, turns_to_face, wrap_coord, Position};
use zappy_ai::player_state::PlayerState;

#[test]
fn wrapping_delta_takes_short_way() {
    let d = calculate_movement_delta(Position { x: 9, y: 0 }, Position { x: 1, y: 0 }, 10, 10);
    assert_eq!(d, Position { x: 2, y: 0 });
}

#[test]
fn half_span_delta_is_deterministic() {
    let a = calculate_movement_delta(Position { x: 0, y: 0 }, Position { x: 5, y: 5 }, 10, 10);
    let b = calculate_movement_delta(Position { x: 0, y: 0 }, Position { x: 5, y: 5 }, 10, 10);
    assert_eq!(a, b);
    assert_eq!(a, Position { x: 5, y: 5 });
}

#[test]
fn delta_backwards_and_wrapped_inputs() {
    let d = calculate_movement_delta(Position { x: 1, y: 3 }, Position { x: 9, y: 1 }, 10, 10);
    assert_eq!(d, Position { x: -2, y: -2 });
    let d = calculate_movement_delta(Position { x: -1, y: 23 }, Position { x: 0, y: 0 }, 10, 10);
    assert_eq!(d, Position { x: 1, y: -3 });
}

#[test]
fn wrapping_coordinates() {
    assert_eq!(wrap_coord(-1, 10), 9);
    assert_eq!(wrap_coord(-10, 10), 0);
    assert_eq!(wrap_coord(25, 10), 5);
    assert_eq!(wrap_coord(i32::MIN, 7), (i32::MIN as i64).rem_euclid(7) as i32);
}

#[test]
fn turning_counts() {
    assert_eq!(turns_to_face(Direction::Up, Direction::Up), 0);
    assert_eq!(turns_to_face(Direction::Up, Direction::Left), 3);
    assert_eq!(turns_to_face(Direction::Left, Direction::Up), 1);
    assert_eq!(turns_to_face(Direction::Right, Direction::Left), 2);
}

#[test]
fn travel_plan() {
    let plan = plan_travel(Direction::Up, Position { x: 2, y: -1 });
    assert_eq!(
        plan,
        vec![
            Command::Right,
            Command::Forward,
            Command::Forward,
            Command::Right,
            Command::Right,
            Command::Right,
            Command::Forward
        ]
    );
    assert!(plan_travel(Direction::Down, Position { x: 0, y: 0 }).is_empty());
}

#[test]
fn state_follows_successes() {
    let mut s = PlayerState::new();
    assert_eq!(s.get_level(), 1);
    s.record_success(&Command::Forward, 10, 10);
    assert_eq!(s.get_position(), Position { x: 0, y: 9 });
    s.record_success(&Command::Right, 10, 10);
    assert_eq!(s.get_direction(), Direction::Right);
    s.record_success(&Command::Forward, 10, 10);
    assert_eq!(s.get_position(), Position { x: 1, y: 9 });
    s.record_success(&Command::Left, 10, 10);
    s.record_success(&Command::Left, 10, 10);
    assert_eq!(s.get_direction(), Direction::Left);
    s.record_success(&Command::Take(Resource::Food), 10, 10);
    s.record_success(&Command::Take(Resource::Food), 10, 10);
    s.record_success(&Command::Place(Resource::Food), 10, 10);
    s.record_success(&Command::Place(Resource::Sibur), 10, 10);
    assert_eq!(s.get_inventory().food, 1);
    assert_eq!(s.get_inventory().sibur, 0);
    s.record_success(&Command::Incantation, 10, 10);
    assert_eq!(s.get_level(), 2);
    s.set_level(8);
    assert!(!s.can_level_up());
    s.record_success(&Command::Incantation, 10, 10);
    assert_eq!(s.get_level(), 8);
}

#[test]
fn state_setters() {
    let mut s = PlayerState::new();
    s.set_direction(Direction::Down);
    s.set_position(Position { x: 4, y: 2 });
    assert_eq!(s.get_direction(), Direction::Down);
    assert_eq!(s.get_position(), Position { x: 4, y: 2 });
    assert!(s.can_level_up());
}

#[test]
fn following_a_plan_reaches_the_target() {
    let mut s = PlayerState::new();
    s.set_position(Position { x: 9, y: 0 });
    let target = Position { x: 1, y: 7 };
    let delta = calculate_movement_delta(s.get_position(), target, 10, 10);
    assert_eq!(delta, Position { x: 2, y: -3 });
    for c in plan_travel(s.get_direction(), delta) {
        s.record_success(&c, 10, 10);
    }
    assert_eq!(s.get_position(), target);
    assert_eq!(s.get_direction(), Direction::Up);
}
