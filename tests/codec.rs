use zappy_ai::inventory::{Inventory, Resource};
use zappy_ai::server_event::{EventType, ServerEvent};

fn look_tiles(e: &ServerEvent) -> Vec<String> {
    match e {
        ServerEvent::Look(t) => t.clone(),
        other => panic!("expected a look, got {:?}", other),
    }
}

#[test]
fn single_token_segments_are_tiles() {
    let e = ServerEvent::from_line("[linemate, deraumere]");
    assert_eq!(look_tiles(&e), vec!["linemate".to_string(), "deraumere".to_string()]);
}

#[test]
fn player_segments_are_tiles() {
    let e = ServerEvent::from_line("[player, player]");
    assert_eq!(look_tiles(&e), vec!["player".to_string(), "player".to_string()]);
}

#[test]
fn name_count_pairs_are_inventory() {
    match ServerEvent::from_line("[food 3, linemate 1]") {
        ServerEvent::Inventory(inv) => {
            assert_eq!(inv.food, 3);
            assert_eq!(inv.linemate, 1);
            assert_eq!(inv.sibur, 0);
        }
        other => panic!("expected an inventory, got {:?}", other),
    }
}

#[test]
fn empty_bracket_is_empty_look() {
    assert!(look_tiles(&ServerEvent::from_line("[]")).is_empty());
    assert!(look_tiles(&ServerEvent::from_line("[ ]")).is_empty());
}

#[test]
fn player_with_count_is_not_inventory() {
    let e = ServerEvent::from_line("[player 1, food 2]");
    assert_eq!(look_tiles(&e), vec!["player 1".to_string(), "food 2".to_string()]);
}

#[test]
fn empty_tiles_are_kept() {
    let e = ServerEvent::from_line("[player food,, linemate]");
    assert_eq!(
        look_tiles(&e),
        vec!["player food".to_string(), "".to_string(), "linemate".to_string()]
    );
}

#[test]
fn simple_answers_ignore_case() {
    assert!(matches!(ServerEvent::from_line("ok"), ServerEvent::Okay));
    assert!(matches!(ServerEvent::from_line("KO"), ServerEvent::Ko));
    assert!(matches!(ServerEvent::from_line("Dead\n"), ServerEvent::Dead));
    assert!(matches!(ServerEvent::from_line("  oK  "), ServerEvent::Okay));
}

#[test]
fn elevation_prefix() {
    assert!(matches!(
        ServerEvent::from_line("Elevation underway"),
        ServerEvent::ElevationUnderway
    ));
    assert!(matches!(ServerEvent::from_line("ELEVATION"), ServerEvent::ElevationUnderway));
}

#[test]
fn message_split_on_first_comma() {
    match ServerEvent::from_line("message 3, HELP|3|team|1:2, extra") {
        ServerEvent::Message(o, p) => {
            assert_eq!(o, "3");
            assert_eq!(p, "HELP|3|team|1:2, extra");
        }
        other => panic!("expected a message, got {:?}", other),
    }
}

#[test]
fn message_without_comma_defaults_origin() {
    match ServerEvent::from_line("Message hello there") {
        ServerEvent::Message(o, p) => {
            assert_eq!(o, "0");
            assert_eq!(p, "hello there");
        }
        other => panic!("expected a message, got {:?}", other),
    }
}

#[test]
fn numbers() {
    assert!(matches!(ServerEvent::from_line("42"), ServerEvent::Value(42)));
    assert!(matches!(ServerEvent::from_line("-7"), ServerEvent::Value(-7)));
    assert!(matches!(ServerEvent::from_line("-2147483648"), ServerEvent::Value(i32::MIN)));
    assert!(matches!(ServerEvent::from_line("2147483647"), ServerEvent::Value(i32::MAX)));
}

#[test]
fn out_of_range_number_is_unknown() {
    match ServerEvent::from_line("99999999999") {
        ServerEvent::Unknown(s) => assert_eq!(s, "99999999999"),
        other => panic!("expected unknown, got {:?}", other),
    }
}

#[test]
fn anything_else_is_unknown() {
    match ServerEvent::from_line("  Current level: 2 ") {
        ServerEvent::Unknown(s) => assert_eq!(s, "Current level: 2"),
        other => panic!("expected unknown, got {:?}", other),
    }
    assert!(matches!(ServerEvent::from_line("1-2"), ServerEvent::Unknown(_)));
    assert!(matches!(ServerEvent::from_line("-"), ServerEvent::Unknown(_)));
    assert!(matches!(ServerEvent::from_line(""), ServerEvent::Unknown(_)));
    assert!(matches!(ServerEvent::from_line("["), ServerEvent::Unknown(_)));
}

#[test]
fn classify_shapes() {
    assert_eq!(ServerEvent::classify("ok"), EventType::Simple);
    assert_eq!(ServerEvent::classify("elevation underway"), EventType::Elevation);
    assert_eq!(ServerEvent::classify("message 1, x"), EventType::Message);
    assert_eq!(ServerEvent::classify("[food 1]"), EventType::Bracketed);
    assert_eq!(ServerEvent::classify("-12"), EventType::Numeric);
    assert_eq!(ServerEvent::classify("hello"), EventType::Unknown);
}

#[test]
fn parser_steps() {
    assert!(matches!(ServerEvent::parse_simple("OK"), Ok(ServerEvent::Okay)));
    let err = ServerEvent::parse_simple("fine").unwrap_err();
    assert_eq!(err.input, "fine");
    assert!(matches!(ServerEvent::parse_numeric("12"), Ok(ServerEvent::Value(12))));
    assert!(ServerEvent::parse_numeric("x").is_err());
    assert!(matches!(
        ServerEvent::parse_bracketed("[food 1]"),
        Ok(ServerEvent::Inventory(_))
    ));
    assert!(matches!(
        ServerEvent::parse_message("message 2, hi"),
        Ok(ServerEvent::Message(_, _))
    ));
}

#[test]
fn inventory_from_response() {
    let inv = Inventory::from_response("[food 10, linemate 2, deraumere 0, thystame 1, gold 3]")
        .unwrap();
    assert_eq!(inv.food, 10);
    assert_eq!(inv.linemate, 2);
    assert_eq!(inv.thystame, 1);
    assert_eq!(inv.get_resource("food"), 10);
    assert_eq!(inv.get_resource("gold"), 0);
    assert!(inv.has_resource("linemate"));
    assert!(!inv.has_resource("deraumere"));
}

#[test]
fn inventory_later_entry_wins_and_bad_count_is_zero() {
    let inv = Inventory::from_response("[food 1, food 7, sibur x]").unwrap();
    assert_eq!(inv.food, 7);
    assert_eq!(inv.sibur, 0);
}

#[test]
fn resource_names() {
    assert_eq!(Resource::Thystame.to_string(), "thystame");
    assert_eq!(Resource::from_string("phiras"), Some(Resource::Phiras));
    assert_eq!(Resource::from_string("Phiras"), None);
    assert_eq!(Resource::from_string("player"), None);
}

#[test]
fn parse_through_from_str() {
    let e: ServerEvent = "ko".parse().unwrap();
    assert!(matches!(e, ServerEvent::Ko));
}

#[test]
fn from_str_never_fails() {
    assert!(matches!("OK".parse::<ServerEvent>(), Ok(ServerEvent::Okay)));
    assert!(matches!(" ko ".parse::<ServerEvent>(), Ok(ServerEvent::Ko)));
    assert!(matches!("DEAD".parse::<ServerEvent>(), Ok(ServerEvent::Dead)));
    assert!(matches!(
        "ELEVATION underway".parse::<ServerEvent>(),
        Ok(ServerEvent::ElevationUnderway)
    ));
    assert!(matches!("-7".parse::<ServerEvent>(), Ok(ServerEvent::Value(-7))));
    assert!(matches!("3".parse::<ServerEvent>(), Ok(ServerEvent::Value(3))));
    match "okay".parse::<ServerEvent>() {
        Ok(ServerEvent::Unknown(s)) => assert_eq!(s, "okay"),
        other => panic!("expected unknown, got {:?}", other),
    }
    match "1-2".parse::<ServerEvent>() {
        Ok(ServerEvent::Unknown(s)) => assert_eq!(s, "1-2"),
        other => panic!("expected unknown, got {:?}", other),
    }
    assert!(matches!("".parse::<ServerEvent>(), Ok(ServerEvent::Unknown(_))));
    match "[player food, linemate, sibur]".parse::<ServerEvent>() {
        Ok(ServerEvent::Look(t)) => assert_eq!(t, vec!["player food", "linemate", "sibur"]),
        other => panic!("expected a look, got {:?}", other),
    }
    match "[food 10, linemate 0, deraumere 2, sibur 0, mendiane 0, phiras 1, thystame 0]"
        .parse::<ServerEvent>()
    {
        Ok(ServerEvent::Inventory(inv)) => {
            assert_eq!(inv.food, 10);
            assert_eq!(inv.deraumere, 2);
            assert_eq!(inv.phiras, 1);
            assert_eq!(inv.linemate + inv.sibur + inv.mendiane + inv.thystame, 0);
        }
        other => panic!("expected an inventory, got {:?}", other),
    }
}
