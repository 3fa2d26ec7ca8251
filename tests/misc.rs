use std::time::Duration;

use zappy_ai::commands::Command;
use zappy_ai::error::ClientError;
use zappy_ai::handshake::{check_welcome, parse_client_num, parse_map_dimensions};
use zappy_ai::inventory::Resource;
use zappy_ai::levels::LevelRequirement;
use zappy_ai::inventory::Inventory;
use zappy_ai::map::{Element, TileMap};

#[test]
fn command_lines() {
    assert_eq!(Command::Forward.to_string(), "Forward");
    assert_eq!(Command::ConnectNbr.to_string(), "Connect_nbr");
    assert_eq!(Command::Broadcast("HELP|2|red|0:0".to_string()).to_string(), "Broadcast HELP|2|red|0:0");
    assert_eq!(Command::Take(Resource::Linemate).to_string(), "Take linemate");
    assert_eq!(Command::Place(Resource::Food).to_string(), "Set food");
    assert_eq!(Command::Incantation.to_string(), "Incantation");
}

#[test]
fn command_durations() {
    assert_eq!(Command::Forward.get_duration(100), Duration::from_millis(70));
    assert_eq!(Command::Inventory.get_duration(100), Duration::from_millis(10));
    assert_eq!(Command::Fork.get_duration(1), Duration::from_secs(42));
    assert_eq!(Command::Incantation.get_duration(3), Duration::from_secs(100));
    assert_eq!(Command::ConnectNbr.get_duration(7), Duration::from_secs(0));
    assert_eq!(Command::Look.get_duration(3), Duration::from_nanos(2_333_333_333));
}

#[test]
fn handshake_lines() {
    assert!(check_welcome("WELCOME\n").is_ok());
    assert!(check_welcome("welcome").is_err());
    assert_eq!(parse_client_num("3\n"), Ok(3));
    assert_eq!(parse_client_num("0"), Err(ClientError::NoSlotsAvailable));
    assert_eq!(parse_client_num("-2"), Err(ClientError::NoSlotsAvailable));
    assert!(matches!(parse_client_num("many"), Err(ClientError::InvalidResponse(_))));
    assert_eq!(parse_map_dimensions("10 20\n"), Ok((10, 20)));
    assert!(matches!(parse_map_dimensions("10"), Err(ClientError::InvalidResponse(_))));
    assert!(matches!(parse_map_dimensions("10 x"), Err(ClientError::InvalidResponse(_))));
    assert!(matches!(parse_map_dimensions("0 5"), Err(ClientError::InvalidResponse(_))));
    assert!(matches!(parse_map_dimensions("1 2 3"), Err(ClientError::InvalidResponse(_))));
}

#[test]
fn error_texts() {
    assert_eq!(ClientError::invalid_response("bad").describe(), "Invalid response: bad");
    assert_eq!(
        ClientError::invalid_response("Invalid width"),
        ClientError::InvalidResponse("Invalid width".to_string())
    );
    assert_eq!(
        ClientError::command_error(String::from("late")),
        ClientError::CommandError("late".to_string())
    );
    assert_eq!(ClientError::NoSlotsAvailable.describe(), "No slots available for team");
    assert!(matches!(ClientError::connection_error("x"), ClientError::ConnectionError(_)));
    assert!(matches!(ClientError::command_error("x"), ClientError::CommandError(_)));
    assert!(matches!(ClientError::resource_error("x"), ClientError::ResourceError(_)));
    assert!(matches!(ClientError::inventory_error("x"), ClientError::InventoryError(_)));
    assert!(matches!(ClientError::incantation_error("x"), ClientError::IncantationError(_)));
    assert_eq!(ClientError::broadcast_error("lost").describe(), "Broadcast error: lost");
}

#[test]
fn requirement_rows() {
    let r = LevelRequirement::new(2, 1, Inventory { linemate: 1, ..Inventory::default() });
    assert_eq!(r.level, 2);
    assert_eq!(r.required_players, 1);
    assert_eq!(r.resources.linemate, 1);
}

#[test]
fn empty_map() {
    let _m = TileMap::new(3, 4);
    assert_eq!(Element::Empty, Element::Empty);
}
