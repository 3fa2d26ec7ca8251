use zappy_ai::commands::Command;
use zappy_ai::error::ClientError;
use zappy_ai::inventory::Resource;
use zappy_ai::server_event::ServerEvent;
use zappy_ai::session::{check_response, is_success, response_shape, ResponseShape, Session, Step};
use zappy_ai::vision::invalidates_look;

fn payload(e: Option<ServerEvent>) -> String {
    match e {
        Some(ServerEvent::Message(_, p)) => p,
        other => panic!("expected a message, got {:?}", other),
    }
}

#[test]
fn messages_wait_in_arrival_order() {
    let mut s = Session::new();
    assert!(matches!(s.on_line("message 1, first"), Step::Queued));
    assert!(matches!(s.on_line("message 2, second"), Step::Queued));
    assert!(matches!(s.on_line("message 3, third"), Step::Queued));
    match s.on_line("ok") {
        Step::Answer(ServerEvent::Okay) => {}
        other => panic!("expected the answer, got {:?}", other),
    }
    assert_eq!(s.pending_count(), 3);
    assert_eq!(payload(s.take_next_async()), "first");
    assert!(matches!(s.on_line("message 4, fourth"), Step::Queued));
    assert_eq!(payload(s.take_next_async()), "second");
    assert_eq!(payload(s.take_next_async()), "third");
    assert_eq!(payload(s.take_next_async()), "fourth");
    assert!(s.take_next_async().is_none());
}

#[test]
fn death_is_fatal() {
    let mut s = Session::new();
    match s.on_line("dead") {
        Step::Fatal(ClientError::ConnectionError(_)) => {}
        other => panic!("expected a fatal step, got {:?}", other),
    }
    assert_eq!(s.pending_count(), 0);
}

#[test]
fn answers_are_checked_against_the_command() {
    assert_eq!(response_shape(&Command::Look), ResponseShape::TileList);
    assert_eq!(response_shape(&Command::Take(Resource::Food)), ResponseShape::Acknowledgement);
    let look = ServerEvent::from_line("[player food, linemate]");
    assert!(check_response(&Command::Look, look).is_ok());
    let number = ServerEvent::from_line("3");
    assert!(matches!(
        check_response(&Command::Look, number),
        Err(ClientError::InvalidResponse(_))
    ));
    assert!(check_response(&Command::Inventory, ServerEvent::from_line("[food 3]")).is_ok());
    assert!(check_response(&Command::ConnectNbr, ServerEvent::from_line("2")).is_ok());
    assert!(check_response(&Command::Incantation, ServerEvent::from_line("Elevation underway"))
        .is_ok());
    assert!(check_response(&Command::Incantation, ServerEvent::from_line("ko")).is_ok());
    assert!(check_response(&Command::Forward, ServerEvent::from_line("ok")).is_ok());
    assert!(check_response(&Command::Forward, ServerEvent::from_line("[food 3]")).is_err());
}

#[test]
fn success_answers() {
    assert!(is_success(&ServerEvent::from_line("ok")));
    assert!(is_success(&ServerEvent::from_line("Elevation underway")));
    assert!(!is_success(&ServerEvent::from_line("ko")));
    assert!(invalidates_look(&Command::Forward));
    assert!(invalidates_look(&Command::Take(Resource::Food)));
    assert!(!invalidates_look(&Command::Inventory));
    assert!(!invalidates_look(&Command::Broadcast("x".to_string())));
}
