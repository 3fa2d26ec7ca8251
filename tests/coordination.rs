use zappy_ai::broadcast::{
    decode_request, does_need_help, help_message, response_message, should_respond_to_help,
    BroadcastSystem, Rendezvous,
};
use zappy_ai::movement::Position;

#[test]
fn wire_encoding() {
    assert_eq!(help_message(3, "red", Position { x: 4, y: -12 }), "HELP|3|red|4:-12");
    assert_eq!(response_message(8, "blue team", Position { x: 0, y: 7 }), "RESP|8|blue team|0:7");
}

#[test]
fn decoding_requests() {
    assert_eq!(does_need_help("HELP|3|red|4:-12", "red"), Some((3, Position { x: 4, y: -12 })));
    assert_eq!(does_need_help("HELP|3|red|4:-12", "blue"), None);
    assert_eq!(does_need_help("RESP|3|red|4:-12", "red"), None);
    assert_eq!(does_need_help("HELP|x|red|4:-12", "red"), None);
    assert_eq!(does_need_help("HELP|3|red|4", "red"), None);
    assert_eq!(does_need_help("HELP|3|red|4:1|5", "red"), None);
    assert_eq!(
        decode_request("RESP|2|red|1:1", "RESP", "red"),
        Some((2, Position { x: 1, y: 1 }))
    );
}

#[test]
fn round_trip_of_a_call() {
    let text = help_message(5, "red", Position { x: -3, y: 9 });
    assert_eq!(does_need_help(&text, "red"), Some((5, Position { x: -3, y: 9 })));
}

#[test]
fn helping_is_for_close_levels() {
    assert!(should_respond_to_help(2, 3));
    assert!(should_respond_to_help(3, 3));
    assert!(!should_respond_to_help(1, 3));
    assert!(should_respond_to_help(1, 0));
}

#[test]
fn quorum_needs_required_players_less_one() {
    // level 3 asks for 2 players: the requester and one helper
    let mut rv = Rendezvous::open(2).unwrap();
    assert_eq!(rv.target_level, 3);
    assert_eq!(rv.needed, 1);
    assert!(!rv.quorum_reached());
    assert!(!rv.record("RESP|4|red|1:1", "red"));
    assert!(!rv.record("RESP|3|blue|1:1", "red"));
    assert!(!rv.record("HELP|3|red|1:1", "red"));
    assert!(!rv.quorum_reached());
    assert!(rv.record("RESP|3|red|1:1", "red"));
    assert_eq!(rv.responders, 1);
    assert!(rv.quorum_reached());
}

#[test]
fn bigger_quorum() {
    let mut rv = Rendezvous::open(4).unwrap();
    assert_eq!(rv.needed, 3);
    rv.record("RESP|5|red|0:0", "red");
    rv.record("RESP|5|red|0:1", "red");
    assert!(!rv.quorum_reached());
    rv.record("RESP|5|red|0:2", "red");
    assert!(rv.quorum_reached());
    assert!(Rendezvous::open(8).is_none());
}

#[test]
fn broadcast_bookkeeping() {
    let mut b = BroadcastSystem::new();
    assert_eq!(b.handle_broadcast("HELP|3|red|0:0", Position { x: 1, y: 1 }), None);
    assert_eq!(b.handle_broadcast("RESP|3|red|0:0", Position { x: 0, y: 0 }), None);
    assert_eq!(b.handle_broadcast("HELP|3|blue|0:0", Position { x: 2, y: 2 }), None);
    assert_eq!(
        b.handle_broadcast("RESP|3|red|5:5", Position { x: 0, y: 0 }),
        Some(Position { x: 1, y: 1 })
    );
    assert_eq!(
        b.handle_broadcast("RESP|3|blue|5:5", Position { x: 0, y: 0 }),
        Some(Position { x: 2, y: 2 })
    );
    assert_eq!(b.handle_broadcast("RESP|3|green|5:5", Position { x: 0, y: 0 }), None);
    assert_eq!(b.handle_broadcast("RESP|4|red|5:5", Position { x: 0, y: 0 }), None);
    assert_eq!(b.handle_broadcast("RESP|3", Position { x: 0, y: 0 }), None);
    assert_eq!(b.handle_broadcast("PING|3|red|0:0", Position { x: 0, y: 0 }), None);
}

#[test]
fn repeated_call_is_recorded_once() {
    let mut b = BroadcastSystem::new();
    b.handle_broadcast("HELP|3|red|0:0", Position { x: 1, y: 1 });
    b.handle_broadcast("HELP|3|red|0:0", Position { x: 1, y: 1 });
    // one distinct call at level 3: not yet two
    assert_eq!(b.handle_broadcast("RESP|3|red|5:5", Position { x: 0, y: 0 }), None);
    b.handle_broadcast("HELP|3|red|0:0", Position { x: 4, y: 4 });
    assert_eq!(
        b.handle_broadcast("RESP|3|red|5:5", Position { x: 0, y: 0 }),
        Some(Position { x: 1, y: 1 })
    );
}

#[test]
fn no_answer_no_attempt() {
    let rv = Rendezvous::open(2).unwrap();
    assert_eq!(rv.responders, 0);
    assert!(!rv.quorum_reached());
}
