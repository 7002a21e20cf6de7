use sfu::config::Config;
use sfu::lifecycle::{
    create_session, destroy_session, handle_admin_message, handle_message, init, query_session,
    Receipt,
};
use sfu::messages::Subscription;
use sfu::outbound::{delivery_of, Action, Delivery, Event, Payload};
use sfu::signalling::process_join;
use sfu::switchboard::Switchboard;

fn open_config() -> Config {
    Config { auth_key: None, max_room_size: 10, max_ccu: 10 }
}

fn enter(board: &mut Switchboard, room: &str, user: &str) -> u64 {
    let handle = create_session(board, true).unwrap();
    let subscription = Subscription { notifications: true, data: true, media: None };
    let (result, _) = process_join(
        board,
        &open_config(),
        handle,
        room.to_string(),
        user.to_string(),
        Some(subscription),
        None,
        None,
    );
    assert!(result.is_ok());
    handle
}

fn leave_of(handle: u64, user: &str, room: &str) -> Action {
    Action::Notify {
        handle,
        event: Event::Leave { user_id: user.to_string(), room_id: room.to_string() },
    }
}

#[test]
fn missing_settings_are_replaced_by_defaults() {
    let (config, code) = init(None, true);
    assert!(config.auth_key.is_none());
    assert_eq!(config.max_room_size, usize::MAX);
    assert_eq!(config.max_ccu, usize::MAX);
    assert_eq!(code, 0);
}

#[test]
fn loaded_settings_are_kept() {
    let loaded = Config { auth_key: Some(vec![1, 2]), max_room_size: 3, max_ccu: 4 };
    let (config, code) = init(Some(loaded), false);
    assert_eq!(config.auth_key, Some(vec![1, 2]));
    assert_eq!(config.max_room_size, 3);
    assert_eq!(config.max_ccu, 4);
    assert_eq!(code, -1);
}

#[test]
fn sessions_need_a_gateway_handle() {
    let mut board = Switchboard::new();
    assert!(!board.is_exhausted());
    assert_eq!(create_session(&mut board, false), Err(-1));
    assert_eq!(board.session_count(), 0);
    assert_eq!(create_session(&mut board, true), Ok(0));
    assert_eq!(create_session(&mut board, true), Ok(1));
    assert_eq!(board.session_count(), 2);
}

#[test]
fn unknown_sessions_cannot_be_destroyed() {
    let mut board = Switchboard::new();
    let handle = create_session(&mut board, true).unwrap();
    assert_eq!(destroy_session(&mut board, None), Err(-1));
    assert!(board.is_live(handle));
}

#[test]
fn handles_are_not_given_out_again() {
    let mut board = Switchboard::new();
    let first = create_session(&mut board, true).unwrap();
    assert_eq!(destroy_session(&mut board, Some(first)), Ok(vec![]));
    assert!(!board.is_live(first));
    let second = create_session(&mut board, true).unwrap();
    assert_ne!(first, second);
}

#[test]
fn roommates_are_told_when_the_last_connection_goes() {
    let mut board = Switchboard::new();
    let alice = enter(&mut board, "lobby", "alice");
    let bob = enter(&mut board, "lobby", "bob");
    let carol = enter(&mut board, "attic", "carol");
    let actions = destroy_session(&mut board, Some(bob)).unwrap();
    assert_eq!(actions, vec![leave_of(alice, "bob", "lobby")]);
    assert!(board.is_live(alice));
    assert!(board.is_live(carol));
    assert_eq!(board.occupants_of(&"lobby".to_string()), vec![alice]);
}

#[test]
fn nobody_is_told_while_another_connection_is_left() {
    let mut board = Switchboard::new();
    let _alice = enter(&mut board, "lobby", "alice");
    let first = enter(&mut board, "lobby", "bob");
    let second = enter(&mut board, "lobby", "bob");
    assert_eq!(destroy_session(&mut board, Some(first)), Ok(vec![]));
    assert!(board.is_connected(&"bob".to_string()));
    assert_eq!(destroy_session(&mut board, Some(second)).unwrap().len(), 1);
    assert!(!board.is_connected(&"bob".to_string()));
}

#[test]
fn sessions_that_never_joined_leave_silently() {
    let mut board = Switchboard::new();
    let _alice = enter(&mut board, "lobby", "alice");
    let quiet = create_session(&mut board, true).unwrap();
    assert_eq!(destroy_session(&mut board, Some(quiet)), Ok(vec![]));
}

#[test]
fn sessions_and_administrators_are_told_nothing() {
    assert_eq!(query_session(), Payload::Empty);
    assert_eq!(handle_admin_message(), Payload::Empty);
}

#[test]
fn messages_are_acknowledged() {
    assert_eq!(handle_message(true), Receipt::OkWait { hint: "Processing.".to_string() });
    assert_eq!(
        handle_message(false),
        Receipt::Error { msg: "No handle associated with message!".to_string() }
    );
}

#[test]
fn gateway_codes_are_read() {
    assert_eq!(delivery_of(0), Delivery::Delivered);
    assert_eq!(delivery_of(458), Delivery::SessionMissing);
    assert_eq!(delivery_of(490), Delivery::Failed(490));
    assert_eq!(delivery_of(-1), Delivery::Failed(-1));
}
