use sfu::auth::{TokenCheck, ValidatedToken};
use sfu::config::Config;
use sfu::messages::{JsepKind, MessageKind, Subscription};
use sfu::outbound::{Action, Event, Jsep, MessageError, MessageResponse, Payload};
use sfu::signalling::{
    process_answer, process_block, process_data, process_join, process_jsep, process_kick,
    process_message, process_offer, process_subscribe, process_unblock,
};
use sfu::switchboard::Switchboard;

type Handled = (Result<MessageResponse, MessageError>, Vec<Action>);

fn owned(text: &str) -> String {
    text.to_string()
}

fn open_config() -> Config {
    Config { auth_key: None, max_room_size: 10, max_ccu: 10 }
}

fn keyed_config() -> Config {
    Config { auth_key: Some(vec![7]), max_room_size: 10, max_ccu: 10 }
}

fn wants(notifications: bool, data: bool, media: Option<&str>) -> Subscription {
    Subscription { notifications, data, media: media.map(owned) }
}

fn token(join_hub: bool, kick_users: bool) -> Option<TokenCheck> {
    Some(TokenCheck::Valid(ValidatedToken { join_hub, kick_users }))
}

fn join(
    board: &mut Switchboard,
    handle: u64,
    room: &str,
    user: &str,
    subscribe: Option<Subscription>,
) -> Handled {
    process_join(board, &open_config(), handle, owned(room), owned(user), subscribe, None, None)
}

fn enter(board: &mut Switchboard, room: &str, user: &str) -> u64 {
    let handle = board.connect();
    let (result, _) = join(board, handle, room, user, Some(wants(true, true, None)));
    assert!(result.is_ok());
    handle
}

fn publish(board: &mut Switchboard, room: &str, user: &str, offer: &str) -> u64 {
    let handle = enter(board, room, user);
    process_offer(board, handle, owned("answer"), owned(offer));
    handle
}

fn users(room: &str, list: Vec<&str>) -> Payload {
    Payload::Users { room_id: owned(room), users: list.into_iter().map(owned).collect() }
}

fn just(body: Payload) -> Result<MessageResponse, MessageError> {
    Ok(MessageResponse { body: Some(body), jsep: None })
}

fn with_offer(body: Payload, sdp: &str) -> Result<MessageResponse, MessageError> {
    Ok(MessageResponse { body: Some(body), jsep: Some(Jsep::Offer { sdp: owned(sdp) }) })
}

fn joined(handle: u64, user: &str, room: &str) -> Action {
    Action::Notify { handle, event: Event::Join { user_id: owned(user), room_id: owned(room) } }
}

#[test]
fn first_join_finds_an_empty_room() {
    let mut board = Switchboard::new();
    let alice = board.connect();
    let (result, actions) =
        join(&mut board, alice, "lobby", "alice", Some(wants(true, true, None)));
    assert_eq!(result, just(users("lobby", vec![])));
    assert_eq!(actions, vec![]);
    assert_eq!(board.occupants_of(&owned("lobby")), vec![alice]);
    assert_eq!(board.get_users(&owned("lobby")), vec![owned("alice")]);
}

#[test]
fn later_joins_are_told_and_told_of() {
    let mut board = Switchboard::new();
    let alice = enter(&mut board, "lobby", "alice");
    let elsewhere = enter(&mut board, "attic", "carol");
    let bob = board.connect();
    let (result, actions) = join(&mut board, bob, "lobby", "bob", Some(wants(true, true, None)));
    assert_eq!(result, just(users("lobby", vec!["alice"])));
    assert_eq!(actions, vec![joined(alice, "bob", "lobby")]);
    assert_eq!(board.occupants_of(&owned("lobby")), vec![alice, bob]);
    assert_eq!(board.occupants_of(&owned("attic")), vec![elsewhere]);
}

#[test]
fn own_sessions_are_not_told_of_a_join() {
    let mut board = Switchboard::new();
    let _first = enter(&mut board, "lobby", "alice");
    let second = board.connect();
    let (_, actions) = join(&mut board, second, "lobby", "alice", Some(wants(true, true, None)));
    assert_eq!(actions, vec![]);
    assert_eq!(board.get_users(&owned("lobby")), vec![owned("alice")]);
}

#[test]
fn quiet_sessions_are_not_told_of_a_join() {
    let mut board = Switchboard::new();
    let quiet = board.connect();
    join(&mut board, quiet, "lobby", "alice", Some(wants(false, true, None))).0.unwrap();
    let bob = board.connect();
    let (_, actions) = join(&mut board, bob, "lobby", "bob", Some(wants(true, true, None)));
    assert_eq!(actions, vec![]);
}

#[test]
fn joining_without_data_does_not_occupy_the_room() {
    let mut board = Switchboard::new();
    let alice = enter(&mut board, "lobby", "alice");
    let bob = board.connect();
    let (result, actions) = join(&mut board, bob, "lobby", "bob", Some(wants(true, false, None)));
    assert_eq!(result, just(users("lobby", vec!["alice"])));
    assert_eq!(actions, vec![]);
    let carol = board.connect();
    let (result, actions) = join(&mut board, carol, "lobby", "carol", None);
    assert_eq!(result, just(users("lobby", vec!["alice"])));
    assert_eq!(actions, vec![]);
    assert_eq!(board.occupants_of(&owned("lobby")), vec![alice]);
    assert!(board.is_connected(&owned("carol")));
}

#[test]
fn handles_join_only_once() {
    let mut board = Switchboard::new();
    let alice = enter(&mut board, "lobby", "alice");
    let (result, actions) = join(&mut board, alice, "attic", "mallory", None);
    assert_eq!(result, Err(MessageError::AlreadyJoined));
    assert_eq!(actions, vec![]);
    assert!(!board.is_connected(&owned("mallory")));
    assert!(board.is_connected(&owned("alice")));
}

#[test]
fn a_key_turns_away_joins_without_a_good_token() {
    let mut board = Switchboard::new();
    let handle = board.connect();
    let config = keyed_config();
    let attempt = |board: &mut Switchboard, text: Option<String>, check: Option<TokenCheck>| {
        process_join(board, &config, handle, owned("lobby"), owned("alice"), None, text, check).0
    };
    assert_eq!(attempt(&mut board, None, None), Err(MessageError::AnonymousJoin));
    assert_eq!(
        attempt(&mut board, Some(owned("t")), Some(TokenCheck::Invalid)),
        Err(MessageError::InvalidToken)
    );
    assert_eq!(attempt(&mut board, Some(owned("t")), None), Err(MessageError::InvalidToken));
    assert_eq!(
        attempt(&mut board, Some(owned("t")), token(false, true)),
        Err(MessageError::JoinNotPermitted)
    );
    assert!(!board.is_connected(&owned("alice")));
    assert!(attempt(&mut board, Some(owned("t")), token(true, false)).is_ok());
    assert!(board.is_connected(&owned("alice")));
}

#[test]
fn tokens_do_not_matter_without_a_key() {
    let mut board = Switchboard::new();
    let handle = board.connect();
    let (result, _) = process_join(
        &mut board,
        &open_config(),
        handle,
        owned("lobby"),
        owned("alice"),
        None,
        Some(owned("nonsense")),
        Some(TokenCheck::Invalid),
    );
    assert_eq!(result, just(users("lobby", vec![])));
}

#[test]
fn full_rooms_take_no_more_data_connections() {
    let mut board = Switchboard::new();
    let config = Config { auth_key: None, max_room_size: 1, max_ccu: 100 };
    let attempt = |board: &mut Switchboard, user: &str, data: bool| {
        let handle = board.connect();
        let subscribe = Some(wants(false, data, None));
        process_join(board, &config, handle, owned("lobby"), owned(user), subscribe, None, None).0
    };
    assert!(attempt(&mut board, "a", true).is_ok());
    assert!(attempt(&mut board, "b", true).is_ok());
    assert_eq!(attempt(&mut board, "c", true), Err(MessageError::RoomFull));
    assert!(attempt(&mut board, "d", false).is_ok());
    assert_eq!(board.occupants_of(&owned("lobby")).len(), 2);
    assert!(!board.is_connected(&owned("c")));
}

#[test]
fn full_servers_take_no_more_data_connections() {
    let mut board = Switchboard::new();
    let config = Config { auth_key: None, max_room_size: 100, max_ccu: 1 };
    let first = board.connect();
    let subscribe = Some(wants(false, true, None));
    let (result, _) =
        process_join(&mut board, &config, first, owned("a"), owned("a"), subscribe, None, None);
    assert!(result.is_ok());
    let second = board.connect();
    let subscribe = Some(wants(false, true, None));
    let (result, _) =
        process_join(&mut board, &config, second, owned("b"), owned("b"), subscribe, None, None);
    assert_eq!(result, Err(MessageError::ServerFull));
    let (result, _) =
        process_join(&mut board, &config, second, owned("b"), owned("b"), None, None, None);
    assert!(result.is_ok());
}

#[test]
fn joining_with_media_gets_the_publishers_offer() {
    let mut board = Switchboard::new();
    let alice = publish(&mut board, "lobby", "alice", "alice offer");
    let bob = board.connect();
    let (result, _) = join(&mut board, bob, "lobby", "bob", Some(wants(true, false, Some("alice"))));
    assert_eq!(result, with_offer(users("lobby", vec!["alice"]), "alice offer"));
    assert_eq!(board.subscribers_to(alice), vec![bob]);
}

#[test]
fn joining_with_unknown_media_fails_after_joining() {
    let mut board = Switchboard::new();
    let alice = enter(&mut board, "lobby", "alice");
    let bob = board.connect();
    let (result, actions) =
        join(&mut board, bob, "lobby", "bob", Some(wants(true, true, Some("nobody"))));
    assert_eq!(result, Err(MessageError::NoSuchPublisher));
    assert_eq!(actions, vec![joined(alice, "bob", "lobby")]);
    assert_eq!(board.occupants_of(&owned("lobby")), vec![alice, bob]);
    assert_eq!(board.get_users(&owned("lobby")), vec![owned("alice"), owned("bob")]);
    assert!(board.is_connected(&owned("bob")));
}

#[test]
fn joining_with_a_second_subscription_fails_after_joining() {
    let mut board = Switchboard::new();
    let bob = board.connect();
    process_subscribe(&mut board, bob, &wants(true, true, None)).0.unwrap();
    let (result, actions) = join(&mut board, bob, "lobby", "bob", Some(wants(true, true, None)));
    assert_eq!(result, Err(MessageError::AlreadySubscribedAtJoin));
    assert_eq!(actions, vec![]);
    assert!(board.is_connected(&owned("bob")));
    assert_eq!(board.occupants_of(&owned("lobby")), Vec::<u64>::new());
}

#[test]
fn users_who_only_joined_publish_nothing() {
    let mut board = Switchboard::new();
    enter(&mut board, "lobby", "alice");
    let bob = board.connect();
    let (result, _) = process_subscribe(&mut board, bob, &wants(false, false, Some("alice")));
    assert_eq!(result, Err(MessageError::NoSuchPublisher));
    assert_eq!(board.get_publisher(&owned("alice")), None);
}

#[test]
fn the_first_session_publishes_for_its_user() {
    let mut board = Switchboard::new();
    let first = publish(&mut board, "lobby", "alice", "first");
    let _second = publish(&mut board, "lobby", "alice", "second");
    assert_eq!(board.get_publisher(&owned("alice")), Some(first));
}

#[test]
fn subscribing_gets_the_last_offer() {
    let mut board = Switchboard::new();
    let alice = publish(&mut board, "lobby", "alice", "old offer");
    process_offer(&mut board, alice, owned("answer"), owned("new offer"));
    let bob = board.connect();
    let (result, actions) = process_subscribe(&mut board, bob, &wants(false, false, Some("alice")));
    assert_eq!(result, with_offer(Payload::Empty, "new offer"));
    assert_eq!(actions, vec![]);
    assert_eq!(board.media_recipients_for(alice), vec![bob]);
    assert_eq!(board.media_senders_to(bob), vec![alice]);
}

#[test]
fn subscribing_without_media_gets_no_offer() {
    let mut board = Switchboard::new();
    let bob = board.connect();
    let (result, _) = process_subscribe(&mut board, bob, &wants(true, false, None));
    assert_eq!(result, just(Payload::Empty));
}

#[test]
fn handles_subscribe_only_once() {
    let mut board = Switchboard::new();
    let alice = publish(&mut board, "lobby", "alice", "offer");
    let (result, _) = process_subscribe(&mut board, alice, &wants(true, true, Some("alice")));
    assert_eq!(result, Err(MessageError::AlreadySubscribed));
    assert_eq!(board.subscribers_to(alice), Vec::<u64>::new());
}

#[test]
fn new_offers_go_to_subscribers() {
    let mut board = Switchboard::new();
    let alice = publish(&mut board, "lobby", "alice", "offer");
    let bob = board.connect();
    process_subscribe(&mut board, bob, &wants(false, false, Some("alice"))).0.unwrap();
    let (jsep, actions) = process_offer(&mut board, alice, owned("reply"), owned("newer"));
    assert_eq!(jsep, Jsep::Answer { sdp: owned("reply") });
    assert_eq!(actions, vec![Action::Offer { handle: bob, sdp: owned("newer") }]);
}

#[test]
fn answers_need_no_description() {
    let mut board = Switchboard::new();
    let alice = board.connect();
    assert_eq!(process_answer(), Jsep::Empty);
    assert_eq!(process_jsep(&mut board, alice, JsepKind::Answer), (Jsep::Empty, vec![]));
}

#[test]
fn kicks_end_every_session_of_the_user_in_the_room() {
    let mut board = Switchboard::new();
    let _alice = enter(&mut board, "lobby", "alice");
    let first = enter(&mut board, "lobby", "bob");
    let _elsewhere = enter(&mut board, "attic", "bob");
    let second = board.connect();
    join(&mut board, second, "lobby", "bob", None).0.unwrap();
    let (room, user) = (owned("lobby"), owned("bob"));
    let (result, actions) =
        process_kick(&board, &keyed_config(), &room, &user, token(false, true));
    assert_eq!(result, just(Payload::Empty));
    assert_eq!(
        actions,
        vec![Action::EndSession { handle: first }, Action::EndSession { handle: second }]
    );
}

#[test]
fn kicks_without_permission_are_answered_and_ignored() {
    let mut board = Switchboard::new();
    enter(&mut board, "lobby", "bob");
    let (room, user) = (owned("lobby"), owned("bob"));
    let refused = vec![
        process_kick(&board, &keyed_config(), &room, &user, token(true, false)),
        process_kick(&board, &keyed_config(), &room, &user, Some(TokenCheck::Invalid)),
        process_kick(&board, &keyed_config(), &room, &user, None),
        process_kick(&board, &open_config(), &room, &user, token(true, true)),
    ];
    for (result, actions) in refused {
        assert_eq!(result, just(Payload::Empty));
        assert_eq!(actions, vec![]);
    }
}

#[test]
fn blocking_tells_the_user_and_stops_traffic() {
    let mut board = Switchboard::new();
    let alice = publish(&mut board, "lobby", "alice", "offer");
    let bob = board.connect();
    join(&mut board, bob, "lobby", "bob", Some(wants(true, true, Some("alice")))).0.unwrap();
    assert_eq!(board.data_recipients_for(alice), vec![bob]);
    let (result, actions) = process_block(&mut board, alice, owned("bob"));
    assert_eq!(result, just(Payload::Empty));
    let event = Event::Blocked { by: owned("alice") };
    assert_eq!(actions, vec![Action::Notify { handle: bob, event }]);
    assert_eq!(board.media_recipients_for(alice), Vec::<u64>::new());
    assert_eq!(board.media_senders_to(bob), Vec::<u64>::new());
    assert_eq!(board.data_recipients_for(alice), Vec::<u64>::new());
    assert_eq!(board.data_recipients_for(bob), Vec::<u64>::new());
    assert_eq!(board.subscribers_to(alice), vec![bob]);
}

#[test]
fn unblocking_restores_traffic_and_asks_for_a_frame() {
    let mut board = Switchboard::new();
    let alice = publish(&mut board, "lobby", "alice", "offer");
    let bob = board.connect();
    join(&mut board, bob, "lobby", "bob", Some(wants(true, true, Some("alice")))).0.unwrap();
    process_block(&mut board, bob, owned("alice")).0.unwrap();
    process_block(&mut board, bob, owned("alice")).0.unwrap();
    assert_eq!(board.media_recipients_for(alice), Vec::<u64>::new());
    let (result, actions) = process_unblock(&mut board, bob, &owned("alice"));
    assert_eq!(result, just(Payload::Empty));
    let event = Event::Unblocked { by: owned("bob") };
    assert_eq!(
        actions,
        vec![Action::Fir { handle: alice, seq: 0 }, Action::Notify { handle: alice, event }]
    );
    assert_eq!(board.media_recipients_for(alice), vec![bob]);
}

#[test]
fn unblocking_someone_who_publishes_nothing_asks_for_no_frame() {
    let mut board = Switchboard::new();
    let alice = enter(&mut board, "lobby", "alice");
    let bob = enter(&mut board, "lobby", "bob");
    let (_, actions) = process_unblock(&mut board, bob, &owned("alice"));
    let event = Event::Unblocked { by: owned("bob") };
    assert_eq!(actions, vec![Action::Notify { handle: alice, event }]);
}

#[test]
fn a_block_by_the_other_side_stays_in_force() {
    let mut board = Switchboard::new();
    let alice = enter(&mut board, "lobby", "alice");
    let bob = enter(&mut board, "lobby", "bob");
    process_block(&mut board, alice, owned("bob")).0.unwrap();
    process_block(&mut board, bob, owned("alice")).0.unwrap();
    process_unblock(&mut board, alice, &owned("bob")).0.unwrap();
    assert_eq!(board.data_recipients_for(alice), Vec::<u64>::new());
    process_unblock(&mut board, bob, &owned("alice")).0.unwrap();
    assert_eq!(board.data_recipients_for(alice), vec![bob]);
}

#[test]
fn outside_a_room_nobody_can_block_unblock_or_send() {
    let mut board = Switchboard::new();
    let alice = board.connect();
    assert_eq!(
        process_block(&mut board, alice, owned("bob")),
        (Err(MessageError::BlockOutsideRoom), vec![])
    );
    assert_eq!(
        process_unblock(&mut board, alice, &owned("bob")),
        (Err(MessageError::UnblockOutsideRoom), vec![])
    );
    assert_eq!(
        process_data(&board, alice, None, &owned("hi")),
        (Err(MessageError::DataOutsideRoom), vec![])
    );
}

#[test]
fn data_goes_to_everyone_else_in_the_room() {
    let mut board = Switchboard::new();
    let alice = enter(&mut board, "lobby", "alice");
    let bob = enter(&mut board, "lobby", "bob");
    let carol = enter(&mut board, "lobby", "carol");
    let _dave = enter(&mut board, "attic", "dave");
    let (result, actions) = process_data(&board, alice, None, &owned("hi"));
    assert_eq!(result, just(Payload::Empty));
    let sent = |handle: u64| Action::Notify { handle, event: Event::Data { body: owned("hi") } };
    assert_eq!(actions, vec![sent(bob), sent(carol)]);
}

#[test]
fn data_for_one_user_goes_to_that_user_alone() {
    let mut board = Switchboard::new();
    let alice = enter(&mut board, "lobby", "alice");
    let bob = enter(&mut board, "lobby", "bob");
    let _carol = enter(&mut board, "lobby", "carol");
    let event = || Event::Data { body: owned("psst") };
    let (_, actions) = process_data(&board, alice, Some(owned("bob")), &owned("psst"));
    assert_eq!(actions, vec![Action::Notify { handle: bob, event: event() }]);
    let (_, actions) = process_data(&board, alice, Some(owned("alice")), &owned("psst"));
    assert_eq!(actions, vec![Action::Notify { handle: alice, event: event() }]);
}

#[test]
fn errors_have_their_texts() {
    let texts = vec![
        (MessageError::AnonymousJoin, "Rejecting anonymous join!"),
        (MessageError::JoinNotPermitted, "Rejecting join with no join_hub permission!"),
        (MessageError::InvalidToken, "Rejecting join with invalid token!"),
        (MessageError::RoomFull, "Room is full."),
        (MessageError::ServerFull, "Server is full."),
        (MessageError::AlreadyJoined, "Handles may only join once!"),
        (MessageError::AlreadySubscribedAtJoin, "Handles may only subscribe once!"),
        (MessageError::AlreadySubscribed, "Users may only subscribe once!"),
        (MessageError::NoSuchPublisher, "Can't subscribe to a nonexistent publisher."),
        (MessageError::BlockOutsideRoom, "Cannot block when not in a room."),
        (MessageError::UnblockOutsideRoom, "Cannot unblock when not in a room."),
        (MessageError::DataOutsideRoom, "Cannot send data when not in a room."),
    ];
    for (error, text) in texts {
        assert_eq!(error.text(), text);
    }
}

#[test]
fn tokens_are_checked_only_against_a_key() {
    let kick = MessageKind::Kick { room_id: owned("r"), user_id: owned("u"), token: owned("t") };
    let anonymous = MessageKind::Join {
        room_id: owned("r"),
        user_id: owned("u"),
        subscribe: None,
        token: None,
    };
    let block = MessageKind::Block { whom: owned("u") };
    let config = keyed_config();
    assert_eq!(config.token_to_check(&kick), Some((&vec![7u8], &owned("t"))));
    assert_eq!(config.token_to_check(&anonymous), None);
    assert_eq!(config.token_to_check(&block), None);
    assert_eq!(open_config().token_to_check(&kick), None);
}

#[test]
fn messages_reach_their_handlers() {
    let mut board = Switchboard::new();
    let config = keyed_config();
    let alice = board.connect();
    let mut run = |msg: MessageKind| {
        process_message(&mut board, &config, alice, msg, token(true, true))
    };
    let join = MessageKind::Join {
        room_id: owned("lobby"),
        user_id: owned("alice"),
        subscribe: None,
        token: Some(owned("t")),
    };
    assert_eq!(run(join).0, just(users("lobby", vec![])));
    let what = wants(true, true, Some("nobody"));
    let subscribe = MessageKind::Subscribe { what };
    assert_eq!(run(subscribe).0, Err(MessageError::NoSuchPublisher));
    assert_eq!(run(MessageKind::Block { whom: owned("bob") }).0, just(Payload::Empty));
    assert_eq!(run(MessageKind::Unblock { whom: owned("bob") }).0, just(Payload::Empty));
    let data = MessageKind::Data { whom: None, body: owned("hi") };
    assert_eq!(run(data), (just(Payload::Empty), vec![]));
    let kick = MessageKind::Kick {
        room_id: owned("lobby"),
        user_id: owned("alice"),
        token: owned("t"),
    };
    assert_eq!(run(kick), (just(Payload::Empty), vec![Action::EndSession { handle: alice }]));
}
