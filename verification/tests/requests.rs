use sfu::auth::{TokenCheck, ValidatedToken};
use sfu::config::Config;
use sfu::messages::{JsepKind, MessageKind, Subscription};
use sfu::outbound::{Action, Jsep, MessageResponse, Payload, Reply};
use sfu::requests::{answer_request, handle_message_async};
use sfu::switchboard::Switchboard;

fn owned(text: &str) -> String {
    text.to_string()
}

fn open_config() -> Config {
    Config { auth_key: None, max_room_size: 10, max_ccu: 10 }
}

fn join(user: &str, media: Option<&str>) -> Option<Result<MessageKind, String>> {
    let subscription =
        Subscription { notifications: true, data: true, media: media.map(owned) };
    Some(Ok(MessageKind::Join {
        room_id: owned("lobby"),
        user_id: owned(user),
        subscribe: Some(subscription),
        token: None,
    }))
}

fn offer(sdp: &str) -> Option<Result<JsepKind, String>> {
    Some(Ok(JsepKind::Offer { answer: owned("answer"), subscriber_offer: owned(sdp) }))
}

fn failure(handle: u64, txn: u64, msg: &str) -> Action {
    Action::Respond {
        handle,
        txn,
        reply: Reply::Failure { msg: owned(msg) },
        jsep: Jsep::Empty,
    }
}

fn success(handle: u64, txn: u64, response: Option<Payload>, jsep: Jsep) -> Action {
    Action::Respond { handle, txn, reply: Reply::Success { response }, jsep }
}

fn users(list: Vec<&str>) -> Payload {
    Payload::Users { room_id: owned("lobby"), users: list.into_iter().map(owned).collect() }
}

#[test]
fn empty_requests_succeed() {
    let mut board = Switchboard::new();
    let alice = board.connect();
    let actions =
        handle_message_async(&mut board, &open_config(), Some(alice), 5, None, None, None);
    assert_eq!(actions, vec![success(alice, 5, None, Jsep::Empty)]);
}

#[test]
fn messages_are_answered_last() {
    let mut board = Switchboard::new();
    let config = open_config();
    let alice = board.connect();
    handle_message_async(&mut board, &config, Some(alice), 1, join("alice", None), None, None);
    let bob = board.connect();
    let actions =
        handle_message_async(&mut board, &config, Some(bob), 2, join("bob", None), None, None);
    assert_eq!(actions.len(), 2);
    assert!(matches!(actions[0], Action::Notify { .. }));
    assert_eq!(actions[1], success(bob, 2, Some(users(vec!["alice"])), Jsep::Empty));
}

#[test]
fn messages_come_before_descriptions() {
    let mut board = Switchboard::new();
    let config = open_config();
    let alice = board.connect();
    let actions = handle_message_async(
        &mut board,
        &config,
        Some(alice),
        1,
        join("alice", None),
        None,
        offer("alice offer"),
    );
    let jsep = Jsep::Answer { sdp: owned("answer") };
    assert_eq!(actions, vec![success(alice, 1, Some(users(vec![])), jsep)]);
    let bob = board.connect();
    let actions = handle_message_async(
        &mut board,
        &config,
        Some(bob),
        2,
        join("bob", Some("alice")),
        None,
        None,
    );
    let jsep = Jsep::Offer { sdp: owned("alice offer") };
    assert_eq!(actions.last(), Some(&success(bob, 2, Some(users(vec!["alice"])), jsep)));
}

#[test]
fn descriptions_alone_are_answered() {
    let mut board = Switchboard::new();
    let alice = board.connect();
    let actions =
        handle_message_async(&mut board, &open_config(), Some(alice), 3, None, None, offer("x"));
    let jsep = Jsep::Answer { sdp: owned("answer") };
    assert_eq!(actions, vec![success(alice, 3, None, jsep)]);
}

#[test]
fn refused_messages_are_explained_and_descriptions_still_handled() {
    let mut board = Switchboard::new();
    let config = open_config();
    let alice = board.connect();
    handle_message_async(&mut board, &config, Some(alice), 1, join("alice", None), None, None);
    let actions = handle_message_async(
        &mut board,
        &config,
        Some(alice),
        2,
        join("alice", None),
        None,
        offer("late offer"),
    );
    assert_eq!(actions, vec![failure(alice, 2, "Handles may only join once!")]);
    assert_eq!(board.get_publisher(&owned("alice")), Some(alice));
}

#[test]
fn unreadable_parts_are_explained() {
    let mut board = Switchboard::new();
    let config = open_config();
    let alice = board.connect();
    let broken = || Some(Err(owned("bad message")));
    let actions =
        handle_message_async(&mut board, &config, Some(alice), 1, broken(), None, None);
    assert_eq!(actions, vec![failure(alice, 1, "bad message")]);
    let actions = handle_message_async(
        &mut board,
        &config,
        Some(alice),
        2,
        join("alice", None),
        None,
        Some(Err(owned("bad description"))),
    );
    assert_eq!(actions, vec![failure(alice, 2, "bad description")]);
    assert!(board.is_connected(&owned("alice")));
    let actions = handle_message_async(
        &mut board,
        &config,
        Some(alice),
        3,
        broken(),
        None,
        Some(Err(owned("bad description"))),
    );
    assert_eq!(actions, vec![failure(alice, 3, "bad message")]);
}

#[test]
fn requests_of_ended_sessions_are_dropped() {
    let mut board = Switchboard::new();
    let config = open_config();
    let alice = board.connect();
    board.remove_session(alice);
    let actions =
        handle_message_async(&mut board, &config, Some(alice), 1, join("alice", None), None, None);
    assert_eq!(actions, vec![]);
    let actions =
        handle_message_async(&mut board, &config, None, 1, join("alice", None), None, None);
    assert_eq!(actions, vec![]);
    assert!(!board.is_connected(&owned("alice")));
}

#[test]
fn token_checks_reach_the_message() {
    let mut board = Switchboard::new();
    let config = Config { auth_key: Some(vec![1]), max_room_size: 10, max_ccu: 10 };
    let alice = board.connect();
    let join = |token: Option<String>| {
        Some(Ok(MessageKind::Join {
            room_id: owned("lobby"),
            user_id: owned("alice"),
            subscribe: None,
            token,
        }))
    };
    let actions =
        handle_message_async(&mut board, &config, Some(alice), 1, join(None), None, None);
    assert_eq!(actions, vec![failure(alice, 1, "Rejecting anonymous join!")]);
    let good = Some(TokenCheck::Valid(ValidatedToken { join_hub: true, kick_users: false }));
    let token = Some(owned("token"));
    let actions =
        handle_message_async(&mut board, &config, Some(alice), 2, join(token), good, None);
    assert_eq!(actions, vec![success(alice, 2, Some(users(vec![])), Jsep::Empty)]);
}

#[test]
fn descriptions_take_the_place_of_offers() {
    let response = || {
        let jsep = Some(Jsep::Offer { sdp: owned("offer") });
        Some(Ok(MessageResponse { body: Some(Payload::Empty), jsep }))
    };
    let (reply, jsep) = answer_request(response(), None);
    assert_eq!(reply, Reply::Success { response: Some(Payload::Empty) });
    assert_eq!(jsep, Jsep::Offer { sdp: owned("offer") });
    let (reply, jsep) = answer_request(response(), Some(Ok(Jsep::Answer { sdp: owned("a") })));
    assert_eq!(reply, Reply::Success { response: Some(Payload::Empty) });
    assert_eq!(jsep, Jsep::Answer { sdp: owned("a") });
    let bare = Some(Ok(MessageResponse { body: None, jsep: None }));
    assert_eq!(answer_request(bare, None), (Reply::Success { response: None }, Jsep::Empty));
}
