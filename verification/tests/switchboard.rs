use sfu::messages::Subscription;
use sfu::sessions::JoinState;
use sfu::signalling::{process_block, process_data, process_offer, process_subscribe};
use sfu::switchboard::Switchboard;

fn owned(text: &str) -> String {
    text.to_string()
}

fn place(room: &str, user: &str) -> JoinState {
    JoinState::new(owned(room), owned(user))
}

fn wants(data: bool, media: Option<&str>) -> Subscription {
    Subscription { notifications: false, data, media: media.map(owned) }
}

#[test]
fn a_new_switchboard_is_empty() {
    let board = Switchboard::new();
    assert_eq!(board.session_count(), 0);
    assert!(!board.is_exhausted());
    assert!(!board.is_live(0));
    assert!(board.session(0).is_none());
    assert_eq!(board.get_users(&owned("lobby")), Vec::<String>::new());
}

#[test]
fn places_and_subscriptions_are_set_once() {
    let mut board = Switchboard::new();
    let handle = board.connect();
    assert!(board.set_join_state(handle, place("lobby", "alice")));
    assert!(!board.set_join_state(handle, place("attic", "bob")));
    assert!(board.set_subscription(handle, wants(true, None)));
    assert!(!board.set_subscription(handle, wants(false, None)));
    let session = board.session(handle).unwrap();
    assert_eq!(session.handle, handle);
    assert_eq!(session.join_state, Some(place("lobby", "alice")));
    assert_eq!(session.subscription, Some(wants(true, None)));
    assert_eq!(session.subscriber_offer, None);
    assert_eq!(session.fir_seq, 0);
}

#[test]
fn request_numbers_count_up_for_each_session() {
    let mut board = Switchboard::new();
    let one = board.connect();
    let other = board.connect();
    assert_eq!(board.take_fir_seq(one), 0);
    assert_eq!(board.take_fir_seq(one), 1);
    assert_eq!(board.take_fir_seq(other), 0);
    assert_eq!(board.take_fir_seq(one), 2);
}

#[test]
fn sessions_in_the_middle_can_go() {
    let mut board = Switchboard::new();
    let handles: Vec<u64> = (0..5).map(|_| board.connect()).collect();
    board.remove_session(handles[2]);
    board.remove_session(handles[2]);
    board.remove_session(99);
    assert_eq!(board.session_count(), 4);
    for (i, handle) in handles.iter().enumerate() {
        assert_eq!(board.is_live(*handle), i != 2);
    }
    assert_eq!(board.connect(), 5);
}

#[test]
fn users_are_found_in_their_rooms() {
    let mut board = Switchboard::new();
    let one = board.connect();
    let two = board.connect();
    let three = board.connect();
    assert!(board.set_join_state(three, place("lobby", "alice")));
    assert!(board.set_join_state(one, place("lobby", "alice")));
    assert!(board.set_join_state(two, place("attic", "alice")));
    assert_eq!(board.get_sessions(&owned("lobby"), &owned("alice")), vec![one, three]);
    assert_eq!(board.get_sessions(&owned("attic"), &owned("alice")), vec![two]);
    assert_eq!(board.get_sessions(&owned("lobby"), &owned("bob")), Vec::<u64>::new());
    // joining alone makes nobody an occupant
    assert_eq!(board.occupants_of(&owned("lobby")), Vec::<u64>::new());
}

#[test]
fn later_offers_of_other_sessions_are_not_used() {
    let mut board = Switchboard::new();
    let first = board.connect();
    let second = board.connect();
    let viewer = board.connect();
    assert!(board.set_join_state(first, place("lobby", "alice")));
    assert!(board.set_join_state(second, place("lobby", "alice")));
    process_offer(&mut board, first, owned("a"), owned("first offer"));
    process_offer(&mut board, second, owned("a"), owned("second offer"));
    let (result, _) = process_subscribe(&mut board, viewer, &wants(false, Some("alice")));
    let offered = result.unwrap().jsep.unwrap();
    assert_eq!(offered, sfu::outbound::Jsep::Offer { sdp: owned("first offer") });
    assert_eq!(board.media_recipients_for(first), vec![viewer]);
    assert_eq!(board.media_recipients_for(second), Vec::<u64>::new());
}

#[test]
fn messages_change_nobody_else() {
    let mut board = Switchboard::new();
    let alice = board.connect();
    let bob = board.connect();
    assert!(board.set_join_state(alice, place("lobby", "alice")));
    assert!(board.set_join_state(bob, place("lobby", "bob")));
    process_block(&mut board, alice, owned("bob")).0.unwrap();
    process_subscribe(&mut board, alice, &wants(true, None)).0.unwrap();
    let session = board.session(bob).unwrap();
    assert_eq!(session.join_state, Some(place("lobby", "bob")));
    assert_eq!(session.subscription, None);
    assert_eq!(session.fir_seq, 0);
}

#[test]
fn text_messages_pass_blocks() {
    let mut board = Switchboard::new();
    let alice = board.connect();
    let bob = board.connect();
    for (handle, user) in [(alice, "alice"), (bob, "bob")] {
        assert!(board.set_join_state(handle, place("lobby", user)));
        assert!(board.set_subscription(handle, wants(true, None)));
        board.join_room(handle, owned("lobby"));
    }
    process_block(&mut board, alice, owned("bob")).0.unwrap();
    assert_eq!(board.data_recipients_for(bob), Vec::<u64>::new());
    assert_eq!(process_data(&board, bob, None, &owned("hi")).1.len(), 1);
}

#[test]
fn blocks_outlive_the_sessions_that_made_them() {
    let mut board = Switchboard::new();
    let alice = board.connect();
    assert!(board.set_join_state(alice, place("lobby", "alice")));
    process_block(&mut board, alice, owned("bob")).0.unwrap();
    board.remove_session(alice);
    for user in ["alice", "bob"] {
        let handle = board.connect();
        assert!(board.set_join_state(handle, place("lobby", user)));
        assert!(board.set_subscription(handle, wants(true, None)));
        board.join_room(handle, owned("lobby"));
        assert_eq!(board.data_recipients_for(handle), Vec::<u64>::new());
    }
}
