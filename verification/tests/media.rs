use sfu::config::Config;
use sfu::delivery::{
    notify_except, notify_user, send_data_except, send_data_user, send_fir, send_message,
    send_offer, send_pli,
};
use sfu::lifecycle::destroy_session;
use sfu::media::{incoming_data, incoming_rtcp, incoming_rtp, setup_media};
use sfu::messages::Subscription;
use sfu::outbound::{Action, Event};
use sfu::signalling::{process_join, process_offer, process_subscribe};
use sfu::switchboard::Switchboard;

fn owned(text: &str) -> String {
    text.to_string()
}

fn enter_wanting(
    board: &mut Switchboard,
    room: &str,
    user: &str,
    notifications: bool,
    media: Option<&str>,
) -> u64 {
    let config = Config { auth_key: None, max_room_size: 10, max_ccu: 10 };
    let handle = board.connect();
    let subscription = Subscription { notifications, data: true, media: media.map(owned) };
    let subscribe = Some(subscription);
    let (result, _) =
        process_join(board, &config, handle, owned(room), owned(user), subscribe, None, None);
    assert!(result.is_ok());
    handle
}

/// Alice publishes, bob and carol subscribe to her.
fn scene(board: &mut Switchboard) -> (u64, u64, u64) {
    let alice = enter_wanting(board, "lobby", "alice", true, None);
    process_offer(board, alice, owned("answer"), owned("offer"));
    let bob = enter_wanting(board, "lobby", "bob", true, Some("alice"));
    let carol = enter_wanting(board, "lobby", "carol", false, Some("alice"));
    (alice, bob, carol)
}

#[test]
fn media_goes_to_subscribers() {
    let mut board = Switchboard::new();
    let (alice, bob, carol) = scene(&mut board);
    assert_eq!(
        incoming_rtp(&board, alice, 1),
        vec![
            Action::RelayRtp { handle: bob, video: 1 },
            Action::RelayRtp { handle: carol, video: 1 }
        ]
    );
    assert_eq!(incoming_rtp(&board, bob, 0), vec![]);
}

#[test]
fn data_packets_go_to_the_rest_of_the_room() {
    let mut board = Switchboard::new();
    let (alice, bob, carol) = scene(&mut board);
    let _dave = enter_wanting(&mut board, "attic", "dave", true, None);
    assert_eq!(
        incoming_data(&board, bob),
        vec![Action::RelayData { handle: alice }, Action::RelayData { handle: carol }]
    );
    let stranger = board.connect();
    assert_eq!(incoming_data(&board, stranger), vec![]);
}

#[test]
fn picture_losses_go_back_to_the_publisher() {
    let mut board = Switchboard::new();
    let (alice, bob, _carol) = scene(&mut board);
    assert_eq!(
        incoming_rtcp(&mut board, bob, 1, true, true),
        vec![Action::Pli { handle: alice }]
    );
}

#[test]
fn intra_requests_are_made_anew_for_the_publisher() {
    let mut board = Switchboard::new();
    let (alice, bob, carol) = scene(&mut board);
    assert_eq!(
        incoming_rtcp(&mut board, bob, 1, false, true),
        vec![Action::Fir { handle: alice, seq: 0 }]
    );
    assert_eq!(
        incoming_rtcp(&mut board, carol, 1, false, true),
        vec![Action::Fir { handle: alice, seq: 1 }]
    );
    assert_eq!(setup_media(&mut board, bob), vec![Action::Fir { handle: alice, seq: 2 }]);
    assert_eq!(setup_media(&mut board, alice), vec![]);
}

#[test]
fn other_control_packets_go_to_subscribers() {
    let mut board = Switchboard::new();
    let (alice, bob, carol) = scene(&mut board);
    let relayed = |video: i32| {
        vec![Action::RelayRtcp { handle: bob, video }, Action::RelayRtcp { handle: carol, video }]
    };
    assert_eq!(incoming_rtcp(&mut board, alice, 1, false, false), relayed(1));
    assert_eq!(incoming_rtcp(&mut board, alice, 0, true, true), relayed(0));
}

#[test]
fn ended_sessions_receive_nothing() {
    let mut board = Switchboard::new();
    let (alice, bob, carol) = scene(&mut board);
    destroy_session(&mut board, Some(bob)).unwrap();
    assert_eq!(incoming_rtp(&board, alice, 0), vec![Action::RelayRtp { handle: carol, video: 0 }]);
    assert_eq!(incoming_data(&board, alice), vec![Action::RelayData { handle: carol }]);
    destroy_session(&mut board, Some(alice)).unwrap();
    assert_eq!(board.media_senders_to(carol), Vec::<u64>::new());
    assert_eq!(incoming_rtp(&board, alice, 0), vec![]);
}

#[test]
fn audiences_split_by_user() {
    let mut board = Switchboard::new();
    let (alice, bob, carol) = scene(&mut board);
    let everyone = vec![alice, bob, carol];
    let event = Event::Data { body: owned("x") };
    let told = |handle: u64| Action::Notify { handle, event: Event::Data { body: owned("x") } };
    let bob_id = owned("bob");
    assert_eq!(send_data_user(&board, &event, &bob_id, &everyone), vec![told(bob)]);
    assert_eq!(
        send_data_except(&board, &event, &bob_id, &everyone),
        vec![told(alice), told(carol)]
    );
    assert_eq!(notify_user(&board, &event, &bob_id, &everyone), vec![told(bob)]);
    assert_eq!(notify_except(&board, &event, &bob_id, &everyone), vec![told(alice)]);
    assert_eq!(notify_user(&board, &event, &owned("carol"), &everyone), vec![]);
}

#[test]
fn listeners_must_have_joined_and_subscribed() {
    let mut board = Switchboard::new();
    let unjoined = board.connect();
    let subscription = Subscription { notifications: true, data: true, media: None };
    process_subscribe(&mut board, unjoined, &subscription).0.unwrap();
    let event = Event::Data { body: owned("x") };
    let everyone = vec![unjoined, 1000];
    assert_eq!(notify_except(&board, &event, &owned("bob"), &everyone), vec![]);
    assert_eq!(send_data_except(&board, &event, &owned("bob"), &everyone), vec![]);
}

#[test]
fn sending_covers_the_whole_list() {
    let mut board = Switchboard::new();
    let one = board.connect();
    let two = board.connect();
    let list = vec![two, one, two];
    let event = Event::Blocked { by: owned("x") };
    assert_eq!(send_message(&event, &list).len(), 3);
    assert_eq!(
        send_offer(&owned("v=0"), &vec![one]),
        vec![Action::Offer { handle: one, sdp: owned("v=0") }]
    );
    assert_eq!(
        send_pli(&list),
        vec![
            Action::Pli { handle: two },
            Action::Pli { handle: one },
            Action::Pli { handle: two }
        ]
    );
    assert_eq!(
        send_fir(&mut board, &list),
        vec![
            Action::Fir { handle: two, seq: 0 },
            Action::Fir { handle: one, seq: 0 },
            Action::Fir { handle: two, seq: 1 }
        ]
    );
}

#[test]
fn places_stay_as_they_were_set() {
    let mut board = Switchboard::new();
    let (alice, bob, carol) = scene(&mut board);
    let joined = |board: &Switchboard| {
        let session = board.session(bob).unwrap();
        let place = session.join_state.as_ref().unwrap();
        let media = session.subscription.as_ref().unwrap().media.clone();
        (place.room_id.clone(), place.user_id.clone(), media)
    };
    let before = joined(&board);
    assert_eq!(before, (owned("lobby"), owned("bob"), Some(owned("alice"))));
    setup_media(&mut board, carol);
    incoming_rtcp(&mut board, bob, 1, false, true);
    board.connect();
    destroy_session(&mut board, Some(alice)).unwrap();
    assert_eq!(joined(&board), before);
}

#[test]
fn nobody_is_told_or_sent_anything_twice() {
    let mut board = Switchboard::new();
    let (alice, bob, _carol) = scene(&mut board);
    let again = enter_wanting(&mut board, "lobby", "bob", true, Some("alice"));
    let (_, offers) = process_offer(&mut board, alice, owned("answer"), owned("newer"));
    assert_eq!(offers.len(), 3);
    for handle in [bob, again] {
        let sent = |actions: &Vec<Action>, wanted: &Action| {
            actions.iter().filter(|action| *action == wanted).count()
        };
        let offer = Action::Offer { handle, sdp: owned("newer") };
        assert_eq!(sent(&offers, &offer), 1);
        let relayed = Action::RelayRtp { handle, video: 1 };
        assert_eq!(sent(&incoming_rtp(&board, alice, 1), &relayed), 1);
        let data = Action::RelayData { handle };
        assert_eq!(sent(&incoming_data(&board, alice), &data), 1);
    }
}
