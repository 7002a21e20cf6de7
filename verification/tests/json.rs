use serde_json::Value;
use sfu::outbound::{Action, Event, Jsep, Payload, Reply};

fn parsed(text: &str) -> Value {
    serde_json::from_str(text).unwrap()
}

fn owned(text: &str) -> String {
    text.to_string()
}

#[test]
fn join_event_as_json() {
    let event = Event::Join { user_id: owned("alice"), room_id: owned("lobby") };
    assert_eq!(
        event.to_json(),
        parsed("{\"event\": \"join\", \"user_id\": \"alice\", \"room_id\": \"lobby\"}")
    );
}

#[test]
fn leave_event_as_json() {
    let event = Event::Leave { user_id: owned("alice"), room_id: owned("lobby") };
    assert_eq!(
        event.to_json(),
        parsed("{\"event\": \"leave\", \"user_id\": \"alice\", \"room_id\": \"lobby\"}")
    );
}

#[test]
fn block_events_as_json() {
    assert_eq!(
        Event::Blocked { by: owned("alice") }.to_json(),
        parsed("{\"event\": \"blocked\", \"by\": \"alice\"}")
    );
    assert_eq!(
        Event::Unblocked { by: owned("alice") }.to_json(),
        parsed("{\"event\": \"unblocked\", \"by\": \"alice\"}")
    );
}

#[test]
fn data_event_escapes_its_text() {
    let event = Event::Data { body: owned("say \"hi\"\n") };
    assert_eq!(event.to_json()["event"], "data");
    assert_eq!(event.to_json()["body"], "say \"hi\"\n");
    let push = Action::Notify { handle: 3, event }.push().unwrap();
    assert_eq!(push.body, "{\"body\":\"say \\\"hi\\\"\\n\",\"event\":\"data\"}");
}

#[test]
fn payloads_as_json() {
    assert_eq!(Payload::Empty.to_json(), parsed("{}"));
    let users = Payload::Users { room_id: owned("lobby"), users: vec![owned("a"), owned("b")] };
    assert_eq!(users.to_json(), parsed("{\"users\": {\"lobby\": [\"a\", \"b\"]}}"));
    let nobody = Payload::Users { room_id: owned("lobby"), users: vec![] };
    assert_eq!(nobody.to_json(), parsed("{\"users\": {\"lobby\": []}}"));
}

#[test]
fn descriptions_as_json() {
    assert_eq!(Jsep::Empty.to_json(), parsed("{}"));
    assert_eq!(
        Jsep::Offer { sdp: owned("v=0") }.to_json(),
        parsed("{\"type\": \"offer\", \"sdp\": \"v=0\"}")
    );
    assert_eq!(
        Jsep::Answer { sdp: owned("v=0") }.to_json(),
        parsed("{\"type\": \"answer\", \"sdp\": \"v=0\"}")
    );
}

#[test]
fn replies_as_json() {
    assert_eq!(
        Reply::Failure { msg: owned("Room is full.") }.to_json(),
        parsed("{\"success\": false, \"error\": {\"msg\": \"Room is full.\"}}")
    );
    assert_eq!(Reply::Success { response: None }.to_json(), parsed("{\"success\": true}"));
    assert_eq!(
        Reply::Success { response: Some(Payload::Empty) }.to_json(),
        parsed("{\"success\": true, \"response\": {}}")
    );
}

#[test]
fn notices_are_pushed_without_transaction_or_description() {
    let action = Action::Notify { handle: 7, event: Event::Blocked { by: owned("bob") } };
    let push = action.push().unwrap();
    assert_eq!(push.handle, 7);
    assert_eq!(push.txn, None);
    assert_eq!(push.jsep, None);
    assert_eq!(push.body, "{\"by\":\"bob\",\"event\":\"blocked\"}");
}

#[test]
fn offers_are_pushed_with_an_empty_body() {
    let push = Action::Offer { handle: 7, sdp: owned("v=0") }.push().unwrap();
    assert_eq!(push.handle, 7);
    assert_eq!(push.txn, None);
    assert_eq!(push.body, "{}");
    assert_eq!(push.jsep, Some(owned("{\"sdp\":\"v=0\",\"type\":\"offer\"}")));
}

#[test]
fn responses_are_pushed_with_their_transaction() {
    let action = Action::Respond {
        handle: 7,
        txn: 99,
        reply: Reply::Success { response: None },
        jsep: Jsep::Empty,
    };
    let push = action.push().unwrap();
    assert_eq!(push.handle, 7);
    assert_eq!(push.txn, Some(99));
    assert_eq!(push.body, "{\"success\":true}");
    assert_eq!(push.jsep, Some(owned("{}")));
}

#[test]
fn other_actions_push_nothing() {
    assert!(Action::Pli { handle: 1 }.push().is_none());
    assert!(Action::Fir { handle: 1, seq: 0 }.push().is_none());
    assert!(Action::RelayRtp { handle: 1, video: 1 }.push().is_none());
    assert!(Action::RelayRtcp { handle: 1, video: 1 }.push().is_none());
    assert!(Action::RelayData { handle: 1 }.push().is_none());
    assert!(Action::EndSession { handle: 1 }.push().is_none());
}

#[test]
fn payloads_as_text() {
    assert_eq!(Payload::Empty.to_text(), "{}");
    let users = Payload::Users { room_id: owned("lobby"), users: vec![owned("a"), owned("b")] };
    assert_eq!(users.to_text(), "{\"users\":{\"lobby\":[\"a\",\"b\"]}}");
}
