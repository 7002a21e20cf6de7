//! That nothing is lost or added on the way in and out: messages say what they hold, and what goes
//! out is written in full.
use crate::json::{compact_text, writes, JsonTree, Push, PushView};
use crate::messages::{
    optional_subscription, optional_text, texts, JsepKind, JsepKindView, MessageKind,
    MessageKindView, Subscription, SubscriptionView,
};
use crate::negotiation::{audio_settings, decimal, digit, digits, offered_payload_type};
use crate::outbound::{
    action_views, outcome_view, Action, ActionView, Event, EventView, Jsep, JsepView, MessageError,
    MessageResponse, MessageResponseView, Payload, PayloadView, Reply, ReplyView,
};
use crate::requests::{description_view, jsep_result_view, message_result_view, message_view};
use crate::sessions::{JoinState, JoinStateView, Session};
use vstd::prelude::*;

verus! {

// On the way in.

/// A message is taken to hold exactly what it holds, and so is a session description.
pub proof fn law_messages_hold_what_they_say(msg: MessageKind, jsep: JsepKind, what: Subscription)
    ensures
        msg matches MessageKind::Join { room_id, user_id, subscribe, token } ==> (msg@ matches
            MessageKindView::Join { room_id: room, user_id: user, subscribe: wanted, token: shown }
            && room == room_id@ && user == user_id@ && match subscribe {
            Some(subscription) => wanted == Some(
                SubscriptionView {
                    notifications: subscription.notifications,
                    data: subscription.data,
                    media: match subscription.media {
                        Some(publisher) => Some(publisher@),
                        None => None,
                    },
                },
            ),
            None => wanted is None,
        } && match token {
            Some(text) => shown == Some(text@),
            None => shown is None,
        }),
        msg matches MessageKind::Kick { room_id, user_id, token } ==> msg@ == (
        MessageKindView::Kick { room_id: room_id@, user_id: user_id@, token: token@ }),
        msg matches MessageKind::Subscribe { what } ==> (msg@ matches MessageKindView::Subscribe {
            what: wanted,
        } && wanted.notifications == what.notifications && wanted.data == what.data
            && wanted.media is Some == what.media is Some && (what.media matches Some(publisher)
            ==> wanted.media == Some(publisher@))),
        msg matches MessageKind::Block { whom } ==> msg@ == (MessageKindView::Block { whom: whom@ }),
        msg matches MessageKind::Unblock { whom } ==> msg@ == (MessageKindView::Unblock {
            whom: whom@,
        }),
        msg matches MessageKind::Data { whom, body } ==> (msg@ matches MessageKindView::Data {
            whom: receiver,
            body: text,
        } && text == body@ && match whom {
            Some(user_id) => receiver == Some(user_id@),
            None => receiver is None,
        }),
        jsep matches JsepKind::Offer { answer, subscriber_offer } ==> jsep@ == (
        JsepKindView::Offer { answer: answer@, subscriber_offer: subscriber_offer@ }),
        jsep is Answer ==> jsep@ == JsepKindView::Answer,
        what@.notifications == what.notifications,
        what@.data == what.data,
        what.media matches Some(publisher) ==> what@.media == Some(publisher@),
        what.media is None ==> what@.media is None,
{
}

/// The token of a message is the one that came with a join or a kick; no other message has one.
pub proof fn law_joins_and_kicks_carry_tokens(msg: MessageKindView)
    ensures
        msg matches MessageKindView::Join { token, .. } ==> msg.token() == token,
        msg matches MessageKindView::Kick { token, .. } ==> msg.token() == Some(token),
        !(msg is Join) && !(msg is Kick) ==> msg.token() is None,
{
}

/// What can be left out is taken as it is, there or not, and so is what could not be read.
pub proof fn law_parts_are_taken_as_they_are(
    text: Option<String>,
    subscription: Option<Subscription>,
    list: Seq<String>,
    msg: Option<Result<MessageKind, String>>,
    jsep: Option<Result<JsepKind, String>>,
    i: int,
)
    ensures
        text is None ==> optional_text(text) is None,
        text matches Some(chars) ==> optional_text(text) == Some(chars@),
        subscription is None ==> optional_subscription(subscription) is None,
        subscription matches Some(wanted) ==> optional_subscription(subscription) == Some(wanted@),
        texts(list).len() == list.len(),
        0 <= i < list.len() ==> texts(list)[i] == list[i]@,
        match msg {
            None => message_view(msg) is None,
            Some(Ok(kind)) => message_view(msg) == Some(Ok::<MessageKindView, Seq<char>>(kind@)),
            Some(Err(reason)) => message_view(msg) == Some(
                Err::<MessageKindView, Seq<char>>(reason@),
            ),
        },
        match jsep {
            None => description_view(jsep) is None,
            Some(Ok(kind)) => description_view(jsep) == Some(Ok::<JsepKindView, Seq<char>>(kind@)),
            Some(Err(reason)) => description_view(jsep) == Some(
                Err::<JsepKindView, Seq<char>>(reason@),
            ),
        },
{
}

/// A session is taken to be what it holds.
pub proof fn law_sessions_hold_what_they_say(session: Session, joined: JoinState)
    ensures
        joined@ == (JoinStateView { room_id: joined.room_id@, user_id: joined.user_id@ }),
        session@.handle == session.handle,
        session@.fir_seq == session.fir_seq,
        session.join_state is None ==> session@.join_state is None,
        session.join_state matches Some(place) ==> session@.join_state == Some(
            JoinStateView { room_id: place.room_id@, user_id: place.user_id@ },
        ),
        session.subscriber_offer is None ==> session@.subscriber_offer is None,
        session.subscriber_offer matches Some(offer) ==> session@.subscriber_offer == Some(offer@),
        session.subscription is None ==> session@.subscription is None,
        session.subscription matches Some(wanted) ==> session@.subscription == Some(wanted@),
{
}

// On the way out.

/// Events, payloads, descriptions, replies and actions are taken to be what they hold.
pub proof fn law_actions_hold_what_they_say(
    event: Event,
    payload: Payload,
    jsep: Jsep,
    reply: Reply,
    action: Action,
    i: int,
)
    ensures
        event matches Event::Join { user_id, room_id } ==> event@ == (EventView::Join {
            user_id: user_id@,
            room_id: room_id@,
        }),
        event matches Event::Leave { user_id, room_id } ==> event@ == (EventView::Leave {
            user_id: user_id@,
            room_id: room_id@,
        }),
        event matches Event::Blocked { by } ==> event@ == (EventView::Blocked { by: by@ }),
        event matches Event::Unblocked { by } ==> event@ == (EventView::Unblocked { by: by@ }),
        event matches Event::Data { body } ==> event@ == (EventView::Data { body: body@ }),
        payload is Empty ==> payload@ == PayloadView::Empty,
        payload matches Payload::Users { room_id, users } ==> (payload@ matches PayloadView::Users {
            room_id: room,
            users: listed,
        } && room == room_id@ && listed.len() == users@.len() && (0 <= i < users@.len() ==> listed[i]
            == users@[i]@)),
        jsep is Empty ==> jsep@ == JsepView::Empty,
        jsep matches Jsep::Offer { sdp } ==> jsep@ == (JsepView::Offer { sdp: sdp@ }),
        jsep matches Jsep::Answer { sdp } ==> jsep@ == (JsepView::Answer { sdp: sdp@ }),
        reply matches Reply::Failure { msg } ==> reply@ == (ReplyView::Failure { msg: msg@ }),
        reply matches Reply::Success { response } ==> (reply@ matches ReplyView::Success {
            response: told,
        } && told is Some == response is Some && (response matches Some(body) ==> told == Some(
            body@,
        ))),
        action matches Action::Notify { handle, event } ==> action@ == (ActionView::Notify {
            handle,
            event: event@,
        }),
        action matches Action::Offer { handle, sdp } ==> action@ == (ActionView::Offer {
            handle,
            sdp: sdp@,
        }),
        action matches Action::Respond { handle, txn, reply, jsep } ==> action@ == (
        ActionView::Respond { handle, txn, reply: reply@, jsep: jsep@ }),
        action matches Action::Pli { handle } ==> action@ == (ActionView::Pli { handle }),
        action matches Action::Fir { handle, seq } ==> action@ == (ActionView::Fir { handle, seq }),
        action matches Action::RelayRtp { handle, video } ==> action@ == (ActionView::RelayRtp {
            handle,
            video,
        }),
        action matches Action::RelayRtcp { handle, video } ==> action@ == (ActionView::RelayRtcp {
            handle,
            video,
        }),
        action matches Action::RelayData { handle } ==> action@ == (ActionView::RelayData {
            handle,
        }),
        action matches Action::EndSession { handle } ==> action@ == (ActionView::EndSession {
            handle,
        }),
{
}

/// No action of a list is lost or added, and neither is a part of a response.
pub proof fn law_outcomes_hold_what_they_say(
    actions: Seq<Action>,
    response: MessageResponse,
    error: MessageError,
    jsep: Jsep,
    reason: String,
    i: int,
)
    ensures
        action_views(actions).len() == actions.len(),
        0 <= i < actions.len() ==> action_views(actions)[i] == actions[i]@,
        response@.body is Some == response.body is Some,
        response.body matches Some(body) ==> response@.body == Some(body@),
        response@.jsep is Some == response.jsep is Some,
        response.jsep matches Some(description) ==> response@.jsep == Some(description@),
        outcome_view(Ok(response)) == Ok::<MessageResponseView, MessageError>(response@),
        outcome_view(Err(error)) == Err::<MessageResponseView, MessageError>(error),
        message_result_view(Some(Ok(response))) == Some(
            Ok::<MessageResponseView, Seq<char>>(response@),
        ),
        message_result_view(Some(Err(reason))) == Some(
            Err::<MessageResponseView, Seq<char>>(reason@),
        ),
        message_result_view(None) is None,
        jsep_result_view(Some(Ok(jsep))) == Some(Ok::<JsepView, Seq<char>>(jsep@)),
        jsep_result_view(Some(Err(reason))) == Some(Err::<JsepView, Seq<char>>(reason@)),
        jsep_result_view(None) is None,
{
}

/// The JSON of an event names its kind, and whom and what it is about, and nothing else.
pub proof fn law_events_are_written_in_full(
    user_id: Seq<char>,
    room_id: Seq<char>,
    body: Seq<char>,
)
    ensures
        (EventView::Join { user_id, room_id }).tree() == JsonTree::Object(
            map![
                "event"@ => JsonTree::Text("join"@),
                "user_id"@ => JsonTree::Text(user_id),
                "room_id"@ => JsonTree::Text(room_id),
            ],
        ),
        (EventView::Leave { user_id, room_id }).tree() == JsonTree::Object(
            map![
                "event"@ => JsonTree::Text("leave"@),
                "user_id"@ => JsonTree::Text(user_id),
                "room_id"@ => JsonTree::Text(room_id),
            ],
        ),
        (EventView::Blocked { by: user_id }).tree() == JsonTree::Object(
            map!["event"@ => JsonTree::Text("blocked"@), "by"@ => JsonTree::Text(user_id)],
        ),
        (EventView::Unblocked { by: user_id }).tree() == JsonTree::Object(
            map!["event"@ => JsonTree::Text("unblocked"@), "by"@ => JsonTree::Text(user_id)],
        ),
        (EventView::Data { body }).tree() == JsonTree::Object(
            map!["event"@ => JsonTree::Text("data"@), "body"@ => JsonTree::Text(body)],
        ),
{
}

/// The JSON of a list of users holds each of them, in order, under the name of the room; the JSON of
/// an empty payload or description has no fields; that of a description names its kind and holds
/// its text.
pub proof fn law_payloads_are_written_in_full(
    room_id: Seq<char>,
    users: Seq<Seq<char>>,
    sdp: Seq<char>,
)
    ensures
        PayloadView::Empty.tree() == JsonTree::Object(Map::empty()),
        (PayloadView::Users { room_id, users }).tree() == JsonTree::Object(
            map![
                "users"@ => JsonTree::Object(
                    map![
                        room_id => JsonTree::Array(
                            Seq::new(users.len(), |i: int| JsonTree::Text(users[i])),
                        ),
                    ],
                ),
            ],
        ),
        JsepView::Empty.tree() == JsonTree::Object(Map::empty()),
        (JsepView::Offer { sdp }).tree() == JsonTree::Object(
            map!["type"@ => JsonTree::Text("offer"@), "sdp"@ => JsonTree::Text(sdp)],
        ),
        (JsepView::Answer { sdp }).tree() == JsonTree::Object(
            map!["type"@ => JsonTree::Text("answer"@), "sdp"@ => JsonTree::Text(sdp)],
        ),
{
    assert(users.map_values(|item: Seq<char>| JsonTree::Text(item)) =~= Seq::new(
        users.len(),
        |i: int| JsonTree::Text(users[i]),
    ));
}

/// The JSON of a reply tells success or failure, and the reason or what there is to tell, and
/// nothing else.
pub proof fn law_replies_are_written_in_full(msg: Seq<char>, payload: PayloadView)
    ensures
        (ReplyView::Failure { msg }).tree() == JsonTree::Object(
            map![
                "success"@ => JsonTree::Bool(false),
                "error"@ => JsonTree::Object(map!["msg"@ => JsonTree::Text(msg)]),
            ],
        ),
        (ReplyView::Success { response: None }).tree() == JsonTree::Object(
            map!["success"@ => JsonTree::Bool(true)],
        ),
        (ReplyView::Success { response: Some(payload) }).tree() == JsonTree::Object(
            map!["success"@ => JsonTree::Bool(true), "response"@ => payload.tree()],
        ),
{
}

/// Notices, offers and responses are pushed to the session they are for, in full; responses alone
/// carry a transaction, and notices alone no description. Nothing else is pushed.
pub proof fn law_pushes_carry_everything(
    handle: u64,
    event: EventView,
    sdp: Seq<char>,
    txn: u64,
    reply: ReplyView,
    jsep: JsepView,
    action: ActionView,
    push: Push,
    wanted: PushView,
)
    ensures
        (ActionView::Notify { handle, event }).push() == Some(
            PushView { handle, txn: None, body: event.tree(), jsep: None },
        ),
        (ActionView::Offer { handle, sdp }).push() == Some(
            PushView {
                handle,
                txn: None,
                body: JsonTree::Object(Map::empty()),
                jsep: Some(
                    JsonTree::Object(
                        map!["type"@ => JsonTree::Text("offer"@), "sdp"@ => JsonTree::Text(sdp)],
                    ),
                ),
            },
        ),
        (ActionView::Respond { handle, txn, reply, jsep }).push() == Some(
            PushView { handle, txn: Some(txn), body: reply.tree(), jsep: Some(jsep.tree()) },
        ),
        !(action is Notify) && !(action is Offer) && !(action is Respond) ==> action.push() is None,
        writes(push, wanted) ==> push.handle == wanted.handle && push.txn == wanted.txn
            && push.jsep is Some == wanted.jsep is Some,
        writes(push, wanted) ==> push.body@ == compact_text(wanted.body),
        writes(push, wanted) && wanted.jsep is Some ==> push.jsep->0@ == compact_text(
            wanted.jsep->0,
        ),
{
}

/// No two errors are told alike.
pub proof fn law_errors_are_told_apart(one: MessageError, other: MessageError)
    requires
        one != other,
    ensures
        one.message() != other.message(),
{
    reveal_strlit("Rejecting anonymous join!");
    reveal_strlit("Rejecting join with no join_hub permission!");
    reveal_strlit("Rejecting join with invalid token!");
    reveal_strlit("Room is full.");
    reveal_strlit("Server is full.");
    reveal_strlit("Handles may only join once!");
    reveal_strlit("Handles may only subscribe once!");
    reveal_strlit("Users may only subscribe once!");
    reveal_strlit("Can't subscribe to a nonexistent publisher.");
    reveal_strlit("Cannot block when not in a room.");
    reveal_strlit("Cannot unblock when not in a room.");
    reveal_strlit("Cannot send data when not in a room.");
    let a = one.message();
    let b = other.message();
    if a == b {
        assert(a[0] == b[0] && a[7] == b[7] && a.len() == b.len());
    }
}

// Numbers.

/// The number that a row of digits stands for.
pub open spec fn number_read(text: Seq<char>) -> int
    decreases text.len(),
{
    if text.len() == 0 {
        0
    } else {
        10 * number_read(text.drop_last()) + (text.last() as int - '0' as int)
    }
}

/// A natural number is written in digits that stand for it, and without a leading zero.
pub proof fn law_digits_stand_for_the_number(value: nat)
    ensures
        number_read(digits(value)) == value,
        digits(value).len() > 0,
        value > 0 ==> digits(value)[0] != '0',
        value == 0 ==> digits(value) == seq!['0'],
        forall|i: int|
            0 <= i < digits(value).len() ==> '0' as int <= #[trigger] digits(value)[i] as int
                <= '9' as int,
    decreases value,
{
    let text = digits(value);
    if value < 10 {
        assert(text =~= seq![digit(value)]);
        assert(text.drop_last() =~= Seq::<char>::empty());
        assert(number_read(text.drop_last()) == 0);
        assert(text.last() as int == '0' as int + value);
    } else {
        law_digits_stand_for_the_number(value / 10);
        assert(text.drop_last() =~= digits(value / 10));
        assert(text.last() as int == '0' as int + value % 10);
        assert(text[0] == digits(value / 10)[0]);
        assert forall|i: int| 0 <= i < text.len() implies '0' as int <= #[trigger] text[i] as int
            <= '9' as int by {
            if i < text.len() - 1 {
                assert(text[i] == digits(value / 10)[i]);
            }
        }
    }
}

/// The audio settings begin with the payload type, in decimal and with its sign, and go on with the
/// same settings for all. A stream that the publisher sends is offered with the publisher's payload
/// type, another one with a fixed type.
pub proof fn law_audio_settings_name_the_payload_type(payload_type: i32)
    ensures
        audio_settings(payload_type) == decimal(payload_type as int)
            + " stereo=0; sprop-stereo=0; usedtx=1;"@,
        payload_type >= 0 ==> number_read(decimal(payload_type as int)) == payload_type,
        payload_type < 0 ==> decimal(payload_type as int)[0] == '-' && number_read(
            decimal(payload_type as int).skip(1),
        ) == -payload_type,
        offered_payload_type(Some(payload_type)) == payload_type,
        offered_payload_type(None) == 100,
{
    if payload_type < 0 {
        let size = (-payload_type) as nat;
        law_digits_stand_for_the_number(size);
        assert(decimal(payload_type as int).skip(1) =~= digits(size));
    } else {
        law_digits_stand_for_the_number(payload_type as nat);
    }
}

} // verus!
