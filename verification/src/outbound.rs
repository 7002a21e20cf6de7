//! What goes out: events, replies, session descriptions, and the things the gateway is asked to do.
use crate::messages::texts;
use vstd::prelude::*;

verus! {

/// Something that happened, told to other sessions.
#[derive(Debug, PartialEq, Eq)]
pub enum Event {
    /// A user has come to take part in a room.
    Join { user_id: String, room_id: String },
    /// A user has no connection left.
    Leave { user_id: String, room_id: String },
    /// The receiver has been blocked by a user.
    Blocked { by: String },
    /// The receiver is no longer blocked by a user.
    Unblocked { by: String },
    /// Text from another user.
    Data { body: String },
}

/// The mathematical form of an [`Event`].
pub enum EventView {
    Join { user_id: Seq<char>, room_id: Seq<char> },
    Leave { user_id: Seq<char>, room_id: Seq<char> },
    Blocked { by: Seq<char> },
    Unblocked { by: Seq<char> },
    Data { body: Seq<char> },
}

impl View for Event {
    type V = EventView;

    open spec fn view(&self) -> EventView {
        match *self {
            Event::Join { user_id, room_id } => EventView::Join {
                user_id: user_id@,
                room_id: room_id@,
            },
            Event::Leave { user_id, room_id } => EventView::Leave {
                user_id: user_id@,
                room_id: room_id@,
            },
            Event::Blocked { by } => EventView::Blocked { by: by@ },
            Event::Unblocked { by } => EventView::Unblocked { by: by@ },
            Event::Data { body } => EventView::Data { body: body@ },
        }
    }
}

impl Clone for Event {
    fn clone(&self) -> (copy: Self)
        ensures
            copy@ == self@,
    {
        match self {
            Event::Join { user_id, room_id } => Event::Join {
                user_id: user_id.clone(),
                room_id: room_id.clone(),
            },
            Event::Leave { user_id, room_id } => Event::Leave {
                user_id: user_id.clone(),
                room_id: room_id.clone(),
            },
            Event::Blocked { by } => Event::Blocked { by: by.clone() },
            Event::Unblocked { by } => Event::Unblocked { by: by.clone() },
            Event::Data { body } => Event::Data { body: body.clone() },
        }
    }
}

/// What a successful message is answered with.
#[derive(Debug, PartialEq, Eq)]
pub enum Payload {
    /// Nothing to tell.
    Empty,
    /// Who took part in the room just before the sender joined.
    Users { room_id: String, users: Vec<String> },
}

/// The mathematical form of a [`Payload`].
pub enum PayloadView {
    Empty,
    Users { room_id: Seq<char>, users: Seq<Seq<char>> },
}

impl View for Payload {
    type V = PayloadView;

    open spec fn view(&self) -> PayloadView {
        match *self {
            Payload::Empty => PayloadView::Empty,
            Payload::Users { room_id, users } => PayloadView::Users {
                room_id: room_id@,
                users: texts(users@),
            },
        }
    }
}

/// A session description for a client.
#[derive(Debug, PartialEq, Eq)]
pub enum Jsep {
    /// No description.
    Empty,
    /// The client is offered media.
    Offer { sdp: String },
    /// The client's own offer is accepted.
    Answer { sdp: String },
}

/// The mathematical form of a [`Jsep`].
pub enum JsepView {
    Empty,
    Offer { sdp: Seq<char> },
    Answer { sdp: Seq<char> },
}

impl View for Jsep {
    type V = JsepView;

    open spec fn view(&self) -> JsepView {
        match *self {
            Jsep::Empty => JsepView::Empty,
            Jsep::Offer { sdp } => JsepView::Offer { sdp: sdp@ },
            Jsep::Answer { sdp } => JsepView::Answer { sdp: sdp@ },
        }
    }
}

/// The mathematical form of an optional [`Payload`].
pub open spec fn optional_payload(payload: Option<Payload>) -> Option<PayloadView> {
    match payload {
        Some(body) => Some(body@),
        None => None,
    }
}

/// The mathematical form of an optional [`Jsep`].
pub open spec fn optional_jsep(jsep: Option<Jsep>) -> Option<JsepView> {
    match jsep {
        Some(description) => Some(description@),
        None => None,
    }
}

/// A response to a signalling message. May carry a body, a session description, or both.
#[derive(Debug, PartialEq, Eq)]
pub struct MessageResponse {
    pub body: Option<Payload>,
    pub jsep: Option<Jsep>,
}

/// The mathematical form of a [`MessageResponse`].
pub struct MessageResponseView {
    pub body: Option<PayloadView>,
    pub jsep: Option<JsepView>,
}

impl View for MessageResponse {
    type V = MessageResponseView;

    open spec fn view(&self) -> MessageResponseView {
        MessageResponseView { body: optional_payload(self.body), jsep: optional_jsep(self.jsep) }
    }
}

impl MessageResponse {
    /// A response with a body and a session description.
    pub fn new(body: Payload, jsep: Jsep) -> (response: Self)
        ensures
            response@ == (MessageResponseView { body: Some(body@), jsep: Some(jsep@) }),
    {
        MessageResponse { body: Some(body), jsep: Some(jsep) }
    }

    /// A response with a body alone.
    pub fn msg(body: Payload) -> (response: Self)
        ensures
            response@ == (MessageResponseView { body: Some(body@), jsep: None }),
    {
        MessageResponse { body: Some(body), jsep: None }
    }
}

/// Why a signalling message was refused.
#[derive(Clone, Copy, Debug, PartialEq, Eq, Structural)]
pub enum MessageError {
    /// A key is configured, and the join carried no token.
    AnonymousJoin,
    /// The token of the join gives no right to join.
    JoinNotPermitted,
    /// The token of the join is not good.
    InvalidToken,
    /// The room holds too many occupants.
    RoomFull,
    /// The server holds too many sessions.
    ServerFull,
    /// The session has joined before.
    AlreadyJoined,
    /// The session has subscribed before, and now joins with a subscription.
    AlreadySubscribedAtJoin,
    /// The session has subscribed before.
    AlreadySubscribed,
    /// Nobody sends the media of the user asked for.
    NoSuchPublisher,
    /// The session is in no room to block someone in.
    BlockOutsideRoom,
    /// The session is in no room to unblock someone in.
    UnblockOutsideRoom,
    /// The session is in no room to send data in.
    DataOutsideRoom,
}

impl MessageError {
    /// What the client is told.
    pub open spec fn message(self) -> Seq<char> {
        match self {
            MessageError::AnonymousJoin => "Rejecting anonymous join!"@,
            MessageError::JoinNotPermitted => "Rejecting join with no join_hub permission!"@,
            MessageError::InvalidToken => "Rejecting join with invalid token!"@,
            MessageError::RoomFull => "Room is full."@,
            MessageError::ServerFull => "Server is full."@,
            MessageError::AlreadyJoined => "Handles may only join once!"@,
            MessageError::AlreadySubscribedAtJoin => "Handles may only subscribe once!"@,
            MessageError::AlreadySubscribed => "Users may only subscribe once!"@,
            MessageError::NoSuchPublisher => "Can't subscribe to a nonexistent publisher."@,
            MessageError::BlockOutsideRoom => "Cannot block when not in a room."@,
            MessageError::UnblockOutsideRoom => "Cannot unblock when not in a room."@,
            MessageError::DataOutsideRoom => "Cannot send data when not in a room."@,
        }
    }

    /// What the client is told.
    pub fn text(&self) -> (text: String)
        ensures
            text@ == self.message(),
    {
        let message: &str = match self {
            MessageError::AnonymousJoin => "Rejecting anonymous join!",
            MessageError::JoinNotPermitted => "Rejecting join with no join_hub permission!",
            MessageError::InvalidToken => "Rejecting join with invalid token!",
            MessageError::RoomFull => "Room is full.",
            MessageError::ServerFull => "Server is full.",
            MessageError::AlreadyJoined => "Handles may only join once!",
            MessageError::AlreadySubscribedAtJoin => "Handles may only subscribe once!",
            MessageError::AlreadySubscribed => "Users may only subscribe once!",
            MessageError::NoSuchPublisher => "Can't subscribe to a nonexistent publisher.",
            MessageError::BlockOutsideRoom => "Cannot block when not in a room.",
            MessageError::UnblockOutsideRoom => "Cannot unblock when not in a room.",
            MessageError::DataOutsideRoom => "Cannot send data when not in a room.",
        };
        message.to_owned()
    }
}

/// The mathematical form of what a signalling message led to.
pub open spec fn outcome_view(result: Result<MessageResponse, MessageError>) -> Result<
    MessageResponseView,
    MessageError,
> {
    match result {
        Ok(response) => Ok(response@),
        Err(error) => Err(error),
    }
}

/// The answer to one request.
#[derive(Debug, PartialEq, Eq)]
pub enum Reply {
    /// The request failed, for this reason.
    Failure { msg: String },
    /// The request succeeded, with what is to be told, if anything.
    Success { response: Option<Payload> },
}

/// The mathematical form of a [`Reply`].
pub enum ReplyView {
    Failure { msg: Seq<char> },
    Success { response: Option<PayloadView> },
}

impl View for Reply {
    type V = ReplyView;

    open spec fn view(&self) -> ReplyView {
        match *self {
            Reply::Failure { msg } => ReplyView::Failure { msg: msg@ },
            Reply::Success { response } => ReplyView::Success {
                response: optional_payload(response),
            },
        }
    }
}

/// Something that the gateway is asked to do to one session.
#[derive(Debug, PartialEq, Eq)]
pub enum Action {
    /// Tell it of an event.
    Notify { handle: u64, event: Event },
    /// Offer it media.
    Offer { handle: u64, sdp: String },
    /// Answer the request that carried `txn`.
    Respond { handle: u64, txn: u64, reply: Reply, jsep: Jsep },
    /// Send it a picture loss indication.
    Pli { handle: u64 },
    /// Send it a full intra request made from this number.
    Fir { handle: u64, seq: i32 },
    /// Pass the media packet at hand on to it.
    RelayRtp { handle: u64, video: i32 },
    /// Pass the control packet at hand on to it.
    RelayRtcp { handle: u64, video: i32 },
    /// Pass the data at hand on to it, on the channel that it came in on.
    RelayData { handle: u64 },
    /// End it.
    EndSession { handle: u64 },
}

/// The mathematical form of an [`Action`].
pub enum ActionView {
    Notify { handle: u64, event: EventView },
    Offer { handle: u64, sdp: Seq<char> },
    Respond { handle: u64, txn: u64, reply: ReplyView, jsep: JsepView },
    Pli { handle: u64 },
    Fir { handle: u64, seq: i32 },
    RelayRtp { handle: u64, video: i32 },
    RelayRtcp { handle: u64, video: i32 },
    RelayData { handle: u64 },
    EndSession { handle: u64 },
}

impl ActionView {
    /// The session that this is done to.
    pub open spec fn target(self) -> u64 {
        match self {
            ActionView::Notify { handle, .. } => handle,
            ActionView::Offer { handle, .. } => handle,
            ActionView::Respond { handle, .. } => handle,
            ActionView::Pli { handle } => handle,
            ActionView::Fir { handle, .. } => handle,
            ActionView::RelayRtp { handle, .. } => handle,
            ActionView::RelayRtcp { handle, .. } => handle,
            ActionView::RelayData { handle } => handle,
            ActionView::EndSession { handle } => handle,
        }
    }
}

impl View for Action {
    type V = ActionView;

    open spec fn view(&self) -> ActionView {
        match *self {
            Action::Notify { handle, event } => ActionView::Notify { handle, event: event@ },
            Action::Offer { handle, sdp } => ActionView::Offer { handle, sdp: sdp@ },
            Action::Respond { handle, txn, reply, jsep } => ActionView::Respond {
                handle,
                txn,
                reply: reply@,
                jsep: jsep@,
            },
            Action::Pli { handle } => ActionView::Pli { handle },
            Action::Fir { handle, seq } => ActionView::Fir { handle, seq },
            Action::RelayRtp { handle, video } => ActionView::RelayRtp { handle, video },
            Action::RelayRtcp { handle, video } => ActionView::RelayRtcp { handle, video },
            Action::RelayData { handle } => ActionView::RelayData { handle },
            Action::EndSession { handle } => ActionView::EndSession { handle },
        }
    }
}

/// The mathematical form of a list of actions.
pub open spec fn action_views(actions: Seq<Action>) -> Seq<ActionView> {
    actions.map_values(|action: Action| action@)
}

/// What became of an attempt to push an event to a session.
#[derive(Clone, Copy, Debug, PartialEq, Eq, Structural)]
pub enum Delivery {
    /// It is on its way.
    Delivered,
    /// The session is gone, which is unusual but no problem.
    SessionMissing,
    /// The gateway refused it, with this code.
    Failed(i32),
}

/// The gateway's code for a session that it does not know.
pub const SESSION_NOT_FOUND: i32 = 458;

/// Reads the code that the gateway returns for a pushed event.
pub fn delivery_of(code: i32) -> (delivery: Delivery)
    ensures
        delivery is Delivered <==> code == 0,
        delivery is SessionMissing <==> code == SESSION_NOT_FOUND,
        code != 0 && code != SESSION_NOT_FOUND ==> delivery == Delivery::Failed(code),
{
    if code == 0 {
        Delivery::Delivered
    } else if code == SESSION_NOT_FOUND {
        Delivery::SessionMissing
    } else {
        Delivery::Failed(code)
    }
}

} // verus!
