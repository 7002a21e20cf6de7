//! The messages that clients send.
use vstd::prelude::*;

verus! {

/// The characters of an optional string.
pub open spec fn optional_text(text: Option<String>) -> Option<Seq<char>> {
    match text {
        Some(chars) => Some(chars@),
        None => None,
    }
}

/// The characters of each string in a list.
pub open spec fn texts(list: Seq<String>) -> Seq<Seq<char>> {
    list.map_values(|text: String| text@)
}

/// What a session wants to receive.
#[derive(Debug, PartialEq, Eq)]
pub struct Subscription {
    /// Whether to be told of room events.
    pub notifications: bool,
    /// Whether to receive data messages.
    pub data: bool,
    /// The user whose audio and video to receive.
    pub media: Option<String>,
}

/// The mathematical form of a [`Subscription`].
pub struct SubscriptionView {
    pub notifications: bool,
    pub data: bool,
    pub media: Option<Seq<char>>,
}

impl View for Subscription {
    type V = SubscriptionView;

    open spec fn view(&self) -> SubscriptionView {
        SubscriptionView {
            notifications: self.notifications,
            data: self.data,
            media: optional_text(self.media),
        }
    }
}

impl Clone for Subscription {
    fn clone(&self) -> (copy: Self)
        ensures
            copy@ == self@,
    {
        let media = match &self.media {
            Some(user_id) => Some(user_id.clone()),
            None => None,
        };
        Subscription { notifications: self.notifications, data: self.data, media }
    }
}

/// The mathematical form of an optional [`Subscription`].
pub open spec fn optional_subscription(subscription: Option<Subscription>) -> Option<SubscriptionView> {
    match subscription {
        Some(wanted) => Some(wanted@),
        None => None,
    }
}

/// A signalling message.
#[allow(inconsistent_fields)]
#[derive(Debug, PartialEq, Eq)]
pub enum MessageKind {
    /// Enter a room as some user, optionally subscribing at once.
    Join {
        room_id: String,
        user_id: String,
        subscribe: Option<Subscription>,
        token: Option<String>,
    },
    /// End every session of a user in a room.
    Kick { room_id: String, user_id: String, token: String },
    /// Say what to receive.
    Subscribe { what: Subscription },
    /// Stop traffic to and from a user.
    Block { whom: String },
    /// Let traffic to and from a user flow again.
    Unblock { whom: String },
    /// Send text to one user, or to everyone else in the room.
    Data { whom: Option<String>, body: String },
}

/// The mathematical form of a [`MessageKind`].
#[allow(inconsistent_fields)]
pub enum MessageKindView {
    Join {
        room_id: Seq<char>,
        user_id: Seq<char>,
        subscribe: Option<SubscriptionView>,
        token: Option<Seq<char>>,
    },
    Kick { room_id: Seq<char>, user_id: Seq<char>, token: Seq<char> },
    Subscribe { what: SubscriptionView },
    Block { whom: Seq<char> },
    Unblock { whom: Seq<char> },
    Data { whom: Option<Seq<char>>, body: Seq<char> },
}

impl View for MessageKind {
    type V = MessageKindView;

    open spec fn view(&self) -> MessageKindView {
        match *self {
            MessageKind::Join { room_id, user_id, subscribe, token } => MessageKindView::Join {
                room_id: room_id@,
                user_id: user_id@,
                subscribe: optional_subscription(subscribe),
                token: optional_text(token),
            },
            MessageKind::Kick { room_id, user_id, token } => MessageKindView::Kick {
                room_id: room_id@,
                user_id: user_id@,
                token: token@,
            },
            MessageKind::Subscribe { what } => MessageKindView::Subscribe { what: what@ },
            MessageKind::Block { whom } => MessageKindView::Block { whom: whom@ },
            MessageKind::Unblock { whom } => MessageKindView::Unblock { whom: whom@ },
            MessageKind::Data { whom, body } => MessageKindView::Data {
                whom: optional_text(whom),
                body: body@,
            },
        }
    }
}

impl MessageKindView {
    /// The token that the message carries, if any.
    pub open spec fn token(self) -> Option<Seq<char>> {
        match self {
            MessageKindView::Join { token, .. } => token,
            MessageKindView::Kick { token, .. } => Some(token),
            _ => None,
        }
    }
}

impl MessageKind {
    /// The token that the message carries, if any.
    pub fn token(&self) -> (token: Option<&String>)
        ensures
            match token {
                Some(text) => self@.token() == Some(text@),
                None => self@.token() is None,
            },
    {
        match self {
            MessageKind::Join { token: Some(token), .. } => Some(token),
            MessageKind::Kick { token, .. } => Some(token),
            _ => None,
        }
    }
}

/// A session description from a client, once it has been negotiated.
#[derive(Debug, PartialEq, Eq)]
pub enum JsepKind {
    /// The client offered to publish. `answer` is what to tell it, `subscriber_offer` is what to
    /// offer to those who subscribe to it.
    Offer { answer: String, subscriber_offer: String },
    /// The client accepted an offer.
    Answer,
}

/// The mathematical form of a [`JsepKind`].
pub enum JsepKindView {
    Offer { answer: Seq<char>, subscriber_offer: Seq<char> },
    Answer,
}

impl View for JsepKind {
    type V = JsepKindView;

    open spec fn view(&self) -> JsepKindView {
        match *self {
            JsepKind::Offer { answer, subscriber_offer } => JsepKindView::Offer {
                answer: answer@,
                subscriber_offer: subscriber_offer@,
            },
            JsepKind::Answer => JsepKindView::Answer,
        }
    }
}

} // verus!
