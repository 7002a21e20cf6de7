//! What is remembered of one connection.
use crate::messages::{optional_subscription, optional_text, Subscription, SubscriptionView};
use vstd::prelude::*;

verus! {

/// Where a session has joined, and as whom. Set once, and never changed.
#[derive(Debug, PartialEq, Eq)]
pub struct JoinState {
    pub room_id: String,
    pub user_id: String,
}

/// The mathematical form of a [`JoinState`].
pub struct JoinStateView {
    pub room_id: Seq<char>,
    pub user_id: Seq<char>,
}

impl View for JoinState {
    type V = JoinStateView;

    open spec fn view(&self) -> JoinStateView {
        JoinStateView { room_id: self.room_id@, user_id: self.user_id@ }
    }
}

/// The mathematical form of an optional [`JoinState`].
pub open spec fn optional_join_state(join_state: Option<JoinState>) -> Option<JoinStateView> {
    match join_state {
        Some(joined) => Some(joined@),
        None => None,
    }
}

impl JoinState {
    /// The state of having joined `room_id` as `user_id`.
    pub fn new(room_id: String, user_id: String) -> (joined: Self)
        ensures
            joined@ == (JoinStateView { room_id: room_id@, user_id: user_id@ }),
    {
        JoinState { room_id, user_id }
    }
}

/// One live connection. A session that has been destroyed is not kept.
#[derive(Debug, PartialEq, Eq)]
pub struct Session {
    /// Tells this session from every other one, past or present.
    pub handle: u64,
    /// The room and user, once joined.
    pub join_state: Option<JoinState>,
    /// What to offer to those who subscribe to this session, once it publishes.
    pub subscriber_offer: Option<String>,
    /// What this session receives, once it has said so.
    pub subscription: Option<Subscription>,
    /// The number for the next full intra request that goes to this session.
    pub fir_seq: isize,
}

/// The mathematical form of a [`Session`].
pub struct SessionView {
    pub handle: u64,
    pub join_state: Option<JoinStateView>,
    pub subscriber_offer: Option<Seq<char>>,
    pub subscription: Option<SubscriptionView>,
    pub fir_seq: isize,
}

impl View for Session {
    type V = SessionView;

    open spec fn view(&self) -> SessionView {
        SessionView {
            handle: self.handle,
            join_state: optional_join_state(self.join_state),
            subscriber_offer: optional_text(self.subscriber_offer),
            subscription: optional_subscription(self.subscription),
            fir_seq: self.fir_seq,
        }
    }
}

impl SessionView {
    /// A connection of which nothing is known yet.
    pub open spec fn fresh(handle: u64) -> SessionView {
        SessionView {
            handle,
            join_state: None,
            subscriber_offer: None,
            subscription: None,
            fir_seq: 0,
        }
    }

    /// Whether this session has joined, as user `user_id`.
    pub open spec fn is_user(self, user_id: Seq<char>) -> bool {
        self.join_state is Some && self.join_state->0.user_id == user_id
    }

    /// Whether this session has joined room `room_id`.
    pub open spec fn is_in(self, room_id: Seq<char>) -> bool {
        self.join_state is Some && self.join_state->0.room_id == room_id
    }

    /// Whether this session sends the media of user `user_id`: it has joined as that user, and
    /// there is something to offer to subscribers.
    pub open spec fn publishes_for(self, user_id: Seq<char>) -> bool {
        self.is_user(user_id) && self.subscriber_offer is Some
    }
}

impl Session {
    /// Whether this session has joined, as user `user_id`.
    pub fn is_user(&self, user_id: &String) -> (yes: bool)
        ensures
            yes == self@.is_user(user_id@),
    {
        match &self.join_state {
            Some(joined) => joined.user_id == *user_id,
            None => false,
        }
    }

    /// Whether this session has joined room `room_id`.
    pub fn is_in(&self, room_id: &String) -> (yes: bool)
        ensures
            yes == self@.is_in(room_id@),
    {
        match &self.join_state {
            Some(joined) => joined.room_id == *room_id,
            None => false,
        }
    }

    /// Whether this session sends the media of user `user_id`.
    pub fn publishes_for(&self, user_id: &String) -> (yes: bool)
        ensures
            yes == self@.publishes_for(user_id@),
    {
        self.subscriber_offer.is_some() && self.is_user(user_id)
    }
}

} // verus!
