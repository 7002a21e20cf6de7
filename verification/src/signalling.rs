//! How signalling messages are handled.
use crate::auth::TokenCheck;
use crate::config::Config;
use crate::delivery::{
    after_firs, fir, firs, media_offer, notices, notify_except, notify_user, send_data_except,
    send_data_user, send_fir, send_offer, Channel,
};
use crate::messages::{
    optional_subscription, optional_text, JsepKind, JsepKindView, MessageKind, MessageKindView,
    Subscription, SubscriptionView,
};
use crate::model::SwitchboardView;
use crate::outbound::{
    action_views, optional_jsep, outcome_view, Action, ActionView, Event, EventView, Jsep, JsepView,
    MessageError, MessageResponse, MessageResponseView, Payload, PayloadView,
};
use crate::seqs::lemma_filter_has;
use crate::sessions::JoinState;
use crate::switchboard::Switchboard;
use vstd::prelude::*;

verus! {

/// What handling a message leads to.
#[verifier::ext_equal]
pub struct Step {
    /// The switchboard afterwards.
    pub board: SwitchboardView,
    /// The response, or why there is none.
    pub result: Result<MessageResponseView, MessageError>,
    /// What the gateway is asked to do, in this order.
    pub actions: Seq<ActionView>,
}

/// Nothing happens, and the message is refused.
pub open spec fn refused(board: SwitchboardView, error: MessageError) -> Step {
    Step { board, result: Err(error), actions: Seq::empty() }
}

/// A response with a body, and with a session description where there is one.
pub open spec fn response(body: PayloadView, jsep: Option<JsepView>) -> Result<
    MessageResponseView,
    MessageError,
> {
    Ok(MessageResponseView { body: Some(body), jsep })
}

// Joining.

/// Why a join is refused for its token. Without a key, everyone may join; with one, it takes a
/// token that was found to be good and says so. A token that was not checked counts as not good.
pub open spec fn admission_error(
    config: Config,
    token: Option<Seq<char>>,
    check: Option<TokenCheck>,
) -> Option<MessageError> {
    if config.auth_key is None {
        None
    } else if token is None {
        Some(MessageError::AnonymousJoin)
    } else {
        match check {
            Some(TokenCheck::Valid(claims)) => if claims.join_hub {
                None
            } else {
                Some(MessageError::JoinNotPermitted)
            },
            _ => Some(MessageError::InvalidToken),
        }
    }
}

/// Why a join is refused for want of space. Only data connections count: each user is taken to
/// have one of them.
pub open spec fn capacity_error(
    board: SwitchboardView,
    config: Config,
    room_id: Seq<char>,
    subscribe: Option<SubscriptionView>,
) -> Option<MessageError> {
    if subscribe is None || !subscribe->0.data {
        None
    } else if board.occupants_of(room_id).len() > config.max_room_size {
        Some(MessageError::RoomFull)
    } else if board.connected.len() > config.max_ccu {
        Some(MessageError::ServerFull)
    } else {
        None
    }
}

/// Why a join is refused without any effect: the first of these reasons that applies.
pub open spec fn join_error(
    board: SwitchboardView,
    config: Config,
    from: u64,
    room_id: Seq<char>,
    subscribe: Option<SubscriptionView>,
    token: Option<Seq<char>>,
    check: Option<TokenCheck>,
) -> Option<MessageError> {
    if admission_error(config, token, check) is Some {
        admission_error(config, token, check)
    } else if capacity_error(board, config, room_id, subscribe) is Some {
        capacity_error(board, config, room_id, subscribe)
    } else if board.sessions[from].join_state is Some {
        Some(MessageError::AlreadyJoined)
    } else {
        None
    }
}

/// The switchboard once a session has joined and subscribed; with a data subscription it takes
/// part in the room.
pub open spec fn after_entering(
    board: SwitchboardView,
    from: u64,
    room_id: Seq<char>,
    user_id: Seq<char>,
    subscription: SubscriptionView,
) -> SwitchboardView {
    let subscribed = board.with_join(from, room_id, user_id).with_subscription(from, subscription);
    if subscription.data {
        subscribed.with_occupant(from, room_id)
    } else {
        subscribed
    }
}

/// Whom the gateway is asked to tell that a user has come to take part in a room.
pub open spec fn join_notices(
    entered: SwitchboardView,
    room_id: Seq<char>,
    user_id: Seq<char>,
    subscription: SubscriptionView,
) -> Seq<ActionView> {
    if subscription.data {
        notices(
            EventView::Join { user_id, room_id },
            entered.occupants_of(room_id).filter(
                entered.listeners_except(Channel::Notifications, user_id),
            ),
        )
    } else {
        Seq::empty()
    }
}

/// What comes of asking for the media of a user: the switchboard afterwards, and the offer.
pub open spec fn media_step(
    board: SwitchboardView,
    from: u64,
    media: Option<Seq<char>>,
) -> (SwitchboardView, Result<Option<JsepView>, MessageError>) {
    match media {
        None => (board, Ok(None)),
        Some(user_id) => match board.publisher_of(user_id) {
            None => (board, Err(MessageError::NoSuchPublisher)),
            Some(publisher) => (
                board.with_feed(publisher, from),
                Ok(
                    Some(
                        JsepView::Offer { sdp: board.sessions[publisher].subscriber_offer->0 },
                    ),
                ),
            ),
        },
    }
}

/// What joining leads to.
pub open spec fn join_step(
    board: SwitchboardView,
    config: Config,
    from: u64,
    room_id: Seq<char>,
    user_id: Seq<char>,
    subscribe: Option<SubscriptionView>,
    token: Option<Seq<char>>,
    check: Option<TokenCheck>,
) -> Step {
    let error = join_error(board, config, from, room_id, subscribe, token, check);
    let body = PayloadView::Users { room_id, users: board.users_of(room_id) };
    if error is Some {
        refused(board, error->0)
    } else if subscribe is None {
        Step {
            board: board.with_join(from, room_id, user_id),
            result: response(body, None),
            actions: Seq::empty(),
        }
    } else if board.sessions[from].subscription is Some {
        refused(
            board.with_join(from, room_id, user_id),
            MessageError::AlreadySubscribedAtJoin,
        )
    } else {
        let entered = after_entering(board, from, room_id, user_id, subscribe->0);
        let (after, jsep) = media_step(entered, from, subscribe->0.media);
        Step {
            board: after,
            result: match jsep {
                Ok(offer) => response(body, offer),
                Err(reason) => Err(reason),
            },
            actions: join_notices(entered, room_id, user_id, subscribe->0),
        }
    }
}

/// A publisher of a user's media is live and has an offer.
pub proof fn lemma_publisher_is_live(board: SwitchboardView, user_id: Seq<char>)
    requires
        board.consistent(),
        board.publisher_of(user_id) is Some,
    ensures
        board.is_live(board.publisher_of(user_id)->0),
        board.sessions[board.publisher_of(user_id)->0].publishes_for(user_id),
{
    let publishers = board.connected.filter(board.publishing(user_id));
    lemma_filter_has(board.connected, board.publishing(user_id));
    assert(publishers.contains(publishers[0]));
    assert(board.is_live(publishers[0]));
}

/// Starts the media that a session asked for, and returns what it is offered.
fn attach_media(board: &mut Switchboard, from: u64, media: &Option<String>) -> (jsep: Result<
    Option<Jsep>,
    MessageError,
>)
    requires
        old(board).wf(),
        old(board)@.is_live(from),
        old(board)@.sessions[from].subscription is Some,
        old(board)@.sessions[from].subscription->0.media == optional_text(*media),
        forall|i: int|
            0 <= i < old(board)@.feeds.len() ==> (#[trigger] old(board)@.feeds[i]).subscriber
                != from,
    ensures
        final(board).wf(),
        final(board)@ == media_step(old(board)@, from, optional_text(*media)).0,
        match jsep {
            Ok(offer) => media_step(old(board)@, from, optional_text(*media)).1 == Ok::<
                Option<JsepView>,
                MessageError,
            >(optional_jsep(offer)),
            Err(reason) => media_step(old(board)@, from, optional_text(*media)).1 == Err::<
                Option<JsepView>,
                MessageError,
            >(reason),
        },
{
    match media {
        None => Ok(None),
        Some(user_id) => match board.get_publisher(user_id) {
            None => Err(MessageError::NoSuchPublisher),
            Some(publisher) => {
                proof {
                    lemma_publisher_is_live(board@, user_id@);
                }
                let sdp: String = match board.session(publisher) {
                    Some(session) => match &session.subscriber_offer {
                        Some(offer) => offer.clone(),
                        None => String::new(),
                    },
                    None => String::new(),
                };
                board.subscribe_to_user(from, publisher);
                Ok(Some(Jsep::Offer { sdp }))
            },
        },
    }
}

/// Handles a session's wish to join a room as a user, optionally with a subscription. `check` is
/// what came of checking the token.
pub fn process_join(
    board: &mut Switchboard,
    config: &Config,
    from: u64,
    room_id: String,
    user_id: String,
    subscribe: Option<Subscription>,
    token: Option<String>,
    check: Option<TokenCheck>,
) -> (handled: (Result<MessageResponse, MessageError>, Vec<Action>))
    requires
        old(board).wf(),
        old(board)@.is_live(from),
    ensures
        final(board).wf(),
        ({
            let step = join_step(
                old(board)@,
                *config,
                from,
                room_id@,
                user_id@,
                optional_subscription(subscribe),
                optional_text(token),
                check,
            );
            &&& final(board)@ == step.board
            &&& outcome_view(handled.0) == step.result
            &&& action_views(handled.1@) == step.actions
        }),
{
    let ghost start = board@;
    let mut actions: Vec<Action> = Vec::new();
    assert(action_views(actions@) =~= Seq::<ActionView>::empty());
    match (&config.auth_key, &token) {
        (None, _) => {},
        (Some(_), None) => {
            return (Err(MessageError::AnonymousJoin), actions);
        },
        (Some(_), Some(_)) => match check {
            Some(TokenCheck::Valid(claims)) => {
                if !claims.join_hub {
                    return (Err(MessageError::JoinNotPermitted), actions);
                }
            },
            _ => {
                return (Err(MessageError::InvalidToken), actions);
            },
        },
    }
    let users: Vec<String> = board.get_users(&room_id);
    let body: Payload = Payload::Users { room_id: room_id.clone(), users };
    let mut is_master_handle: bool = false;
    if let Some(subscription) = &subscribe {
        let room_is_full: bool = board.occupants_of(&room_id).len() > config.max_room_size;
        let server_is_full: bool = board.session_count() > config.max_ccu;
        // there is only one data connection per user, the one that counts
        is_master_handle = subscription.data;
        if is_master_handle && room_is_full {
            return (Err(MessageError::RoomFull), actions);
        }
        if is_master_handle && server_is_full {
            return (Err(MessageError::ServerFull), actions);
        }
    }
    if !board.set_join_state(from, JoinState::new(room_id.clone(), user_id.clone())) {
        return (Err(MessageError::AlreadyJoined), actions);
    }
    if let Some(subscription) = subscribe {
        if !board.set_subscription(from, subscription.clone()) {
            return (Err(MessageError::AlreadySubscribedAtJoin), actions);
        }
        proof {
            assert forall|i: int| 0 <= i < board@.occupants.len() implies (
            #[trigger] board@.occupants[i]).handle != from by {
                assert(start.occupant_in_order(start.occupants[i]));
            }
            assert forall|i: int| 0 <= i < board@.feeds.len() implies (
            #[trigger] board@.feeds[i]).subscriber != from by {
                assert(start.feed_in_order(start.feeds[i]));
            }
        }
        if is_master_handle {
            let notification: Event = Event::Join {
                user_id: user_id.clone(),
                room_id: room_id.clone(),
            };
            board.join_room(from, room_id.clone());
            let occupants: Vec<u64> = board.occupants_of(&room_id);
            actions = notify_except(board, &notification, &user_id, &occupants);
        }
        assert(board@ == after_entering(start, from, room_id@, user_id@, subscription@));
        return match attach_media(board, from, &subscription.media) {
            Ok(Some(jsep)) => (Ok(MessageResponse::new(body, jsep)), actions),
            Ok(None) => (Ok(MessageResponse::msg(body)), actions),
            Err(reason) => (Err(reason), actions),
        };
    }
    (Ok(MessageResponse::msg(body)), actions)
}

// Kicking.

/// Whether a kick is carried out: a key must be configured, and the token must have been found to
/// be good and say so.
pub open spec fn may_kick(config: Config, check: Option<TokenCheck>) -> bool {
    &&& config.auth_key is Some
    &&& check matches Some(TokenCheck::Valid(claims))
    &&& claims.kick_users
}

/// Ending one session.
pub open spec fn ending() -> spec_fn(u64) -> ActionView {
    |handle: u64| ActionView::EndSession { handle }
}

/// What a kick leads to. It is answered alike, whether or not it is carried out.
pub open spec fn kick_step(
    board: SwitchboardView,
    config: Config,
    room_id: Seq<char>,
    user_id: Seq<char>,
    check: Option<TokenCheck>,
) -> Step {
    Step {
        board,
        result: response(PayloadView::Empty, None),
        actions: if may_kick(config, check) {
            board.sessions_of(room_id, user_id).map_values(ending())
        } else {
            Seq::empty()
        },
    }
}

/// Handles the wish to end every session of a user in a room. `check` is what came of checking the
/// token that came with it.
pub fn process_kick(
    board: &Switchboard,
    config: &Config,
    room_id: &String,
    user_id: &String,
    check: Option<TokenCheck>,
) -> (handled: (Result<MessageResponse, MessageError>, Vec<Action>))
    requires
        board.wf(),
    ensures
        ({
            let step = kick_step(board@, *config, room_id@, user_id@, check);
            &&& board@ == step.board
            &&& outcome_view(handled.0) == step.result
            &&& action_views(handled.1@) == step.actions
        }),
{
    let mut actions: Vec<Action> = Vec::new();
    if config.auth_key.is_some() {
        if let Some(TokenCheck::Valid(claims)) = check {
            if claims.kick_users {
                let sessions: Vec<u64> = board.get_sessions(room_id, user_id);
                let mut i: usize = 0;
                while i < sessions.len()
                    invariant
                        i <= sessions@.len(),
                        actions@.len() == i,
                        forall|k: int|
                            0 <= k < i ==> (#[trigger] actions@[k])@ == ending()(sessions@[k]),
                    decreases sessions@.len() - i,
                {
                    actions.push(Action::EndSession { handle: sessions[i] });
                    i += 1;
                }
                assert(action_views(actions@) =~= sessions@.map_values(ending()));
                return (Ok(MessageResponse::msg(Payload::Empty)), actions);
            }
        }
    }
    assert(action_views(actions@) =~= Seq::<ActionView>::empty());
    (Ok(MessageResponse::msg(Payload::Empty)), actions)
}

// Blocking.

/// Telling the sessions of one user, among the occupants of a room, of an event.
pub open spec fn notices_to_user(
    board: SwitchboardView,
    event: EventView,
    room_id: Seq<char>,
    user_id: Seq<char>,
) -> Seq<ActionView> {
    notices(
        event,
        board.occupants_of(room_id).filter(board.listeners_of(Channel::Notifications, user_id)),
    )
}

/// What blocking a user leads to: the user is told, and traffic stops.
pub open spec fn block_step(board: SwitchboardView, from: u64, whom: Seq<char>) -> Step {
    if board.sessions[from].join_state is None {
        refused(board, MessageError::BlockOutsideRoom)
    } else {
        let joined = board.sessions[from].join_state->0;
        Step {
            board: board.with_block(joined.user_id, whom),
            result: response(PayloadView::Empty, None),
            actions: notices_to_user(
                board,
                EventView::Blocked { by: joined.user_id },
                joined.room_id,
                whom,
            ),
        }
    }
}

/// Where a session has joined, and as whom: the room and the user.
fn place_of(board: &Switchboard, from: u64) -> (place: Option<(String, String)>)
    requires
        board.wf(),
        board@.is_live(from),
    ensures
        match place {
            Some(pair) => board@.sessions[from].join_state is Some && pair.0@
                == board@.sessions[from].join_state->0.room_id && pair.1@
                == board@.sessions[from].join_state->0.user_id,
            None => board@.sessions[from].join_state is None,
        },
{
    match board.session(from) {
        Some(session) => match &session.join_state {
            Some(joined) => Some((joined.room_id.clone(), joined.user_id.clone())),
            None => None,
        },
        None => None,
    }
}

/// Handles a session's wish to block a user.
pub fn process_block(board: &mut Switchboard, from: u64, whom: String) -> (handled: (
    Result<MessageResponse, MessageError>,
    Vec<Action>,
))
    requires
        old(board).wf(),
        old(board)@.is_live(from),
    ensures
        final(board).wf(),
        ({
            let step = block_step(old(board)@, from, whom@);
            &&& final(board)@ == step.board
            &&& outcome_view(handled.0) == step.result
            &&& action_views(handled.1@) == step.actions
        }),
{
    match place_of(board, from) {
        Some((room_id, user_id)) => {
            let event: Event = Event::Blocked { by: user_id.clone() };
            let occupants: Vec<u64> = board.occupants_of(&room_id);
            let actions: Vec<Action> = notify_user(board, &event, &whom, &occupants);
            board.establish_block(user_id, whom);
            (Ok(MessageResponse::msg(Payload::Empty)), actions)
        },
        None => {
            let actions: Vec<Action> = Vec::new();
            assert(action_views(actions@) =~= Seq::<ActionView>::empty());
            (Err(MessageError::BlockOutsideRoom), actions)
        },
    }
}

/// What unblocking a user leads to: traffic flows again, a full frame is asked of whoever sends
/// the user's media, and the user is told.
pub open spec fn unblock_step(board: SwitchboardView, from: u64, whom: Seq<char>) -> Step {
    if board.sessions[from].join_state is None {
        refused(board, MessageError::UnblockOutsideRoom)
    } else {
        let joined = board.sessions[from].join_state->0;
        let lifted = board.without_block(joined.user_id, whom);
        let after = match lifted.publisher_of(whom) {
            Some(publisher) => lifted.with_fir(publisher),
            None => lifted,
        };
        Step {
            board: after,
            result: response(PayloadView::Empty, None),
            actions: (match lifted.publisher_of(whom) {
                Some(publisher) => seq![fir(lifted, publisher)],
                None => Seq::empty(),
            }) + notices_to_user(
                after,
                EventView::Unblocked { by: joined.user_id },
                joined.room_id,
                whom,
            ),
        }
    }
}

/// Handles a session's wish to unblock a user.
pub fn process_unblock(board: &mut Switchboard, from: u64, whom: &String) -> (handled: (
    Result<MessageResponse, MessageError>,
    Vec<Action>,
))
    requires
        old(board).wf(),
        old(board)@.is_live(from),
    ensures
        final(board).wf(),
        ({
            let step = unblock_step(old(board)@, from, whom@);
            &&& final(board)@ == step.board
            &&& outcome_view(handled.0) == step.result
            &&& action_views(handled.1@) == step.actions
        }),
{
    match place_of(board, from) {
        Some((room_id, user_id)) => {
            board.lift_block(&user_id, whom);
            let ghost lifted = board@;
            let mut actions: Vec<Action> = Vec::new();
            assert(action_views(actions@) =~= Seq::<ActionView>::empty());
            if let Some(publisher) = board.get_publisher(whom) {
                let mut publishers: Vec<u64> = Vec::new();
                publishers.push(publisher);
                proof {
                    lemma_publisher_is_live(lifted, whom@);
                    assert(publishers@ =~= seq![publisher]);
                    lemma_one_fir(lifted, publisher);
                }
                actions = send_fir(board, &publishers);
            }
            let event: Event = Event::Unblocked { by: user_id };
            let occupants: Vec<u64> = board.occupants_of(&room_id);
            let mut told: Vec<Action> = notify_user(board, &event, whom, &occupants);
            let ghost asked = actions@;
            let ghost others = told@;
            actions.append(&mut told);
            assert(action_views(actions@) =~= action_views(asked) + action_views(others));
            (Ok(MessageResponse::msg(Payload::Empty)), actions)
        },
        None => {
            let actions: Vec<Action> = Vec::new();
            assert(action_views(actions@) =~= Seq::<ActionView>::empty());
            (Err(MessageError::UnblockOutsideRoom), actions)
        },
    }
}

/// Asking one session for a full frame.
pub proof fn lemma_one_fir(board: SwitchboardView, handle: u64)
    ensures
        after_firs(board, seq![handle]) == board.with_fir(handle),
        firs(board, seq![handle]) == seq![fir(board, handle)],
{
    let none = seq![handle].drop_last();
    assert(none =~= Seq::<u64>::empty());
    assert(after_firs(board, none) == board);
    assert(firs(board, none) =~= Seq::<ActionView>::empty());
    assert(firs(board, seq![handle]) =~= seq![fir(board, handle)]);
}

// Subscribing.

/// What subscribing leads to.
pub open spec fn subscribe_step(
    board: SwitchboardView,
    from: u64,
    what: SubscriptionView,
) -> Step {
    if board.sessions[from].subscription is Some {
        refused(board, MessageError::AlreadySubscribed)
    } else {
        let (after, jsep) = media_step(board.with_subscription(from, what), from, what.media);
        Step {
            board: after,
            result: match jsep {
                Ok(offer) => response(PayloadView::Empty, offer),
                Err(reason) => Err(reason),
            },
            actions: Seq::empty(),
        }
    }
}

/// Handles what a session says it wants to receive.
pub fn process_subscribe(board: &mut Switchboard, from: u64, what: &Subscription) -> (handled: (
    Result<MessageResponse, MessageError>,
    Vec<Action>,
))
    requires
        old(board).wf(),
        old(board)@.is_live(from),
    ensures
        final(board).wf(),
        ({
            let step = subscribe_step(old(board)@, from, what@);
            &&& final(board)@ == step.board
            &&& outcome_view(handled.0) == step.result
            &&& action_views(handled.1@) == step.actions
        }),
{
    let ghost start = board@;
    let actions: Vec<Action> = Vec::new();
    assert(action_views(actions@) =~= Seq::<ActionView>::empty());
    if !board.set_subscription(from, what.clone()) {
        return (Err(MessageError::AlreadySubscribed), actions);
    }
    assert forall|i: int| 0 <= i < board@.feeds.len() implies (
    #[trigger] board@.feeds[i]).subscriber != from by {
        assert(start.feed_in_order(start.feeds[i]));
    }
    match attach_media(board, from, &what.media) {
        Ok(Some(jsep)) => (Ok(MessageResponse::new(Payload::Empty, jsep)), actions),
        Ok(None) => (Ok(MessageResponse::msg(Payload::Empty)), actions),
        Err(reason) => (Err(reason), actions),
    }
}

// Data.

/// What sending data leads to: it goes to one user in the sender's room, or to all the others.
pub open spec fn data_step(
    board: SwitchboardView,
    from: u64,
    whom: Option<Seq<char>>,
    body: Seq<char>,
) -> Step {
    if board.sessions[from].join_state is None {
        refused(board, MessageError::DataOutsideRoom)
    } else {
        let joined = board.sessions[from].join_state->0;
        let receivers = match whom {
            Some(user_id) => board.listeners_of(Channel::Data, user_id),
            None => board.listeners_except(Channel::Data, joined.user_id),
        };
        Step {
            board,
            result: response(PayloadView::Empty, None),
            actions: notices(
                EventView::Data { body },
                board.occupants_of(joined.room_id).filter(receivers),
            ),
        }
    }
}

/// Handles data for one user in the sender's room, or for all the others.
pub fn process_data(board: &Switchboard, from: u64, whom: Option<String>, body: &String) -> (handled:
    (Result<MessageResponse, MessageError>, Vec<Action>))
    requires
        board.wf(),
        board@.is_live(from),
    ensures
        ({
            let step = data_step(board@, from, optional_text(whom), body@);
            &&& board@ == step.board
            &&& outcome_view(handled.0) == step.result
            &&& action_views(handled.1@) == step.actions
        }),
{
    let payload: Event = Event::Data { body: body.clone() };
    match place_of(board, from) {
        Some((room_id, sender)) => {
            let occupants: Vec<u64> = board.occupants_of(&room_id);
            let actions: Vec<Action> = match &whom {
                Some(user_id) => send_data_user(board, &payload, user_id, &occupants),
                None => send_data_except(board, &payload, &sender, &occupants),
            };
            (Ok(MessageResponse::msg(Payload::Empty)), actions)
        },
        None => {
            let actions: Vec<Action> = Vec::new();
            assert(action_views(actions@) =~= Seq::<ActionView>::empty());
            (Err(MessageError::DataOutsideRoom), actions)
        },
    }
}

// All messages.

/// What a message leads to.
pub open spec fn message_step(
    board: SwitchboardView,
    config: Config,
    from: u64,
    msg: MessageKindView,
    check: Option<TokenCheck>,
) -> Step {
    match msg {
        MessageKindView::Join { room_id, user_id, subscribe, token } => join_step(
            board,
            config,
            from,
            room_id,
            user_id,
            subscribe,
            token,
            check,
        ),
        MessageKindView::Kick { room_id, user_id, .. } => kick_step(
            board,
            config,
            room_id,
            user_id,
            check,
        ),
        MessageKindView::Subscribe { what } => subscribe_step(board, from, what),
        MessageKindView::Block { whom } => block_step(board, from, whom),
        MessageKindView::Unblock { whom } => unblock_step(board, from, whom),
        MessageKindView::Data { whom, body } => data_step(board, from, whom, body),
    }
}

/// Handles a message from a live session. `check` is what came of checking the message's token.
pub fn process_message(
    board: &mut Switchboard,
    config: &Config,
    from: u64,
    msg: MessageKind,
    check: Option<TokenCheck>,
) -> (handled: (Result<MessageResponse, MessageError>, Vec<Action>))
    requires
        old(board).wf(),
        old(board)@.is_live(from),
    ensures
        final(board).wf(),
        ({
            let step = message_step(old(board)@, *config, from, msg@, check);
            &&& final(board)@ == step.board
            &&& outcome_view(handled.0) == step.result
            &&& action_views(handled.1@) == step.actions
        }),
{
    match msg {
        MessageKind::Join { room_id, user_id, subscribe, token } => process_join(
            board,
            config,
            from,
            room_id,
            user_id,
            subscribe,
            token,
            check,
        ),
        MessageKind::Kick { room_id, user_id, .. } => process_kick(
            board,
            config,
            &room_id,
            &user_id,
            check,
        ),
        MessageKind::Subscribe { what } => process_subscribe(board, from, &what),
        MessageKind::Block { whom } => process_block(board, from, whom),
        MessageKind::Unblock { whom } => process_unblock(board, from, &whom),
        MessageKind::Data { whom, body } => process_data(board, from, whom, &body),
    }
}

// Session descriptions.

/// What handling a session description leads to.
#[verifier::ext_equal]
pub struct JsepStep {
    /// The switchboard afterwards.
    pub board: SwitchboardView,
    /// The description to answer with.
    pub jsep: JsepView,
    /// What the gateway is asked to do, in this order.
    pub actions: Seq<ActionView>,
}

/// What an offer to publish leads to: everyone who subscribes to the session is offered the new
/// media, and so will be everyone who does so later.
pub open spec fn offer_step(
    board: SwitchboardView,
    from: u64,
    answer: Seq<char>,
    subscriber_offer: Seq<char>,
) -> JsepStep {
    JsepStep {
        board: board.with_offer(from, subscriber_offer),
        jsep: JsepView::Answer { sdp: answer },
        actions: board.subscribers_to(from).map_values(media_offer(subscriber_offer)),
    }
}

/// Handles a negotiated offer to publish.
pub fn process_offer(
    board: &mut Switchboard,
    from: u64,
    answer: String,
    subscriber_offer: String,
) -> (handled: (Jsep, Vec<Action>))
    requires
        old(board).wf(),
        old(board)@.is_live(from),
    ensures
        final(board).wf(),
        ({
            let step = offer_step(old(board)@, from, answer@, subscriber_offer@);
            &&& final(board)@ == step.board
            &&& handled.0@ == step.jsep
            &&& action_views(handled.1@) == step.actions
        }),
{
    let subscribers: Vec<u64> = board.subscribers_to(from);
    let actions: Vec<Action> = send_offer(&subscriber_offer, &subscribers);
    board.set_subscriber_offer(from, subscriber_offer);
    (Jsep::Answer { sdp: answer }, actions)
}

/// Handles an answer, which needs none.
pub fn process_answer() -> (jsep: Jsep)
    ensures
        jsep@ == JsepView::Empty,
{
    Jsep::Empty
}

/// What a session description leads to.
pub open spec fn jsep_step(board: SwitchboardView, from: u64, jsep: JsepKindView) -> JsepStep {
    match jsep {
        JsepKindView::Offer { answer, subscriber_offer } => offer_step(
            board,
            from,
            answer,
            subscriber_offer,
        ),
        JsepKindView::Answer => JsepStep {
            board,
            jsep: JsepView::Empty,
            actions: Seq::empty(),
        },
    }
}

/// Handles a session description from a live session.
pub fn process_jsep(board: &mut Switchboard, from: u64, jsep: JsepKind) -> (handled: (
    Jsep,
    Vec<Action>,
))
    requires
        old(board).wf(),
        old(board)@.is_live(from),
    ensures
        final(board).wf(),
        ({
            let step = jsep_step(old(board)@, from, jsep@);
            &&& final(board)@ == step.board
            &&& handled.0@ == step.jsep
            &&& action_views(handled.1@) == step.actions
        }),
{
    match jsep {
        JsepKind::Offer { answer, subscriber_offer } => process_offer(
            board,
            from,
            answer,
            subscriber_offer,
        ),
        JsepKind::Answer => {
            let actions: Vec<Action> = Vec::new();
            assert(action_views(actions@) =~= Seq::<ActionView>::empty());
            (process_answer(), actions)
        },
    }
}

} // verus!
