//! What each message promises: how it ends, what it changes, and what the gateway is asked to do
//! for it, said of the sessions, occupants, feeds and blocks themselves.
use crate::auth::TokenCheck;
use crate::config::Config;
use crate::delivery::{fir, media_offer, notices, Channel};
use crate::invariants::law_blocks_keep_consistency;
use crate::laws::{
    law_kicks_hit_their_target, law_messages_act_once, law_new_offers_reach_subscribers,
    lemma_publisher_unmoved,
};
use crate::meaning::{
    law_publishers_are_first, law_sessions_are_found_by_place,
    law_users_are_those_of_the_occupants, lemma_occupant, lemma_told,
};
use crate::messages::{JsepKindView, MessageKindView, SubscriptionView};
use crate::model::{in_room, Feed, OccupantView, SwitchboardView};
use crate::outbound::{
    ActionView, EventView, JsepView, MessageError, MessageResponseView, PayloadView, ReplyView,
};
use crate::requests::request_step;
use crate::seqs::lemma_push_has;
use crate::sessions::{JoinStateView, SessionView};
use crate::signalling::{
    after_entering, block_step, data_step, join_step, jsep_step, kick_step,
    lemma_publisher_is_live, message_step, offer_step, subscribe_step, unblock_step,
};
use vstd::prelude::*;

verus! {

// Joining.

/// How a join ends. With a key configured it takes a token that was found to be good and lets its
/// bearer join; a data connection also takes a room and a server that are not over their limits;
/// and a session can join once. A join that fails for one of these reasons, the first that applies,
/// does nothing at all. Any other takes effect: the session has joined. It still fails where it
/// comes with a second subscription, or with one to media that nobody sends, and only there.
pub proof fn law_joins_end_well_or_for_a_reason(
    board: SwitchboardView,
    config: Config,
    from: u64,
    room_id: Seq<char>,
    user_id: Seq<char>,
    subscribe: Option<SubscriptionView>,
    token: Option<Seq<char>>,
    check: Option<TokenCheck>,
)
    requires
        board.consistent(),
        board.is_live(from),
    ensures
        ({
            let step = join_step(board, config, from, room_id, user_id, subscribe, token, check);
            let good = check matches Some(TokenCheck::Valid(_));
            let stranger = config.auth_key is Some && !(token is Some && (check matches Some(
                TokenCheck::Valid(claims),
            ) && claims.join_hub));
            let data = subscribe is Some && subscribe->0.data;
            let crowd = board.occupants.filter(
                |occupant: OccupantView| occupant.room_id == room_id,
            ).len();
            let room_full = data && crowd > config.max_room_size;
            let server_full = data && board.connected.len() > config.max_ccu;
            let joined = board.sessions[from].join_state is Some;
            let stopped = stranger || room_full || server_full || joined;
            let again = subscribe is Some && board.sessions[from].subscription is Some;
            let media = subscribe is Some && subscribe->0.media is Some;
            let sent = exists|i: int|
                0 <= i < board.connected.len()
                    && step.board.sessions[#[trigger] board.connected[i]].join_state is Some
                    && step.board.sessions[board.connected[i]].join_state->0.user_id
                    == subscribe->0.media->0
                    && step.board.sessions[board.connected[i]].subscriber_offer is Some;
            &&& config.auth_key is Some && token is None ==> step.result == Err::<
                MessageResponseView,
                MessageError,
            >(MessageError::AnonymousJoin)
            &&& config.auth_key is Some && token is Some && !good ==> step.result == Err::<
                MessageResponseView,
                MessageError,
            >(MessageError::InvalidToken)
            &&& stranger && token is Some && good ==> step.result == Err::<
                MessageResponseView,
                MessageError,
            >(MessageError::JoinNotPermitted)
            &&& !stranger && room_full ==> step.result == Err::<MessageResponseView, MessageError>(
                MessageError::RoomFull,
            )
            &&& !stranger && !room_full && server_full ==> step.result == Err::<
                MessageResponseView,
                MessageError,
            >(MessageError::ServerFull)
            &&& !stranger && !room_full && !server_full && joined ==> step.result == Err::<
                MessageResponseView,
                MessageError,
            >(MessageError::AlreadyJoined)
            &&& stopped ==> step.board == board && step.actions.len() == 0
            &&& !stopped ==> step.board.sessions[from].join_state == Some(
                JoinStateView { room_id, user_id },
            )
            &&& !stopped && again ==> step.result == Err::<MessageResponseView, MessageError>(
                MessageError::AlreadySubscribedAtJoin,
            )
            &&& !stopped && !again && media && !sent ==> step.result == Err::<
                MessageResponseView,
                MessageError,
            >(MessageError::NoSuchPublisher)
            &&& !stopped && !again && (media ==> sent) ==> step.result is Ok
        }),
{
    let step = join_step(board, config, from, room_id, user_id, subscribe, token, check);
    let inside = |occupant: OccupantView| occupant.room_id == room_id;
    assert(in_room(room_id) =~= inside);
    assert(board.occupants.filter(inside).len() == board.occupants_of(room_id).len());
    if subscribe is Some {
        let entered = after_entering(board, from, room_id, user_id, subscribe->0);
        if subscribe->0.media is Some {
            law_publishers_are_first(entered, subscribe->0.media->0);
        }
    }
}

/// What a join changes, where it is not stopped: the session has joined the room as the user, and
/// has the subscription, if it had none. With a data subscription it comes to take part in the
/// room. Nothing else changes but that media may begin to flow to it.
pub proof fn law_joins_change_only_the_joiner(
    board: SwitchboardView,
    config: Config,
    from: u64,
    room_id: Seq<char>,
    user_id: Seq<char>,
    subscribe: Option<SubscriptionView>,
    token: Option<Seq<char>>,
    check: Option<TokenCheck>,
)
    requires
        board.consistent(),
        board.is_live(from),
    ensures
        ({
            let step = join_step(board, config, from, room_id, user_id, subscribe, token, check);
            let after = step.board;
            let fresh = subscribe is Some && board.sessions[from].subscription is None;
            &&& after == board || after.sessions == board.sessions.insert(
                from,
                SessionView {
                    handle: from,
                    join_state: Some(JoinStateView { room_id, user_id }),
                    subscriber_offer: board.sessions[from].subscriber_offer,
                    subscription: if fresh {
                        subscribe
                    } else {
                        board.sessions[from].subscription
                    },
                    fir_seq: board.sessions[from].fir_seq,
                },
            )
            &&& after == board ==> step.result is Err
            &&& after != board ==> after.occupants == if fresh && subscribe->0.data {
                board.occupants.push(OccupantView { room_id, handle: from })
            } else {
                board.occupants
            }
            &&& after.connected == board.connected
            &&& after.blocks == board.blocks
            &&& after.next_handle == board.next_handle
        }),
{
    let step = join_step(board, config, from, room_id, user_id, subscribe, token, check);
    assert(board.is_live(from));
    if step.result is Ok {
        assert(step.board.sessions[from].join_state is Some);
    }
}

/// Whenever a join succeeds, with or without a subscription, the response names the room and
/// exactly the users as whom its occupants had joined just before: nobody is missing, and nobody is
/// named twice.
pub proof fn law_joins_are_answered_with_the_users(
    board: SwitchboardView,
    config: Config,
    from: u64,
    room_id: Seq<char>,
    user_id: Seq<char>,
    subscribe: Option<SubscriptionView>,
    token: Option<Seq<char>>,
    check: Option<TokenCheck>,
    other: Seq<char>,
)
    requires
        board.consistent(),
        board.is_live(from),
    ensures
        join_step(board, config, from, room_id, user_id, subscribe, token, check).result matches Ok(
            response,
        ) ==> (response.body matches Some(PayloadView::Users { room_id: named, users }) && named
            == room_id && users.no_duplicates() && (users.contains(other) <==> exists|handle: u64|
            #![trigger board.sessions[handle]]
            board.occupants.contains(OccupantView { room_id, handle })
                && board.sessions[handle].join_state == Some(
                JoinStateView { room_id, user_id: other },
            ))),
{
    law_users_are_those_of_the_occupants(board, room_id, other);
}

/// Of a join, exactly those are told who take part in the room already, have joined as another
/// user, and want notices; each of them once, and nothing else is asked of the gateway. Nobody is
/// told where the joiner does not come to take part in the room.
pub proof fn law_joins_are_told_to_the_room(
    board: SwitchboardView,
    config: Config,
    from: u64,
    room_id: Seq<char>,
    user_id: Seq<char>,
    subscribe: Option<SubscriptionView>,
    token: Option<Seq<char>>,
    check: Option<TokenCheck>,
    action: ActionView,
)
    requires
        board.consistent(),
        board.is_live(from),
    ensures
        ({
            let step = join_step(board, config, from, room_id, user_id, subscribe, token, check);
            &&& step.actions.contains(action) <==> step.board.occupants.len()
                > board.occupants.len() && (action matches ActionView::Notify { handle, event }
                && event == (EventView::Join { user_id, room_id }) && board.occupants.contains(
                OccupantView { room_id, handle },
            ) && board.sessions[handle].join_state->0.user_id != user_id
                && board.sessions[handle].subscription->0.notifications)
            &&& step.actions.no_duplicates()
        }),
{
    let step = join_step(board, config, from, room_id, user_id, subscribe, token, check);
    law_messages_act_once(
        board,
        config,
        from,
        MessageKindView::Join { room_id, user_id, subscribe, token },
        check,
    );
    if step.board.occupants.len() > board.occupants.len() {
        let entered = after_entering(board, from, room_id, user_id, subscribe->0);
        let event = EventView::Join { user_id, room_id };
        lemma_told(
            event,
            entered.occupants_of(room_id),
            entered.listeners_except(Channel::Notifications, user_id),
            action,
        );
        if let ActionView::Notify { handle, event: told } = action {
            let entry = OccupantView { room_id, handle };
            lemma_occupant(entered, room_id, handle);
            lemma_push_has(
                board.occupants,
                OccupantView { room_id, handle: from },
                entry,
            );
            if board.occupants.contains(entry) {
                let k = board.occupants.index_of(entry);
                assert(board.occupant_in_order(board.occupants[k]));
            }
        }
    } else {
        assert(step.actions.len() == 0);
    }
}

/// Media comes from the first session to have connected of those that have joined as the user asked
/// for and have something to offer: its latest offer goes into the response, and from now on its
/// media goes to the joiner. Without that nothing is offered, and no media begins to flow.
pub proof fn law_joins_bring_the_media_asked_for(
    board: SwitchboardView,
    config: Config,
    from: u64,
    room_id: Seq<char>,
    user_id: Seq<char>,
    subscribe: Option<SubscriptionView>,
    token: Option<Seq<char>>,
    check: Option<TokenCheck>,
)
    requires
        board.consistent(),
        board.is_live(from),
    ensures
        ({
            let step = join_step(board, config, from, room_id, user_id, subscribe, token, check);
            let after = step.board;
            &&& step.result is Ok && subscribe is Some && subscribe->0.media is Some ==> exists|i: int|
                0 <= i < board.connected.len()
                    && after.sessions[#[trigger] board.connected[i]].join_state is Some
                    && after.sessions[board.connected[i]].join_state->0.user_id
                    == subscribe->0.media->0
                    && after.sessions[board.connected[i]].subscriber_offer is Some
                    && (step.result->Ok_0).jsep == Some(
                    JsepView::Offer { sdp: after.sessions[board.connected[i]].subscriber_offer->0 },
                ) && after.feeds == board.feeds.push(
                    Feed { publisher: board.connected[i], subscriber: from },
                ) && forall|k: int|
                    0 <= k < i ==> !(
                    after.sessions[#[trigger] board.connected[k]].join_state is Some
                        && after.sessions[board.connected[k]].join_state->0.user_id
                        == subscribe->0.media->0
                        && after.sessions[board.connected[k]].subscriber_offer is Some)
            &&& step.result is Ok && (subscribe is None || subscribe->0.media is None) ==> (
            step.result->Ok_0).jsep is None && after.feeds == board.feeds
            &&& step.result is Err ==> after.feeds == board.feeds
        }),
{
    if subscribe is Some && subscribe->0.media is Some {
        let entered = after_entering(board, from, room_id, user_id, subscribe->0);
        law_publishers_are_first(entered, subscribe->0.media->0);
    }
}

// Subscribing.

/// A session subscribes once, and then has that subscription. Where it asks for media it gets the
/// latest offer, and from now on the media, of the first session to have connected of those that
/// have joined as the user and have something to offer; where there is none it is told so. Nothing
/// else changes, and nothing is asked of the gateway.
pub proof fn law_subscriptions_bring_the_media_asked_for(
    board: SwitchboardView,
    from: u64,
    what: SubscriptionView,
)
    requires
        board.consistent(),
        board.is_live(from),
    ensures
        ({
            let step = subscribe_step(board, from, what);
            let after = step.board;
            &&& board.sessions[from].subscription is Some ==> step.result == Err::<
                MessageResponseView,
                MessageError,
            >(MessageError::AlreadySubscribed) && after == board
            &&& board.sessions[from].subscription is None ==> {
                &&& after.sessions == board.sessions.insert(
                    from,
                    SessionView {
                        handle: from,
                        join_state: board.sessions[from].join_state,
                        subscriber_offer: board.sessions[from].subscriber_offer,
                        subscription: Some(what),
                        fir_seq: board.sessions[from].fir_seq,
                    },
                )
                &&& what.media is None ==> after.feeds == board.feeds && step.result == Ok::<
                    MessageResponseView,
                    MessageError,
                >(MessageResponseView { body: Some(PayloadView::Empty), jsep: None })
                &&& what.media matches Some(user_id) ==> {
                    ||| exists|i: int|
                        0 <= i < board.connected.len()
                            && board.sessions[#[trigger] board.connected[i]].join_state is Some
                            && board.sessions[board.connected[i]].join_state->0.user_id == user_id
                            && board.sessions[board.connected[i]].subscriber_offer is Some
                            && step.result == Ok::<MessageResponseView, MessageError>(
                            MessageResponseView {
                                body: Some(PayloadView::Empty),
                                jsep: Some(
                                    JsepView::Offer {
                                        sdp: board.sessions[board.connected[i]].subscriber_offer->0,
                                    },
                                ),
                            },
                        ) && after.feeds == board.feeds.push(
                            Feed { publisher: board.connected[i], subscriber: from },
                        ) && forall|k: int|
                            0 <= k < i ==> !(
                            board.sessions[#[trigger] board.connected[k]].join_state is Some
                                && board.sessions[board.connected[k]].join_state->0.user_id
                                == user_id
                                && board.sessions[board.connected[k]].subscriber_offer is Some)
                    ||| after.feeds == board.feeds && step.result == Err::<
                        MessageResponseView,
                        MessageError,
                    >(MessageError::NoSuchPublisher) && forall|k: int|
                        0 <= k < board.connected.len() ==> !(
                        board.sessions[#[trigger] board.connected[k]].join_state is Some
                            && board.sessions[board.connected[k]].join_state->0.user_id == user_id
                            && board.sessions[board.connected[k]].subscriber_offer is Some)
                }
            }
            &&& after.connected == board.connected
            &&& after.occupants == board.occupants
            &&& after.blocks == board.blocks
            &&& after.next_handle == board.next_handle
            &&& step.actions.len() == 0
        }),
{
    assert(board.is_live(from));
    if let Some(user_id) = what.media {
        let subscribed = board.with_subscription(from, what);
        lemma_publisher_unmoved(board, subscribed, user_id);
        law_publishers_are_first(board, user_id);
        if let Some(publisher) = board.publisher_of(user_id) {
            assert(subscribed.sessions[publisher].subscriber_offer
                == board.sessions[publisher].subscriber_offer);
        }
    }
}

// Kicking.

/// A kick ends exactly the sessions that have joined that room as that user, each once, where a key
/// is configured and the token was found to be good and lets its bearer kick. Nothing else is asked
/// of the gateway, nothing changes, and the answer is always the same.
pub proof fn law_kicks_end_the_user_in_the_room(
    board: SwitchboardView,
    config: Config,
    room_id: Seq<char>,
    user_id: Seq<char>,
    check: Option<TokenCheck>,
    action: ActionView,
)
    requires
        board.consistent(),
    ensures
        ({
            let step = kick_step(board, config, room_id, user_id, check);
            &&& step.actions.contains(action) <==> config.auth_key is Some && (check matches Some(
                TokenCheck::Valid(claims),
            ) && claims.kick_users) && (action matches ActionView::EndSession { handle }
                && board.sessions.contains_key(handle) && board.sessions[handle].join_state == Some(
                JoinStateView { room_id, user_id },
            ))
            &&& step.actions.no_duplicates()
            &&& step.board == board
            &&& step.result == Ok::<MessageResponseView, MessageError>(
                MessageResponseView { body: Some(PayloadView::Empty), jsep: None },
            )
        }),
{
    let step = kick_step(board, config, room_id, user_id, check);
    law_kicks_hit_their_target(board, config, room_id, user_id, check, check, action.target());
    if let ActionView::EndSession { handle } = action {
        law_sessions_are_found_by_place(board, room_id, user_id, handle);
    } else if step.actions.contains(action) {
        let i = step.actions.index_of(action);
        assert(step.actions[i] is EndSession);
    }
}

// Blocking.

/// Blocking takes a place in a room. It adds the pair of the two users to the blocks, and changes
/// nothing else. Told of it are exactly those occupants of the sender's room that have joined as
/// the blocked user and want notices, each once; nothing else is asked of the gateway.
pub proof fn law_blocks_are_told_to_the_blocked(
    board: SwitchboardView,
    from: u64,
    whom: Seq<char>,
    action: ActionView,
)
    requires
        board.consistent(),
        board.is_live(from),
    ensures
        ({
            let step = block_step(board, from, whom);
            match board.sessions[from].join_state {
                None => step.result == Err::<MessageResponseView, MessageError>(
                    MessageError::BlockOutsideRoom,
                ) && step.board == board && step.actions.len() == 0,
                Some(joined) => {
                    &&& step.result == Ok::<MessageResponseView, MessageError>(
                        MessageResponseView { body: Some(PayloadView::Empty), jsep: None },
                    )
                    &&& step.board.blocks == board.blocks.insert((joined.user_id, whom))
                    &&& step.board.sessions == board.sessions
                    &&& step.board.connected == board.connected
                    &&& step.board.occupants == board.occupants
                    &&& step.board.feeds == board.feeds
                    &&& step.board.next_handle == board.next_handle
                    &&& step.actions.contains(action) <==> (action matches ActionView::Notify {
                        handle,
                        event,
                    } && event == (EventView::Blocked { by: joined.user_id })
                        && board.occupants.contains(
                        OccupantView { room_id: joined.room_id, handle },
                    ) && board.sessions[handle].join_state->0.user_id == whom
                        && board.sessions[handle].subscription->0.notifications)
                    &&& step.actions.no_duplicates()
                },
            }
        }),
{
    if let Some(joined) = board.sessions[from].join_state {
        let event = EventView::Blocked { by: joined.user_id };
        lemma_told(
            event,
            board.occupants_of(joined.room_id),
            board.listeners_of(Channel::Notifications, whom),
            action,
        );
        lemma_listed(board, joined.room_id, action);
        law_messages_act_once(
            board,
            Config { auth_key: None, max_room_size: 0, max_ccu: 0 },
            from,
            MessageKindView::Block { whom },
            None,
        );
    }
}

/// An occupant that a notice goes to is live, and has joined and subscribed.
proof fn lemma_listed(board: SwitchboardView, room_id: Seq<char>, action: ActionView)
    requires
        board.consistent(),
    ensures
        action matches ActionView::Notify { handle, .. } ==> (board.occupants_of(room_id).contains(
            handle,
        ) <==> board.occupants.contains(OccupantView { room_id, handle })),
        action matches ActionView::Notify { handle, .. } ==> (board.occupants.contains(
            OccupantView { room_id, handle },
        ) ==> board.is_live(handle) && board.sessions[handle].join_state is Some
            && board.sessions[handle].subscription is Some
            && board.sessions[handle].subscription->0.data),
{
    if let ActionView::Notify { handle, .. } = action {
        let entry = OccupantView { room_id, handle };
        lemma_occupant(board, room_id, handle);
        if board.occupants.contains(entry) {
            let k = board.occupants.index_of(entry);
            assert(board.occupant_in_order(board.occupants[k]));
        }
    }
}

/// Unblocking takes a place in a room. It takes the pair of the two users out of the blocks. The
/// first session to have connected of those that send the unblocked user's media, if there is one,
/// is asked for a full frame, from its current number, which then counts up by one and wraps. Told
/// of it are exactly those occupants of the sender's room that have joined as the unblocked user and
/// want notices, each once and after the request. Nothing else is asked, and nothing else changes.
pub proof fn law_unblocks_are_told_to_the_unblocked(
    board: SwitchboardView,
    from: u64,
    whom: Seq<char>,
    action: ActionView,
)
    requires
        board.consistent(),
        board.is_live(from),
    ensures
        ({
            let step = unblock_step(board, from, whom);
            match board.sessions[from].join_state {
                None => step.result == Err::<MessageResponseView, MessageError>(
                    MessageError::UnblockOutsideRoom,
                ) && step.board == board && step.actions.len() == 0,
                Some(joined) => {
                    let told = action matches ActionView::Notify { handle, event } && event == (
                    EventView::Unblocked { by: joined.user_id }) && board.occupants.contains(
                        OccupantView { room_id: joined.room_id, handle },
                    ) && board.sessions[handle].join_state->0.user_id == whom
                        && board.sessions[handle].subscription->0.notifications;
                    &&& step.result == Ok::<MessageResponseView, MessageError>(
                        MessageResponseView { body: Some(PayloadView::Empty), jsep: None },
                    )
                    &&& step.board.blocks == board.blocks.remove((joined.user_id, whom))
                    &&& step.board.connected == board.connected
                    &&& step.board.occupants == board.occupants
                    &&& step.board.feeds == board.feeds
                    &&& step.board.next_handle == board.next_handle
                    &&& step.actions.no_duplicates()
                    &&& forall|n: int|
                        0 < n < step.actions.len() ==> (#[trigger] step.actions[n]) is Notify
                    &&& {
                        ||| exists|i: int|
                            0 <= i < board.connected.len()
                                && board.sessions[#[trigger] board.connected[i]].join_state is Some
                                && board.sessions[board.connected[i]].join_state->0.user_id == whom
                                && board.sessions[board.connected[i]].subscriber_offer is Some && (
                            forall|k: int|
                                0 <= k < i ==> !(
                                board.sessions[#[trigger] board.connected[k]].join_state is Some
                                    && board.sessions[board.connected[k]].join_state->0.user_id
                                    == whom
                                    && board.sessions[board.connected[k]].subscriber_offer is Some))
                                && (step.actions.contains(action) <==> told || action == (
                            ActionView::Fir {
                                handle: board.connected[i],
                                seq: board.sessions[board.connected[i]].fir_seq as i32,
                            })) && step.board.sessions == board.sessions.insert(
                                board.connected[i],
                                SessionView {
                                    fir_seq: if board.sessions[board.connected[i]].fir_seq
                                        == isize::MAX {
                                        isize::MIN
                                    } else {
                                        (board.sessions[board.connected[i]].fir_seq + 1) as isize
                                    },
                                    ..board.sessions[board.connected[i]]
                                },
                            )
                        ||| (forall|k: int|
                            0 <= k < board.connected.len() ==> !(
                            board.sessions[#[trigger] board.connected[k]].join_state is Some
                                && board.sessions[board.connected[k]].join_state->0.user_id == whom
                                && board.sessions[board.connected[k]].subscriber_offer is Some))
                            && (step.actions.contains(action) <==> told) && step.board.sessions
                            == board.sessions
                    }
                },
            }
        }),
{
    let step = unblock_step(board, from, whom);
    if let Some(joined) = board.sessions[from].join_state {
        let lifted = board.without_block(joined.user_id, whom);
        let event = EventView::Unblocked { by: joined.user_id };
        let told = notices(
            event,
            step.board.occupants_of(joined.room_id).filter(
                step.board.listeners_of(Channel::Notifications, whom),
            ),
        );
        lemma_publisher_unmoved(board, lifted, whom);
        law_publishers_are_first(board, whom);
        law_blocks_keep_consistency(board, joined.user_id, whom);
        if lifted.publisher_of(whom) is Some {
            lemma_publisher_is_live(lifted, whom);
        }
        lemma_told(
            event,
            step.board.occupants_of(joined.room_id),
            step.board.listeners_of(Channel::Notifications, whom),
            action,
        );
        assert(step.board.occupants_of(joined.room_id) == board.occupants_of(joined.room_id));
        lemma_listed(board, joined.room_id, action);
        law_messages_act_once(
            board,
            Config { auth_key: None, max_room_size: 0, max_ccu: 0 },
            from,
            MessageKindView::Unblock { whom },
            None,
        );
        let asked = match lifted.publisher_of(whom) {
            Some(publisher) => seq![fir(lifted, publisher)],
            None => Seq::empty(),
        };
        assert(step.actions == asked + told);
        assert(forall|n: int| 0 <= n < told.len() ==> (#[trigger] told[n]) is Notify);
        if step.actions.contains(action) {
            let i = step.actions.index_of(action);
            if i >= asked.len() {
                assert(told[i - asked.len()] == action);
                assert(told.contains(action));
            } else {
                assert(asked[i] == action);
            }
        }
        if told.contains(action) {
            let i = told.index_of(action);
            assert(step.actions[asked.len() + i] == action);
        }
        if asked.len() == 1 {
            assert(step.actions[0] == asked[0]);
            assert(step.actions.contains(asked[0]));
        }
    }
}

// Data.

/// Data takes a place in a room. It goes to exactly those occupants of the sender's room that have
/// joined as the user it is for, or as anyone but the sender where it is for no one user; each gets
/// it once. Nothing else is asked of the gateway, and nothing changes.
pub proof fn law_data_goes_to_the_room(
    board: SwitchboardView,
    from: u64,
    whom: Option<Seq<char>>,
    body: Seq<char>,
    action: ActionView,
)
    requires
        board.consistent(),
        board.is_live(from),
    ensures
        ({
            let step = data_step(board, from, whom, body);
            &&& step.board == board
            &&& match board.sessions[from].join_state {
                None => step.result == Err::<MessageResponseView, MessageError>(
                    MessageError::DataOutsideRoom,
                ) && step.actions.len() == 0,
                Some(joined) => {
                    &&& step.result == Ok::<MessageResponseView, MessageError>(
                        MessageResponseView { body: Some(PayloadView::Empty), jsep: None },
                    )
                    &&& step.actions.contains(action) <==> (action matches ActionView::Notify {
                        handle,
                        event,
                    } && event == (EventView::Data { body }) && board.occupants.contains(
                        OccupantView { room_id: joined.room_id, handle },
                    ) && match whom {
                        Some(user_id) => board.sessions[handle].join_state->0.user_id == user_id,
                        None => board.sessions[handle].join_state->0.user_id != joined.user_id,
                    })
                    &&& step.actions.no_duplicates()
                },
            }
        }),
{
    if let Some(joined) = board.sessions[from].join_state {
        let event = EventView::Data { body };
        let keep = match whom {
            Some(user_id) => board.listeners_of(Channel::Data, user_id),
            None => board.listeners_except(Channel::Data, joined.user_id),
        };
        lemma_told(event, board.occupants_of(joined.room_id), keep, action);
        lemma_listed(board, joined.room_id, action);
        law_messages_act_once(
            board,
            Config { auth_key: None, max_room_size: 0, max_ccu: 0 },
            from,
            MessageKindView::Data { whom, body },
            None,
        );
    }
}

// Session descriptions.

/// An offer is answered with the answer that was negotiated for it. What was negotiated for
/// subscribers goes, once each, to exactly those at the other end of the session's feeds, and is
/// from now on what the session has to offer. Nothing else is asked, and nothing else changes.
pub proof fn law_offers_are_passed_on(
    board: SwitchboardView,
    from: u64,
    answer: Seq<char>,
    subscriber_offer: Seq<char>,
    action: ActionView,
)
    requires
        board.consistent(),
        board.is_live(from),
    ensures
        ({
            let step = offer_step(board, from, answer, subscriber_offer);
            &&& step.jsep == (JsepView::Answer { sdp: answer })
            &&& step.board.sessions == board.sessions.insert(
                from,
                SessionView {
                    handle: from,
                    join_state: board.sessions[from].join_state,
                    subscriber_offer: Some(subscriber_offer),
                    subscription: board.sessions[from].subscription,
                    fir_seq: board.sessions[from].fir_seq,
                },
            )
            &&& step.board.connected == board.connected
            &&& step.board.occupants == board.occupants
            &&& step.board.feeds == board.feeds
            &&& step.board.blocks == board.blocks
            &&& step.board.next_handle == board.next_handle
            &&& step.actions.contains(action) <==> (action matches ActionView::Offer { handle, sdp }
                && sdp == subscriber_offer && board.feeds.contains(
                Feed { publisher: from, subscriber: handle },
            ))
            &&& step.actions.no_duplicates()
        }),
{
    let step = offer_step(board, from, answer, subscriber_offer);
    let subscribers = board.subscribers_to(from);
    assert(board.is_live(from));
    law_new_offers_reach_subscribers(
        board,
        from,
        answer,
        subscriber_offer,
        action.target(),
    );
    if step.actions.contains(action) {
        let i = step.actions.index_of(action);
        assert(step.actions[i] == media_offer(subscriber_offer)(subscribers[i]));
    }
}

// Requests.

/// Each kind of message is handled as what it is, with what it says, and so is each kind of session
/// description. An answer needs no description in return, and does nothing.
pub proof fn law_messages_are_taken_at_their_word(
    board: SwitchboardView,
    config: Config,
    from: u64,
    check: Option<TokenCheck>,
    room_id: Seq<char>,
    user_id: Seq<char>,
    subscribe: Option<SubscriptionView>,
    token: Option<Seq<char>>,
    secret: Seq<char>,
    what: SubscriptionView,
    whom: Seq<char>,
    receiver: Option<Seq<char>>,
    body: Seq<char>,
)
    ensures
        message_step(
            board,
            config,
            from,
            MessageKindView::Join { room_id, user_id, subscribe, token },
            check,
        ) == join_step(board, config, from, room_id, user_id, subscribe, token, check),
        message_step(
            board,
            config,
            from,
            MessageKindView::Kick { room_id, user_id, token: secret },
            check,
        ) == kick_step(board, config, room_id, user_id, check),
        message_step(board, config, from, MessageKindView::Subscribe { what }, check)
            == subscribe_step(board, from, what),
        message_step(board, config, from, MessageKindView::Block { whom }, check) == block_step(
            board,
            from,
            whom,
        ),
        message_step(board, config, from, MessageKindView::Unblock { whom }, check) == unblock_step(
            board,
            from,
            whom,
        ),
        message_step(board, config, from, MessageKindView::Data { whom: receiver, body }, check)
            == data_step(board, from, receiver, body),
        jsep_step(board, from, JsepKindView::Offer { answer: whom, subscriber_offer: body })
            == offer_step(board, from, whom, body),
        jsep_step(board, from, JsepKindView::Answer).board == board,
        jsep_step(board, from, JsepKindView::Answer).jsep == JsepView::Empty,
        jsep_step(board, from, JsepKindView::Answer).actions.len() == 0,
{
}

/// A request is handled part by part: the message first, whatever comes of it, and the description
/// on what the message left. What both ask of the gateway comes in that order, and one answer after
/// it. A part that cannot be read changes nothing, and a request of a session that is gone does
/// nothing at all.
pub proof fn law_requests_are_handled_part_by_part(
    board: SwitchboardView,
    config: Config,
    from: u64,
    txn: u64,
    msg: Option<Result<MessageKindView, Seq<char>>>,
    check: Option<TokenCheck>,
    jsep: Option<Result<JsepKindView, Seq<char>>>,
)
    ensures
        ({
            let (after, actions) = request_step(board, config, Some(from), txn, msg, check, jsep);
            let between = match msg {
                Some(Ok(kind)) => message_step(board, config, from, kind, check).board,
                _ => board,
            };
            let first = match msg {
                Some(Ok(kind)) => message_step(board, config, from, kind, check).actions,
                _ => Seq::empty(),
            };
            let second = match jsep {
                Some(Ok(kind)) => jsep_step(between, from, kind).actions,
                _ => Seq::empty(),
            };
            if board.sessions.contains_key(from) {
                &&& after == match jsep {
                    Some(Ok(kind)) => jsep_step(between, from, kind).board,
                    _ => between,
                }
                &&& actions.len() == first.len() + second.len() + 1
                &&& actions.take(first.len() as int) == first
                &&& actions.subrange(first.len() as int, (first.len() + second.len()) as int)
                    == second
                &&& actions.last() matches ActionView::Respond { handle, txn: mark, .. } && handle
                    == from && mark == txn
            } else {
                after == board && actions.len() == 0
            }
        }),
        request_step(board, config, None, txn, msg, check, jsep) == (
            board,
            Seq::<ActionView>::empty(),
        ),
{
    let (after, actions) = request_step(board, config, Some(from), txn, msg, check, jsep);
    if board.sessions.contains_key(from) {
        let between = match msg {
            Some(Ok(kind)) => message_step(board, config, from, kind, check).board,
            _ => board,
        };
        let first = match msg {
            Some(Ok(kind)) => message_step(board, config, from, kind, check).actions,
            _ => Seq::empty(),
        };
        let second = match jsep {
            Some(Ok(kind)) => jsep_step(between, from, kind).actions,
            _ => Seq::empty(),
        };
        assert(actions.take(first.len() as int) =~= first);
        assert(actions.subrange(first.len() as int, (first.len() + second.len()) as int)
            =~= second);
    }
}

/// What a request is answered with. A message that was refused, or could not be read, is answered
/// with the reason; otherwise a description that could not be read is. Otherwise the request has
/// succeeded: the answer carries what the message is answered with, if there is a message, and the
/// description that the description in the request led to; without one, the one that the message
/// led to; without that, none.
pub proof fn law_requests_are_answered_for_both_parts(
    board: SwitchboardView,
    config: Config,
    from: u64,
    txn: u64,
    msg: Option<Result<MessageKindView, Seq<char>>>,
    check: Option<TokenCheck>,
    jsep: Option<Result<JsepKindView, Seq<char>>>,
)
    requires
        board.is_live(from),
    ensures
        ({
            let actions = request_step(board, config, Some(from), txn, msg, check, jsep).1;
            let reply = actions.last()->Respond_reply;
            let description = actions.last()->Respond_jsep;
            let between = match msg {
                Some(Ok(kind)) => message_step(board, config, from, kind, check).board,
                _ => board,
            };
            match msg {
                Some(Err(reason)) => reply == (ReplyView::Failure { msg: reason }) && description
                    == JsepView::Empty,
                Some(Ok(kind)) => match message_step(board, config, from, kind, check).result {
                    Err(error) => reply == (ReplyView::Failure { msg: error.message() })
                        && description == JsepView::Empty,
                    Ok(response) => match jsep {
                        Some(Err(reason)) => reply == (ReplyView::Failure { msg: reason })
                            && description == JsepView::Empty,
                        Some(Ok(offered)) => reply == (ReplyView::Success {
                            response: response.body,
                        }) && description == jsep_step(between, from, offered).jsep,
                        None => reply == (ReplyView::Success { response: response.body })
                            && description == match response.jsep {
                            Some(offer) => offer,
                            None => JsepView::Empty,
                        },
                    },
                },
                None => match jsep {
                    Some(Err(reason)) => reply == (ReplyView::Failure { msg: reason })
                        && description == JsepView::Empty,
                    Some(Ok(offered)) => reply == (ReplyView::Success { response: None })
                        && description == jsep_step(between, from, offered).jsep,
                    None => reply == (ReplyView::Success { response: None }) && description
                        == JsepView::Empty,
                },
            }
        }),
{
}

} // verus!
