//! What holds of the library as a whole.
use crate::auth::TokenCheck;
use crate::config::Config;
use crate::delivery::{
    after_firs, fir, firs, law_firs_change_only_numbers, media_offer, notice, notices, Channel,
};
use crate::invariants::{
    law_blocks_keep_consistency, law_join_keeps_consistency, law_removal_keeps_consistency,
};
use crate::json::JsonTree;
use crate::lifecycle::leave_notices;
use crate::media::{data_to, lemma_senders_are_live, rtcp_step, rtcp_to, rtp_to};
use crate::messages::{JsepKindView, MessageKindView, SubscriptionView};
use crate::model::{
    distinct, feed_from, feed_subscriber, feed_without, in_room, next_seq, occupant_handle, occupant_other_than,
    Feed, OccupantView, SwitchboardView,
};
use crate::outbound::{
    ActionView, EventView, JsepView, MessageError, MessageResponseView, PayloadView, ReplyView,
};
use crate::preservation::law_messages_keep_consistency;
use crate::requests::{
    answer, description_part, law_messages_keep_sessions, message_part, request_step,
};
use crate::seqs::{
    lemma_filter_agrees, lemma_filter_distinct, lemma_filter_has, lemma_filter_map_distinct,
    lemma_map_distinct, lemma_push_has,
};
use crate::signalling::{
    after_entering, block_step, data_step, ending, join_error, join_step, kick_step,
    lemma_publisher_is_live, may_kick, media_step, message_step, offer_step, subscribe_step,
    unblock_step,
};
use crate::sessions::SessionView;
use crate::switchboard::lemma_occupant_is_joined;
use vstd::prelude::*;

verus! {

// Joining and subscribing.

/// A session that has joined can never join again: the attempt is refused, and nothing happens.
pub proof fn law_handles_join_once(
    board: SwitchboardView,
    config: Config,
    from: u64,
    room_id: Seq<char>,
    user_id: Seq<char>,
    subscribe: Option<SubscriptionView>,
    token: Option<Seq<char>>,
    check: Option<TokenCheck>,
)
    requires
        board.sessions[from].join_state is Some,
    ensures
        join_step(board, config, from, room_id, user_id, subscribe, token, check).result is Err,
        join_step(board, config, from, room_id, user_id, subscribe, token, check).board == board,
        join_step(board, config, from, room_id, user_id, subscribe, token, check).actions
            == Seq::<ActionView>::empty(),
{
}

/// A session that has subscribed can never subscribe again, neither by itself nor by joining.
pub proof fn law_handles_subscribe_once(
    board: SwitchboardView,
    config: Config,
    from: u64,
    what: SubscriptionView,
    room_id: Seq<char>,
    user_id: Seq<char>,
    token: Option<Seq<char>>,
    check: Option<TokenCheck>,
)
    requires
        board.sessions[from].subscription is Some,
    ensures
        subscribe_step(board, from, what).result == Err::<MessageResponseView, MessageError>(
            MessageError::AlreadySubscribed,
        ),
        subscribe_step(board, from, what).board == board,
        join_step(board, config, from, room_id, user_id, Some(what), token, check).result is Err,
        join_step(board, config, from, room_id, user_id, Some(what), token, check).board.feeds
            == board.feeds,
        join_step(board, config, from, room_id, user_id, Some(what), token, check).board.occupants
            == board.occupants,
{
}

/// Whatever message comes from whomever, a session keeps the room and user it has joined as, and
/// what it has subscribed to.
pub proof fn law_places_are_kept(
    board: SwitchboardView,
    config: Config,
    from: u64,
    msg: MessageKindView,
    check: Option<TokenCheck>,
    handle: u64,
)
    requires
        board.consistent(),
        board.is_live(from),
        board.is_live(handle),
    ensures
        ({
            let after = message_step(board, config, from, msg, check).board;
            &&& board.sessions[handle].join_state is Some ==> after.sessions[handle].join_state
                == board.sessions[handle].join_state
            &&& board.sessions[handle].subscription is Some ==> after.sessions[handle].subscription
                == board.sessions[handle].subscription
            &&& after.sessions[handle].subscriber_offer == board.sessions[handle].subscriber_offer
        }),
{
    let after = message_step(board, config, from, msg, check).board;
    match msg {
        MessageKindView::Join { room_id, user_id, subscribe, token } => {
            if subscribe is Some {
                let entered = after_entering(board, from, room_id, user_id, subscribe->0);
                assert(media_step(entered, from, subscribe->0.media).0.sessions
                    == entered.sessions);
            }
        },
        MessageKindView::Subscribe { what } => {
            let subscribed = board.with_subscription(from, what);
            assert(media_step(subscribed, from, what.media).0.sessions == subscribed.sessions);
        },
        MessageKindView::Unblock { whom } => {
            if board.sessions[from].join_state is Some {
                let by = board.sessions[from].join_state->0.user_id;
                law_blocks_keep_consistency(board, by, whom);
                let lifted = board.without_block(by, whom);
                if lifted.publisher_of(whom) is Some {
                    lemma_publisher_is_live(lifted, whom);
                }
            }
        },
        _ => {},
    }
}

/// Whether two states of a session are of the same room and user, where the first has joined, and
/// of the same subscription, where the first has subscribed.
pub open spec fn keeps_place(before: SessionView, after: SessionView) -> bool {
    &&& before.join_state is Some ==> after.join_state == before.join_state
    &&& before.subscription is Some ==> after.subscription == before.subscription
}

/// Nothing that happens changes the room, the user or the subscription of a session once they are
/// set: no request of any session, no packet, no beginning of media, no new session, and no ending
/// of another session. The session also stays live.
pub proof fn law_places_never_change(
    board: SwitchboardView,
    handle: u64,
    config: Config,
    from: Option<u64>,
    txn: u64,
    msg: Option<Result<MessageKindView, Seq<char>>>,
    check: Option<TokenCheck>,
    jsep: Option<Result<JsepKindView, Seq<char>>>,
    other: u64,
    video: i32,
    has_pli: bool,
    has_fir: bool,
)
    requires
        board.consistent(),
        board.is_live(handle),
    ensures
        ({
            let after = request_step(board, config, from, txn, msg, check, jsep).0;
            after.is_live(handle) && keeps_place(board.sessions[handle], after.sessions[handle])
        }),
        ({
            let after = rtcp_step(board, other, video, has_pli, has_fir).0;
            after.is_live(handle) && keeps_place(board.sessions[handle], after.sessions[handle])
        }),
        ({
            let after = after_firs(board, board.media_senders_to(other));
            after.is_live(handle) && keeps_place(board.sessions[handle], after.sessions[handle])
        }),
        ({
            let after = board.with_connection();
            after.is_live(handle) && keeps_place(board.sessions[handle], after.sessions[handle])
        }),
        other != handle ==> {
            let after = board.without_session(other);
            after.is_live(handle) && keeps_place(board.sessions[handle], after.sessions[handle])
        },
{
    if from is Some && board.is_live(from->0) {
        if let Some(Ok(kind)) = msg {
            law_places_are_kept(board, config, from->0, kind, check, handle);
            law_messages_keep_sessions(board, config, from->0, kind, check);
        }
        let between = message_part(board, config, from->0, msg, check).0;
        assert(between.is_live(handle) && between.is_live(from->0));
        assert(keeps_place(board.sessions[handle], between.sessions[handle]));
    }
    lemma_senders_are_live(board, other);
    law_firs_change_only_numbers(board, board.media_senders_to(other));
    assert(board.is_live(handle) && handle < board.next_handle);
}

/// A message changes no session but the one that sent it, except for the number of a request that
/// unblocking makes, and only blocking and unblocking change who has blocked whom.
pub proof fn law_others_are_left_alone(
    board: SwitchboardView,
    config: Config,
    from: u64,
    msg: MessageKindView,
    check: Option<TokenCheck>,
    handle: u64,
)
    requires
        handle != from,
    ensures
        ({
            let after = message_step(board, config, from, msg, check).board;
            &&& after.sessions[handle] == SessionView {
                fir_seq: after.sessions[handle].fir_seq,
                ..board.sessions[handle]
            }
            &&& !(msg is Unblock) ==> after.sessions[handle] == board.sessions[handle]
            &&& !(msg is Block || msg is Unblock) ==> after.blocks == board.blocks
        }),
{
}

/// What a subscriber is offered is the current offer of a live session that has joined as the user
/// asked for.
pub proof fn law_offers_come_from_the_user(
    board: SwitchboardView,
    from: u64,
    user_id: Seq<char>,
    sdp: Seq<char>,
)
    requires
        board.consistent(),
        media_step(board, from, Some(user_id)).1 == Ok::<Option<JsepView>, MessageError>(
            Some(JsepView::Offer { sdp }),
        ),
    ensures
        exists|publisher: u64| #[trigger]
            board.is_live(publisher) && board.sessions[publisher].is_user(user_id)
                && board.sessions[publisher].subscriber_offer == Some(sdp),
{
    lemma_publisher_is_live(board, user_id);
    let publisher = board.publisher_of(user_id)->0;
    assert(board.is_live(publisher));
}

/// With a key configured, nobody joins without a token that was found to be good and lets them.
pub proof fn law_a_key_keeps_strangers_out(
    board: SwitchboardView,
    config: Config,
    from: u64,
    room_id: Seq<char>,
    user_id: Seq<char>,
    subscribe: Option<SubscriptionView>,
    token: Option<Seq<char>>,
    check: Option<TokenCheck>,
)
    requires
        config.auth_key is Some,
        !(token is Some && (check matches Some(TokenCheck::Valid(claims)) && claims.join_hub)),
    ensures
        join_step(board, config, from, room_id, user_id, subscribe, token, check).result is Err,
        join_step(board, config, from, room_id, user_id, subscribe, token, check).board == board,
        join_step(board, config, from, room_id, user_id, subscribe, token, check).actions
            == Seq::<ActionView>::empty(),
{
}

/// Without a key, tokens make no difference.
pub proof fn law_without_a_key_tokens_do_not_matter(
    board: SwitchboardView,
    config: Config,
    from: u64,
    room_id: Seq<char>,
    user_id: Seq<char>,
    subscribe: Option<SubscriptionView>,
    token: Option<Seq<char>>,
    check: Option<TokenCheck>,
    other_token: Option<Seq<char>>,
    other_check: Option<TokenCheck>,
)
    requires
        config.auth_key is None,
    ensures
        join_step(board, config, from, room_id, user_id, subscribe, token, check) == join_step(
            board,
            config,
            from,
            room_id,
            user_id,
            subscribe,
            other_token,
            other_check,
        ),
        kick_step(board, config, room_id, user_id, check).actions == Seq::<ActionView>::empty(),
{
}

/// Only data connections are ever turned away for want of space.
pub proof fn law_only_data_connections_are_limited(
    board: SwitchboardView,
    config: Config,
    from: u64,
    room_id: Seq<char>,
    user_id: Seq<char>,
    subscribe: Option<SubscriptionView>,
    token: Option<Seq<char>>,
    check: Option<TokenCheck>,
)
    requires
        subscribe is None || !subscribe->0.data,
    ensures
        ({
            let result = join_step(
                board,
                config,
                from,
                room_id,
                user_id,
                subscribe,
                token,
                check,
            ).result;
            &&& result != Err::<MessageResponseView, MessageError>(MessageError::RoomFull)
            &&& result != Err::<MessageResponseView, MessageError>(MessageError::ServerFull)
        }),
{
}

/// One more occupant of a room.
proof fn lemma_occupants_push(
    board: SwitchboardView,
    handle: u64,
    entered: Seq<char>,
    room_id: Seq<char>,
)
    ensures
        board.with_occupant(handle, entered).occupants_of(room_id) == if entered == room_id {
            board.occupants_of(room_id).push(handle)
        } else {
            board.occupants_of(room_id)
        },
{
    reveal(Seq::filter);
    let after = board.with_occupant(handle, entered);
    assert(after.occupants.drop_last() =~= board.occupants);
    assert(after.occupants_of(room_id) =~= if entered == room_id {
        board.occupants_of(room_id).push(handle)
    } else {
        board.occupants_of(room_id)
    });
}

/// No message takes a room beyond one occupant more than its limit: a room that is not over the
/// limit takes one more, and a room that is over it takes none.
pub proof fn law_rooms_stay_bounded(
    board: SwitchboardView,
    config: Config,
    from: u64,
    msg: MessageKindView,
    check: Option<TokenCheck>,
    room_id: Seq<char>,
)
    requires
        board.occupants_of(room_id).len() <= config.max_room_size + 1,
    ensures
        message_step(board, config, from, msg, check).board.occupants_of(room_id).len()
            <= config.max_room_size + 1,
{
    if let MessageKindView::Join { room_id: entered, user_id, subscribe, token } = msg {
        if subscribe is Some {
            let subscribed = board.with_join(from, entered, user_id).with_subscription(
                from,
                subscribe->0,
            );
            assert(subscribed.occupants_of(room_id) == board.occupants_of(room_id));
            lemma_occupants_push(subscribed, from, entered, room_id);
        }
    }
}

/// After a session has joined a room for data, its user is among the room's users, whom everyone
/// who joins later is told of. That is so even where the media it asked for is not to be had.
pub proof fn law_users_see_who_joined(
    board: SwitchboardView,
    config: Config,
    from: u64,
    room_id: Seq<char>,
    user_id: Seq<char>,
    subscribe: SubscriptionView,
    token: Option<Seq<char>>,
    check: Option<TokenCheck>,
)
    requires
        board.consistent(),
        board.is_live(from),
        subscribe.data,
        board.sessions[from].subscription is None,
        join_error(board, config, from, room_id, Some(subscribe), token, check) is None,
    ensures
        ({
            let after = join_step(
                board,
                config,
                from,
                room_id,
                user_id,
                Some(subscribe),
                token,
                check,
            ).board;
            &&& after.users_of(room_id).contains(user_id)
            &&& after.occupants_of(room_id) == board.occupants_of(room_id).push(from)
            &&& after.is_connected(user_id)
        }),
{
    let step = join_step(board, config, from, room_id, user_id, Some(subscribe), token, check);
    let subscribed = board.with_join(from, room_id, user_id).with_subscription(from, subscribe);
    let entered = after_entering(board, from, room_id, user_id, subscribe);
    lemma_occupants_push(subscribed, from, room_id, room_id);
    assert(subscribed.occupants_of(room_id) == board.occupants_of(room_id));
    assert(step.board.occupants == entered.occupants);
    assert(step.board.sessions == entered.sessions);
    assert(step.board.occupants_of(room_id) == board.occupants_of(room_id).push(from));
    let after = step.board;
    let names = after.occupants_of(room_id).map_values(after.user_id_of());
    let last = after.occupants_of(room_id).len() - 1;
    assert(after.occupants_of(room_id)[last] == from);
    assert(names[last] == user_id);
    lemma_distinct(names);
    assert(names.contains(user_id));
    assert(after.is_live(from) && after.sessions[from].is_user(user_id));
}

/// Dropping repetitions loses nothing, and leaves none.
pub proof fn lemma_distinct(s: Seq<Seq<char>>)
    ensures
        distinct(s).no_duplicates(),
        forall|a: Seq<char>| #[trigger] distinct(s).contains(a) <==> s.contains(a),
    decreases s.len(),
{
    if s.len() > 0 {
        let front = s.drop_last();
        lemma_distinct(front);
        assert(s =~= front.push(s.last()));
        assert forall|a: Seq<char>| #[trigger] distinct(s).contains(a) <==> s.contains(a) by {
            lemma_push_has(front, s.last(), a);
            lemma_push_has(distinct(front), s.last(), a);
            assert(distinct(front).contains(a) <==> front.contains(a));
        }
    }
}

/// The list of a room's users names nobody twice, and names exactly those whom some occupant has
/// joined as.
pub proof fn law_users_are_listed_once(board: SwitchboardView, room_id: Seq<char>)
    requires
        board.consistent(),
    ensures
        board.users_of(room_id).no_duplicates(),
        forall|user_id: Seq<char>| #[trigger]
            board.users_of(room_id).contains(user_id) <==> exists|i: int|
                0 <= i < board.occupants_of(room_id).len()
                    && board.sessions[#[trigger] board.occupants_of(room_id)[i]].is_user(user_id),
{
    let occupants = board.occupants_of(room_id);
    let names = occupants.map_values(board.user_id_of());
    lemma_distinct(names);
    assert forall|user_id: Seq<char>| #[trigger]
        board.users_of(room_id).contains(user_id) <==> exists|i: int|
            0 <= i < occupants.len() && board.sessions[#[trigger] occupants[i]].is_user(user_id) by {
        assert(board.users_of(room_id).contains(user_id) <==> names.contains(user_id));
        if names.contains(user_id) {
            let i = names.index_of(user_id);
            lemma_occupant_is_joined(board, room_id, i);
            assert(board.sessions[occupants[i]].is_user(user_id));
        }
        if exists|i: int|
            0 <= i < occupants.len() && board.sessions[#[trigger] occupants[i]].is_user(user_id) {
            let i = choose|i: int|
                0 <= i < occupants.len() && board.sessions[#[trigger] occupants[i]].is_user(
                    user_id,
                );
            assert(names[i] == user_id);
        }
    }
}

// Media, data and blocks.

/// Who receives the media of a session, told one by one.
pub proof fn lemma_media_recipients(board: SwitchboardView, publisher: u64, subscriber: u64)
    ensures
        board.media_recipients_for(publisher).contains(subscriber) <==> board.feeds.contains(
            Feed { publisher, subscriber },
        ) && !board.sessions_blocked(publisher, subscriber),
{
    let feed = Feed { publisher, subscriber };
    let kept = board.feeds.filter(board.open_feed_from(publisher));
    lemma_filter_has(board.feeds, board.open_feed_from(publisher));
    let recipients = board.media_recipients_for(publisher);
    if recipients.contains(subscriber) {
        let i = recipients.index_of(subscriber);
        assert(kept.contains(kept[i]));
        assert(kept[i] == feed);
    }
    if board.feeds.contains(feed) && !board.sessions_blocked(publisher, subscriber) {
        assert(kept.contains(feed));
        let i = kept.index_of(feed);
        assert(recipients[i] == subscriber);
    }
}

/// Whose media a session receives, told one by one.
pub proof fn lemma_media_senders(board: SwitchboardView, publisher: u64, subscriber: u64)
    ensures
        board.media_senders_to(subscriber).contains(publisher) <==> board.feeds.contains(
            Feed { publisher, subscriber },
        ) && !board.sessions_blocked(publisher, subscriber),
{
    let feed = Feed { publisher, subscriber };
    let kept = board.feeds.filter(board.open_feed_to(subscriber));
    lemma_filter_has(board.feeds, board.open_feed_to(subscriber));
    let senders = board.media_senders_to(subscriber);
    if senders.contains(publisher) {
        let i = senders.index_of(publisher);
        assert(kept.contains(kept[i]));
        assert(kept[i] == feed);
    }
    if board.feeds.contains(feed) && !board.sessions_blocked(publisher, subscriber) {
        assert(kept.contains(feed));
        let i = kept.index_of(feed);
        assert(senders[i] == publisher);
    }
}

/// A session receives the media of another exactly if the other is among its senders: requests
/// for full frames go back along the ways that media comes.
pub proof fn law_media_ways_agree(board: SwitchboardView, publisher: u64, subscriber: u64)
    ensures
        board.media_recipients_for(publisher).contains(subscriber) <==> board.media_senders_to(
            subscriber,
        ).contains(publisher),
{
    lemma_media_recipients(board, publisher, subscriber);
    lemma_media_senders(board, publisher, subscriber);
}

/// Nobody receives the media of two sessions.
pub proof fn law_one_sender_each(board: SwitchboardView, one: u64, other: u64, subscriber: u64)
    requires
        board.consistent(),
        board.media_senders_to(subscriber).contains(one),
        board.media_senders_to(subscriber).contains(other),
    ensures
        one == other,
{
    lemma_media_senders(board, one, subscriber);
    lemma_media_senders(board, other, subscriber);
    let i = board.feeds.index_of(Feed { publisher: one, subscriber });
    let j = board.feeds.index_of(Feed { publisher: other, subscriber });
    if i < j {
        assert(board.feeds[i].subscriber != board.feeds[j].subscriber);
    } else if j < i {
        assert(board.feeds[j].subscriber != board.feeds[i].subscriber);
    }
}

/// Between the sessions of two users of whom one has blocked the other, no media packet and no
/// packet of a data channel passes, either way.
pub proof fn law_blocks_stop_traffic(board: SwitchboardView, one: u64, other: u64)
    requires
        board.sessions_blocked(one, other),
    ensures
        !board.media_recipients_for(one).contains(other),
        !board.media_recipients_for(other).contains(one),
        !board.data_recipients_for(one).contains(other),
        !board.data_recipients_for(other).contains(one),
{
    lemma_media_recipients(board, one, other);
    lemma_media_recipients(board, other, one);
    lemma_filter_has(
        board.occupants_of(board.sessions[one].join_state->0.room_id),
        board.reachable_from(one),
    );
    lemma_filter_has(
        board.occupants_of(board.sessions[other].join_state->0.room_id),
        board.reachable_from(other),
    );
}

/// Once a user has blocked another, no such packet passes between any of their sessions.
pub proof fn law_blocking_takes_effect(
    board: SwitchboardView,
    from: u64,
    whom: Seq<char>,
    mine: u64,
    theirs: u64,
)
    requires
        board.is_live(from),
        board.sessions[from].join_state is Some,
        board.is_live(mine),
        board.sessions[mine].is_user(board.sessions[from].join_state->0.user_id),
        board.is_live(theirs),
        board.sessions[theirs].is_user(whom),
    ensures
        ({
            let after = block_step(board, from, whom).board;
            &&& !after.media_recipients_for(mine).contains(theirs)
            &&& !after.media_recipients_for(theirs).contains(mine)
            &&& !after.data_recipients_for(mine).contains(theirs)
            &&& !after.data_recipients_for(theirs).contains(mine)
        }),
{
    let after = block_step(board, from, whom).board;
    assert(after.blocks.contains((board.sessions[from].join_state->0.user_id, whom)));
    law_blocks_stop_traffic(after, mine, theirs);
}

/// Unblocking undoes blocking: who has blocked whom is as it was before, and so is everything
/// else, but for the number of a request that unblocking makes.
pub proof fn law_unblocking_undoes_blocking(board: SwitchboardView, from: u64, whom: Seq<char>)
    requires
        board.consistent(),
        board.is_live(from),
        board.sessions[from].join_state is Some,
        !board.blocks.contains((board.sessions[from].join_state->0.user_id, whom)),
    ensures
        ({
            let after = unblock_step(block_step(board, from, whom).board, from, whom).board;
            &&& after.blocks == board.blocks
            &&& after == match board.publisher_of(whom) {
                Some(publisher) => board.with_fir(publisher),
                None => board,
            }
        }),
{
    let by = board.sessions[from].join_state->0.user_id;
    let blocked = block_step(board, from, whom).board;
    let lifted = blocked.without_block(by, whom);
    assert(lifted.blocks =~= board.blocks);
    assert(lifted =~= board);
}

/// Nobody is sent their own data.
pub proof fn law_data_does_not_come_back(board: SwitchboardView, handle: u64)
    ensures
        !board.data_recipients_for(handle).contains(handle),
{
    if board.is_live(handle) && board.sessions[handle].join_state is Some {
        lemma_filter_has(
            board.occupants_of(board.sessions[handle].join_state->0.room_id),
            board.reachable_from(handle),
        );
    }
}

/// The requests for full frames that a session gets are made from consecutive numbers.
pub proof fn law_fir_numbers_are_consecutive(board: SwitchboardView, handle: u64)
    ensures
        fir(board.with_fir(handle), handle) == (ActionView::Fir {
            handle,
            seq: next_seq(board.sessions[handle].fir_seq) as i32,
        }),
{
}

// Publishing.

/// What a publisher last offered is what a new subscriber gets, and from then on the publisher's
/// media goes to the subscriber, unless one of them has blocked the other. Here the publisher is
/// the session that sends the user's media already, or the first to do so.
pub proof fn law_subscribers_get_the_last_offer(
    board: SwitchboardView,
    publisher: u64,
    answer_sdp: Seq<char>,
    offer: Seq<char>,
    subscriber: u64,
    what: SubscriptionView,
)
    requires
        board.consistent(),
        board.is_live(publisher),
        board.sessions[publisher].join_state is Some,
        what.media == Some(board.sessions[publisher].join_state->0.user_id),
        board.publisher_of(what.media->0) is None || board.publisher_of(what.media->0) == Some(
            publisher,
        ),
        board.is_live(subscriber),
        board.sessions[subscriber].subscription is None,
    ensures
        ({
            let step = subscribe_step(
                offer_step(board, publisher, answer_sdp, offer).board,
                subscriber,
                what,
            );
            &&& step.result == Ok::<MessageResponseView, MessageError>(
                MessageResponseView {
                    body: Some(PayloadView::Empty),
                    jsep: Some(JsepView::Offer { sdp: offer }),
                },
            )
            &&& step.board.subscribers_to(publisher).contains(subscriber)
            &&& !step.board.sessions_blocked(publisher, subscriber)
                ==> step.board.media_recipients_for(publisher).contains(subscriber)
        }),
{
    let user_id = what.media->0;
    let offered = offer_step(board, publisher, answer_sdp, offer).board;
    let subscribed = offered.with_subscription(subscriber, what);
    lemma_first_publisher(board, publisher, offer);
    lemma_publisher_unmoved(offered, subscribed, user_id);
    lemma_new_feed(subscribed, publisher, subscriber);
}

/// Likewise for a session that subscribes as it joins, and is not refused. Here the publisher is the
/// session that sends the user's media once the other has joined, or would be the first to do so.
pub proof fn law_joiners_get_the_last_offer(
    board: SwitchboardView,
    config: Config,
    publisher: u64,
    answer_sdp: Seq<char>,
    offer: Seq<char>,
    subscriber: u64,
    room_id: Seq<char>,
    user_id: Seq<char>,
    what: SubscriptionView,
    token: Option<Seq<char>>,
    check: Option<TokenCheck>,
)
    requires
        board.consistent(),
        board.is_live(publisher),
        board.sessions[publisher].join_state is Some,
        what.media == Some(board.sessions[publisher].join_state->0.user_id),
        board.is_live(subscriber),
        board.sessions[subscriber].subscription is None,
        join_error(board, config, subscriber, room_id, Some(what), token, check) is None,
        ({
            let current = board.with_join(subscriber, room_id, user_id).publisher_of(
                what.media->0,
            );
            current is None || current == Some(publisher)
        }),
    ensures
        ({
            let step = join_step(
                offer_step(board, publisher, answer_sdp, offer).board,
                config,
                subscriber,
                room_id,
                user_id,
                Some(what),
                token,
                check,
            );
            &&& step.result == Ok::<MessageResponseView, MessageError>(
                MessageResponseView {
                    body: Some(PayloadView::Users { room_id, users: board.users_of(room_id) }),
                    jsep: Some(JsepView::Offer { sdp: offer }),
                },
            )
            &&& step.board.subscribers_to(publisher).contains(subscriber)
            &&& !step.board.sessions_blocked(publisher, subscriber)
                ==> step.board.media_recipients_for(publisher).contains(subscriber)
        }),
{
    let media = what.media->0;
    let offered = offer_step(board, publisher, answer_sdp, offer).board;
    let joined = board.with_join(subscriber, room_id, user_id);
    let entered = after_entering(offered, subscriber, room_id, user_id, what);
    law_join_keeps_consistency(board, subscriber, room_id, user_id);
    lemma_first_publisher(joined, publisher, offer);
    lemma_publisher_unmoved(joined.with_offer(publisher, offer), entered, media);
    assert(offered.occupants_of(room_id) == board.occupants_of(room_id));
    assert(offered.occupants_of(room_id).map_values(offered.user_id_of())
        =~= board.occupants_of(room_id).map_values(board.user_id_of()));
    lemma_new_feed(entered, publisher, subscriber);
}

/// A session that has just begun to receive a feed is among its subscribers, and receives it.
proof fn lemma_new_feed(board: SwitchboardView, publisher: u64, subscriber: u64)
    ensures
        ({
            let after = board.with_feed(publisher, subscriber);
            &&& after.subscribers_to(publisher).contains(subscriber)
            &&& !after.sessions_blocked(publisher, subscriber) ==> after.media_recipients_for(
                publisher,
            ).contains(subscriber)
        }),
{
    let after = board.with_feed(publisher, subscriber);
    let feed = Feed { publisher, subscriber };
    assert(after.feeds[board.feeds.len() as int] == feed);
    assert(after.feeds.contains(feed));
    let kept = after.feeds.filter(feed_from(publisher));
    lemma_filter_has(after.feeds, feed_from(publisher));
    assert(kept.contains(feed));
    let i = kept.index_of(feed);
    assert(after.subscribers_to(publisher)[i] == subscriber);
    lemma_media_recipients(after, publisher, subscriber);
}

/// A session that makes an offer comes to send its user's media, unless another session does.
proof fn lemma_first_publisher(board: SwitchboardView, publisher: u64, offer: Seq<char>)
    requires
        board.consistent(),
        board.is_live(publisher),
        board.sessions[publisher].join_state is Some,
        ({
            let current = board.publisher_of(board.sessions[publisher].join_state->0.user_id);
            current is None || current == Some(publisher)
        }),
    ensures
        board.with_offer(publisher, offer).publisher_of(
            board.sessions[publisher].join_state->0.user_id,
        ) == Some(publisher),
{
    let user_id = board.sessions[publisher].join_state->0.user_id;
    let after = board.with_offer(publisher, offer);
    if board.publisher_of(user_id) is Some {
        lemma_publisher_is_live(board, user_id);
        lemma_publisher_unmoved(board, after, user_id);
    } else {
        let before = board.connected.filter(board.publishing(user_id));
        let kept = after.connected.filter(after.publishing(user_id));
        lemma_filter_has(board.connected, board.publishing(user_id));
        lemma_filter_has(after.connected, after.publishing(user_id));
        assert(before.len() == 0);
        assert(kept.contains(publisher)) by {
            assert(board.is_live(publisher));
            assert(after.connected.contains(publisher));
        }
        assert(kept.len() > 0);
        assert(kept.contains(kept[0]));
        if kept[0] != publisher {
            assert(board.connected.contains(kept[0]));
            assert(before.contains(kept[0]));
        }
    }
}

/// Where the same sessions send a user's media, the same one is picked.
pub proof fn lemma_publisher_unmoved(before: SwitchboardView, after: SwitchboardView, user_id: Seq<char>)
    requires
        before.connected == after.connected,
        forall|i: int|
            0 <= i < before.connected.len() ==> before.sessions[#[trigger] before.connected[i]].publishes_for(
                user_id,
            ) == after.sessions[before.connected[i]].publishes_for(user_id),
    ensures
        before.publisher_of(user_id) == after.publisher_of(user_id),
{
    lemma_filter_agrees(before.connected, before.publishing(user_id), after.publishing(user_id));
}

/// A new offer goes to everyone who subscribes to the session, to each once, and to nobody else.
pub proof fn law_new_offers_reach_subscribers(
    board: SwitchboardView,
    from: u64,
    answer_sdp: Seq<char>,
    offer: Seq<char>,
    handle: u64,
)
    requires
        board.consistent(),
    ensures
        offer_step(board, from, answer_sdp, offer).actions.contains(
            ActionView::Offer { handle, sdp: offer },
        ) <==> board.feeds.contains(Feed { publisher: from, subscriber: handle }),
        offer_step(board, from, answer_sdp, offer).actions.no_duplicates(),
{
    lemma_offers_go_out_once(board, from, answer_sdp, offer);
    let actions = offer_step(board, from, answer_sdp, offer).actions;
    let kept = board.feeds.filter(feed_from(from));
    lemma_filter_has(board.feeds, feed_from(from));
    let wanted = ActionView::Offer { handle, sdp: offer };
    let feed = Feed { publisher: from, subscriber: handle };
    if actions.contains(wanted) {
        let i = actions.index_of(wanted);
        assert(kept.contains(kept[i]));
        assert(kept[i] == feed);
    }
    if board.feeds.contains(feed) {
        assert(kept.contains(feed));
        let i = kept.index_of(feed);
        assert(actions[i] == wanted);
    }
}

// Notices.

/// Who is told of an event, told one by one.
proof fn lemma_notices(
    event: EventView,
    everyone: Seq<u64>,
    keep: spec_fn(u64) -> bool,
    handle: u64,
)
    ensures
        notices(event, everyone.filter(keep)).contains(
            ActionView::Notify { handle, event },
        ) <==> everyone.contains(handle) && keep(handle),
{
    let kept = everyone.filter(keep);
    let told = notices(event, kept);
    let wanted = ActionView::Notify { handle, event };
    lemma_filter_has(everyone, keep);
    if told.contains(wanted) {
        let i = told.index_of(wanted);
        assert(told[i] == notice(event)(kept[i]));
        assert(kept.contains(kept[i]));
    }
    if everyone.contains(handle) && keep(handle) {
        assert(kept.contains(handle));
        let i = kept.index_of(handle);
        assert(told[i] == wanted);
    }
}

/// Nobody takes part in a room twice.
pub proof fn lemma_occupants_once(board: SwitchboardView, room_id: Seq<char>)
    requires
        board.consistent(),
    ensures
        board.occupants_of(room_id).no_duplicates(),
{
    assert forall|i: int, j: int| 0 <= i < j < board.occupants.len() implies occupant_handle()(
        #[trigger] board.occupants[i],
    ) != occupant_handle()(#[trigger] board.occupants[j]) by {
        assert(board.occupants[i].handle != board.occupants[j].handle);
    }
    lemma_filter_map_distinct(board.occupants, in_room(room_id), occupant_handle());
}

/// Where nobody is listed twice, nobody is told twice.
pub proof fn lemma_notices_once(event: EventView, everyone: Seq<u64>, keep: spec_fn(u64) -> bool)
    requires
        everyone.no_duplicates(),
    ensures
        notices(event, everyone.filter(keep)).no_duplicates(),
{
    lemma_filter_distinct(everyone, keep);
    assert forall|a: u64, b: u64| #[trigger] notice(event)(a) == #[trigger] notice(event)(
        b,
    ) implies a == b by {
        assert(notice(event)(a).target() == a && notice(event)(b).target() == b);
    }
    lemma_map_distinct(everyone.filter(keep), notice(event));
}

/// A new offer goes to nobody twice.
proof fn lemma_offers_go_out_once(
    board: SwitchboardView,
    from: u64,
    answer_sdp: Seq<char>,
    offer: Seq<char>,
)
    requires
        board.consistent(),
    ensures
        offer_step(board, from, answer_sdp, offer).actions.no_duplicates(),
{
    lemma_feeds_once(board, feed_from(from));
    assert forall|a: u64, b: u64| #[trigger] media_offer(offer)(a) == #[trigger] media_offer(offer)(
        b,
    ) implies a == b by {
        assert(media_offer(offer)(a).target() == a && media_offer(offer)(b).target() == b);
    }
    lemma_map_distinct(board.subscribers_to(from), media_offer(offer));
}

/// Nobody is twice among those who receive some feeds.
pub proof fn lemma_feeds_once(board: SwitchboardView, keep: spec_fn(Feed) -> bool)
    requires
        board.consistent(),
    ensures
        board.feeds.filter(keep).map_values(feed_subscriber()).no_duplicates(),
{
    assert forall|i: int, j: int| 0 <= i < j < board.feeds.len() implies feed_subscriber()(
        #[trigger] board.feeds[i],
    ) != feed_subscriber()(#[trigger] board.feeds[j]) by {
        assert(board.feeds[i].subscriber != board.feeds[j].subscriber);
    }
    lemma_filter_map_distinct(board.feeds, keep, feed_subscriber());
}

/// Of a session's ending nobody is told twice.
proof fn lemma_leaving_is_told_once(board: SwitchboardView, handle: u64)
    requires
        board.consistent(),
    ensures
        leave_notices(board, handle).no_duplicates(),
{
    if board.is_live(handle) && board.sessions[handle].join_state is Some {
        let joined = board.sessions[handle].join_state->0;
        let after = board.without_session(handle);
        law_removal_keeps_consistency(board, handle);
        lemma_occupants_once(after, joined.room_id);
        lemma_notices_once(
            EventView::Leave { user_id: joined.user_id, room_id: joined.room_id },
            after.occupants_of(joined.room_id),
            after.listeners_except(Channel::Notifications, joined.user_id),
        );
    }
}

/// No message has the gateway do the same thing twice: each session concerned is told, asked or
/// ended once.
pub proof fn law_messages_act_once(
    board: SwitchboardView,
    config: Config,
    from: u64,
    msg: MessageKindView,
    check: Option<TokenCheck>,
)
    requires
        board.consistent(),
        board.is_live(from),
    ensures
        message_step(board, config, from, msg, check).actions.no_duplicates(),
{
    let step = message_step(board, config, from, msg, check);
    let joined = board.sessions[from].join_state->0;
    match msg {
        MessageKindView::Join { room_id, user_id, subscribe, .. } => {
            if subscribe is Some {
                let subscribed = board.with_join(from, room_id, user_id).with_subscription(
                    from,
                    subscribe->0,
                );
                let entered = after_entering(board, from, room_id, user_id, subscribe->0);
                if step.actions.len() > 0 {
                    lemma_occupants_push(subscribed, from, room_id, room_id);
                    assert(subscribed.occupants_of(room_id) == board.occupants_of(room_id));
                    lemma_occupants_once(board, room_id);
                    assert(!board.occupants_of(room_id).contains(from)) by {
                        if board.occupants_of(room_id).contains(from) {
                            let i = board.occupants_of(room_id).index_of(from);
                            lemma_occupant_is_joined(board, room_id, i);
                        }
                    }
                    assert(entered.occupants_of(room_id) == board.occupants_of(room_id).push(from));
                    lemma_notices_once(
                        EventView::Join { user_id, room_id },
                        entered.occupants_of(room_id),
                        entered.listeners_except(Channel::Notifications, user_id),
                    );
                }
            }
        },
        MessageKindView::Kick { room_id, user_id, .. } => {
            law_kicks_hit_their_target(board, config, room_id, user_id, check, check, from);
        },
        MessageKindView::Subscribe { .. } => {},
        MessageKindView::Block { whom } => {
            lemma_occupants_once(board, joined.room_id);
            lemma_notices_once(
                EventView::Blocked { by: joined.user_id },
                board.occupants_of(joined.room_id),
                board.listeners_of(Channel::Notifications, whom),
            );
        },
        MessageKindView::Unblock { whom } => {
            if board.sessions[from].join_state is Some {
                let event = EventView::Unblocked { by: joined.user_id };
                let keep = step.board.listeners_of(Channel::Notifications, whom);
                let told = notices(event, step.board.occupants_of(joined.room_id).filter(keep));
                assert(step.board.occupants_of(joined.room_id) == board.occupants_of(
                    joined.room_id,
                ));
                lemma_occupants_once(board, joined.room_id);
                lemma_notices_once(event, board.occupants_of(joined.room_id), keep);
                assert(forall|i: int| 0 <= i < told.len() ==> (#[trigger] told[i]) is Notify);
            }
        },
        MessageKindView::Data { whom, body } => {
            if board.sessions[from].join_state is Some {
                law_data_stays_in_the_room(board, from, whom, body, from);
            }
        },
    }
}

/// No request has the gateway do the same thing twice.
pub proof fn law_requests_act_once(
    board: SwitchboardView,
    config: Config,
    from: Option<u64>,
    txn: u64,
    msg: Option<Result<MessageKindView, Seq<char>>>,
    check: Option<TokenCheck>,
    jsep: Option<Result<JsepKindView, Seq<char>>>,
)
    requires
        board.consistent(),
    ensures
        request_step(board, config, from, txn, msg, check, jsep).1.no_duplicates(),
{
    if from is Some && board.is_live(from->0) {
        let handle = from->0;
        if let Some(Ok(kind)) = msg {
            law_messages_keep_consistency(board, config, handle, kind, check);
            law_messages_act_once(board, config, handle, kind, check);
        }
        let (between, _, first) = message_part(board, config, handle, msg, check);
        let (_, _, second) = description_part(between, handle, jsep);
        if let Some(Ok(JsepKindView::Offer { answer, subscriber_offer })) = jsep {
            lemma_offers_go_out_once(between, handle, answer, subscriber_offer);
        }
        let actions = request_step(board, config, from, txn, msg, check, jsep).1;
        assert(forall|i: int|
            0 <= i < first.len() ==> !((#[trigger] first[i]) is Offer) && !is_answer(first[i]));
        assert(forall|i: int| 0 <= i < second.len() ==> (#[trigger] second[i]) is Offer);
        assert forall|i: int, j: int| 0 <= i < j < actions.len() implies actions[i]
            != actions[j] by {
            if i < first.len() {
                assert(actions[i] == first[i]);
            } else {
                assert(actions[i] == second[i - first.len()]);
            }
            if j < first.len() {
                assert(actions[j] == first[j]);
            } else if j < first.len() + second.len() {
                assert(actions[j] == second[j - first.len()]);
            }
        }
    }
}

/// A packet that a session sends goes to nobody twice, and asks nobody twice for a full frame.
pub proof fn law_packets_go_once(
    board: SwitchboardView,
    handle: u64,
    video: i32,
    has_pli: bool,
    has_fir: bool,
)
    requires
        board.consistent(),
    ensures
        board.media_recipients_for(handle).map_values(rtp_to(video)).no_duplicates(),
        board.data_recipients_for(handle).map_values(data_to()).no_duplicates(),
        rtcp_step(board, handle, video, has_pli, has_fir).1.no_duplicates(),
{
    lemma_feeds_once(board, board.open_feed_from(handle));
    let recipients = board.media_recipients_for(handle);
    assert forall|a: u64, b: u64| #[trigger] rtp_to(video)(a) == #[trigger] rtp_to(video)(
        b,
    ) implies a == b by {
        assert(rtp_to(video)(a).target() == a && rtp_to(video)(b).target() == b);
    }
    lemma_map_distinct(recipients, rtp_to(video));
    assert forall|a: u64, b: u64| #[trigger] rtcp_to(video)(a) == #[trigger] rtcp_to(video)(
        b,
    ) implies a == b by {
        assert(rtcp_to(video)(a).target() == a && rtcp_to(video)(b).target() == b);
    }
    lemma_map_distinct(recipients, rtcp_to(video));
    if board.is_live(handle) && board.sessions[handle].join_state is Some {
        let room_id = board.sessions[handle].join_state->0.room_id;
        lemma_occupants_once(board, room_id);
        lemma_filter_distinct(board.occupants_of(room_id), board.reachable_from(handle));
    }
    lemma_map_distinct(board.data_recipients_for(handle), data_to());
    let senders = board.media_senders_to(handle);
    lemma_one_sender(board, handle);
    lemma_firs_count(board, senders);
}

/// A session receives the media of one session at most.
pub proof fn lemma_one_sender(board: SwitchboardView, handle: u64)
    requires
        board.consistent(),
    ensures
        board.media_senders_to(handle).len() <= 1,
{
    let senders = board.media_senders_to(handle);
    let kept = board.feeds.filter(board.open_feed_to(handle));
    lemma_feeds_once(board, board.open_feed_to(handle));
    lemma_filter_has(board.feeds, board.open_feed_to(handle));
    if senders.len() > 1 {
        assert(kept.contains(kept[0]) && kept.contains(kept[1]));
        let receivers = kept.map_values(feed_subscriber());
        assert(receivers[0] == handle && receivers[1] == handle);
    }
}

/// As many requests for full frames as there are sessions to ask.
proof fn lemma_firs_count(board: SwitchboardView, handles: Seq<u64>)
    ensures
        firs(board, handles).len() == handles.len(),
    decreases handles.len(),
{
    if handles.len() > 0 {
        lemma_firs_count(board, handles.drop_last());
    }
}

/// Of the sessions that listen to a channel, those of one user and those of everyone else are all,
/// and none is both.
pub proof fn law_audiences_split(
    board: SwitchboardView,
    channel: Channel,
    user_id: Seq<char>,
    handle: u64,
)
    ensures
        board.listens(channel, handle) <==> board.listeners_of(channel, user_id)(handle)
            || board.listeners_except(channel, user_id)(handle),
        !(board.listeners_of(channel, user_id)(handle) && board.listeners_except(channel, user_id)(
            handle,
        )),
{
}

/// Of a user's joining, exactly those occupants of the room are told that want to be, and belong to
/// other users, each once; whether or not the media asked for is to be had.
pub proof fn law_joins_are_told_to_the_others(
    board: SwitchboardView,
    config: Config,
    from: u64,
    room_id: Seq<char>,
    user_id: Seq<char>,
    subscribe: SubscriptionView,
    token: Option<Seq<char>>,
    check: Option<TokenCheck>,
    handle: u64,
)
    requires
        board.consistent(),
        board.is_live(from),
        subscribe.data,
        board.sessions[from].subscription is None,
        join_error(board, config, from, room_id, Some(subscribe), token, check) is None,
    ensures
        join_step(
            board,
            config,
            from,
            room_id,
            user_id,
            Some(subscribe),
            token,
            check,
        ).actions.contains(
            ActionView::Notify { handle, event: EventView::Join { user_id, room_id } },
        ) <==> board.occupants_of(room_id).contains(handle) && board.listens(
            Channel::Notifications,
            handle,
        ) && !board.sessions[handle].is_user(user_id),
        join_step(
            board,
            config,
            from,
            room_id,
            user_id,
            Some(subscribe),
            token,
            check,
        ).actions.no_duplicates(),
{
    law_messages_act_once(
        board,
        config,
        from,
        MessageKindView::Join { room_id, user_id, subscribe: Some(subscribe), token },
        check,
    );
    let subscribed = board.with_join(from, room_id, user_id).with_subscription(from, subscribe);
    let entered = after_entering(board, from, room_id, user_id, subscribe);
    lemma_occupants_push(subscribed, from, room_id, room_id);
    assert(subscribed.occupants_of(room_id) == board.occupants_of(room_id));
    lemma_push_has(board.occupants_of(room_id), from, handle);
    lemma_notices(
        EventView::Join { user_id, room_id },
        entered.occupants_of(room_id),
        entered.listeners_except(Channel::Notifications, user_id),
        handle,
    );
    if handle == from && board.occupants_of(room_id).contains(handle) {
        let i = board.occupants_of(room_id).index_of(handle);
        lemma_occupant_is_joined(board, room_id, i);
    }
}

/// Data goes, once each, to exactly those occupants of the sender's room that receive data and
/// belong to the user it is for, or, where it is for no one user, to any user but the sender.
pub proof fn law_data_stays_in_the_room(
    board: SwitchboardView,
    from: u64,
    whom: Option<Seq<char>>,
    body: Seq<char>,
    handle: u64,
)
    requires
        board.consistent(),
        board.is_live(from),
        board.sessions[from].join_state is Some,
    ensures
        data_step(board, from, whom, body).actions.contains(
            ActionView::Notify { handle, event: EventView::Data { body } },
        ) <==> {
            &&& board.occupants_of(board.sessions[from].join_state->0.room_id).contains(handle)
            &&& board.listens(Channel::Data, handle)
            &&& match whom {
                Some(user_id) => board.sessions[handle].is_user(user_id),
                None => !board.sessions[handle].is_user(
                    board.sessions[from].join_state->0.user_id,
                ),
            }
        },
        data_step(board, from, whom, body).actions.no_duplicates(),
{
    let joined = board.sessions[from].join_state->0;
    lemma_occupants_once(board, joined.room_id);
    lemma_notices_once(
        EventView::Data { body },
        board.occupants_of(joined.room_id),
        match whom {
            Some(user_id) => board.listeners_of(Channel::Data, user_id),
            None => board.listeners_except(Channel::Data, joined.user_id),
        },
    );
    lemma_notices(
        EventView::Data { body },
        board.occupants_of(joined.room_id),
        match whom {
            Some(user_id) => board.listeners_of(Channel::Data, user_id),
            None => board.listeners_except(Channel::Data, joined.user_id),
        },
        handle,
    );
}

/// A kick ends exactly the live sessions of that user in that room, each once, and only where it is
/// allowed; the answer does not tell whether it was.
pub proof fn law_kicks_hit_their_target(
    board: SwitchboardView,
    config: Config,
    room_id: Seq<char>,
    user_id: Seq<char>,
    check: Option<TokenCheck>,
    other_check: Option<TokenCheck>,
    handle: u64,
)
    requires
        board.consistent(),
    ensures
        kick_step(board, config, room_id, user_id, check).actions.contains(
            ActionView::EndSession { handle },
        ) <==> may_kick(config, check) && board.is_live(handle) && board.sessions[handle].is_in(
            room_id,
        ) && board.sessions[handle].is_user(user_id),
        kick_step(board, config, room_id, user_id, check).result == kick_step(
            board,
            config,
            room_id,
            user_id,
            other_check,
        ).result,
        kick_step(board, config, room_id, user_id, check).board == board,
        kick_step(board, config, room_id, user_id, check).actions.no_duplicates(),
{
    lemma_filter_distinct(board.connected, board.joined_as(room_id, user_id));
    lemma_map_distinct(board.sessions_of(room_id, user_id), ending());
    let actions = kick_step(board, config, room_id, user_id, check).actions;
    let kept = board.sessions_of(room_id, user_id);
    lemma_filter_has(board.connected, board.joined_as(room_id, user_id));
    let wanted = ActionView::EndSession { handle };
    assert(board.is_live(handle) <==> board.connected.contains(handle));
    assert(kept.contains(handle) <==> board.connected.contains(handle) && board.joined_as(
        room_id,
        user_id,
    )(handle));
    if may_kick(config, check) {
        if actions.contains(wanted) {
            let i = actions.index_of(wanted);
            assert(actions[i] == ending()(kept[i]));
            assert(kept.contains(kept[i]));
        }
        if kept.contains(handle) {
            let i = kept.index_of(handle);
            assert(actions[i] == wanted);
        }
    }
}

// Endings.

/// A session that has ended is nowhere any more: in no room, at no end of a feed, and its requests
/// are dropped without a word.
pub proof fn law_ended_sessions_are_gone(
    board: SwitchboardView,
    handle: u64,
    room_id: Seq<char>,
    other: u64,
    config: Config,
    txn: u64,
    msg: Option<Result<MessageKindView, Seq<char>>>,
    check: Option<TokenCheck>,
    jsep: Option<Result<JsepKindView, Seq<char>>>,
)
    ensures
        ({
            let after = board.without_session(handle);
            &&& !after.is_live(handle)
            &&& !after.occupants_of(room_id).contains(handle)
            &&& !after.media_recipients_for(other).contains(handle)
            &&& !after.media_senders_to(other).contains(handle)
            &&& !after.data_recipients_for(other).contains(handle)
            &&& request_step(after, config, Some(handle), txn, msg, check, jsep) == (
                after,
                Seq::<ActionView>::empty(),
            )
        }),
{
    let after = board.without_session(handle);
    lemma_filter_has(board.occupants, occupant_other_than(handle));
    lemma_filter_has(board.feeds, feed_without(handle));
    lemma_not_an_occupant(after, handle, room_id);
    lemma_media_recipients(after, other, handle);
    lemma_media_senders(after, handle, other);
    if after.is_live(other) && after.sessions[other].join_state is Some {
        let place = after.sessions[other].join_state->0.room_id;
        lemma_not_an_occupant(after, handle, place);
        lemma_filter_has(after.occupants_of(place), after.reachable_from(other));
    }
}

/// A session that is not listed takes part in no room.
proof fn lemma_not_an_occupant(board: SwitchboardView, handle: u64, room_id: Seq<char>)
    requires
        forall|occupant: OccupantView| #[trigger]
            board.occupants.contains(occupant) ==> occupant.handle != handle,
    ensures
        !board.occupants_of(room_id).contains(handle),
{
    let kept = board.occupants.filter(in_room(room_id));
    lemma_filter_has(board.occupants, in_room(room_id));
    if board.occupants_of(room_id).contains(handle) {
        let i = board.occupants_of(room_id).index_of(handle);
        assert(kept.contains(kept[i]));
        assert(occupant_handle()(kept[i]) == handle);
    }
}

/// No handle is ever given out twice: a session that comes after another has ended gets another
/// handle than any before it.
pub proof fn law_handles_are_never_reused(board: SwitchboardView, handle: u64)
    requires
        board.consistent(),
        board.is_live(handle),
    ensures
        board.without_session(handle).next_handle != handle,
        board.without_session(handle).next_handle == board.next_handle,
{
    assert(board.is_live(handle));
}

/// While a user has another connection, nobody is told that the user has left.
pub proof fn law_only_the_last_connection_leaves(board: SwitchboardView, handle: u64, other: u64)
    requires
        board.is_live(handle),
        board.sessions[handle].join_state is Some,
        other != handle,
        board.is_live(other),
        board.sessions[other].is_user(board.sessions[handle].join_state->0.user_id),
    ensures
        leave_notices(board, handle) == Seq::<ActionView>::empty(),
{
    let after = board.without_session(handle);
    assert(after.is_live(other));
}

/// When a user's last connection goes, exactly those who are left in the room and want to be
/// notified are told, each once.
pub proof fn law_leaving_is_told_to_the_rest(board: SwitchboardView, handle: u64, other: u64)
    requires
        board.consistent(),
        board.is_live(handle),
        board.sessions[handle].join_state is Some,
        forall|session: u64| #[trigger]
            board.is_live(session) && session != handle ==> !board.sessions[session].is_user(
                board.sessions[handle].join_state->0.user_id,
            ),
    ensures
        leave_notices(board, handle).contains(
            ActionView::Notify {
                handle: other,
                event: EventView::Leave {
                    user_id: board.sessions[handle].join_state->0.user_id,
                    room_id: board.sessions[handle].join_state->0.room_id,
                },
            },
        ) <==> other != handle && board.occupants_of(
            board.sessions[handle].join_state->0.room_id,
        ).contains(other) && board.listens(Channel::Notifications, other),
        leave_notices(board, handle).no_duplicates(),
{
    lemma_leaving_is_told_once(board, handle);
    let joined = board.sessions[handle].join_state->0;
    let after = board.without_session(handle);
    assert(!after.is_connected(joined.user_id)) by {
        assert forall|session: u64| #[trigger] after.is_live(session) implies !(
        after.sessions[session].is_user(joined.user_id)) by {
            assert(board.is_live(session));
        }
    }
    lemma_notices(
        EventView::Leave { user_id: joined.user_id, room_id: joined.room_id },
        after.occupants_of(joined.room_id),
        after.listeners_except(Channel::Notifications, joined.user_id),
        other,
    );
    lemma_occupants_left(board, handle, joined.room_id, other);
    if board.is_live(other) && other != handle {
        assert(after.is_live(other));
    }
}

/// Who is left in a room when a session has gone.
pub proof fn lemma_occupants_left(board: SwitchboardView, handle: u64, room_id: Seq<char>, other: u64)
    ensures
        board.without_session(handle).occupants_of(room_id).contains(other) <==> other != handle
            && board.occupants_of(room_id).contains(other),
{
    let after = board.without_session(handle);
    let before_kept = board.occupants.filter(in_room(room_id));
    let after_kept = after.occupants.filter(in_room(room_id));
    lemma_filter_has(board.occupants, occupant_other_than(handle));
    lemma_filter_has(board.occupants, in_room(room_id));
    lemma_filter_has(after.occupants, in_room(room_id));
    let entry = OccupantView { room_id, handle: other };
    if after.occupants_of(room_id).contains(other) {
        let i = after.occupants_of(room_id).index_of(other);
        assert(after_kept.contains(after_kept[i]));
        assert(after_kept[i] == entry);
        assert(before_kept.contains(entry));
        let k = before_kept.index_of(entry);
        assert(board.occupants_of(room_id)[k] == other);
    }
    if other != handle && board.occupants_of(room_id).contains(other) {
        let i = board.occupants_of(room_id).index_of(other);
        assert(before_kept.contains(before_kept[i]));
        assert(before_kept[i] == entry);
        assert(after_kept.contains(entry));
        let k = after_kept.index_of(entry);
        assert(after.occupants_of(room_id)[k] == other);
    }
}

// Answers.

/// Whether an action answers a request.
pub open spec fn is_answer(action: ActionView) -> bool {
    action is Respond
}

/// Every request of a live session is answered exactly once, after everything else that it leads
/// to, to the session that sent it, and marked with its transaction.
pub proof fn law_requests_are_answered_once(
    board: SwitchboardView,
    config: Config,
    from: u64,
    txn: u64,
    msg: Option<Result<MessageKindView, Seq<char>>>,
    check: Option<TokenCheck>,
    jsep: Option<Result<JsepKindView, Seq<char>>>,
)
    requires
        board.is_live(from),
    ensures
        ({
            let actions = request_step(board, config, Some(from), txn, msg, check, jsep).1;
            &&& actions.len() > 0
            &&& actions.last() matches ActionView::Respond { handle, txn: mark, .. } && handle
                == from && mark == txn
            &&& forall|i: int| 0 <= i < actions.len() - 1 ==> !is_answer(#[trigger] actions[i])
        }),
{
    let (between, msg_result, first) = message_part(board, config, from, msg, check);
    let (after, jsep_result, second) = description_part(between, from, jsep);
    let actions = request_step(board, config, Some(from), txn, msg, check, jsep).1;
    assert forall|i: int| 0 <= i < actions.len() - 1 implies !is_answer(#[trigger] actions[i]) by {
        if i < first.len() {
            assert(actions[i] == first[i]);
        } else {
            assert(actions[i] == second[i - first.len()]);
        }
    }
}

/// A message that is refused, or that cannot be read, is answered with the reason and without a
/// session description, whatever the description in the request led to.
pub proof fn law_refusals_are_explained(
    reason: Seq<char>,
    jsep: Option<Result<JsepView, Seq<char>>>,
)
    ensures
        answer(Some(Err(reason)), jsep) == (
            ReplyView::Failure { msg: reason },
            JsepView::Empty,
        ),
{
}

/// A description that cannot be read is answered with the reason, unless the message failed too.
pub proof fn law_unreadable_descriptions_are_explained(
    msg: Option<Result<MessageResponseView, Seq<char>>>,
    reason: Seq<char>,
)
    requires
        !(msg matches Some(Err(_))),
    ensures
        answer(msg, Some(Err(reason))) == (ReplyView::Failure { msg: reason }, JsepView::Empty),
{
}

/// A request succeeds exactly if neither of its parts fails.
pub proof fn law_success_needs_both_parts(
    msg: Option<Result<MessageResponseView, Seq<char>>>,
    jsep: Option<Result<JsepView, Seq<char>>>,
)
    ensures
        answer(msg, jsep).0 is Success <==> !(msg matches Some(Err(_))) && !(jsep matches Some(
            Err(_),
        )),
{
}

/// Every reply says whether the request succeeded, and one that failed says why.
pub proof fn law_replies_tell_success(reply: ReplyView)
    ensures
        reply.tree() matches JsonTree::Object(fields) && fields.contains_key("success"@)
            && fields["success"@] == JsonTree::Bool(reply is Success),
        reply matches ReplyView::Failure { msg } ==> (reply.tree() matches JsonTree::Object(fields)
            && fields.contains_key("error"@) && fields["error"@] == JsonTree::Object(
            map!["msg"@ => JsonTree::Text(msg)],
        )),
{
    reveal_strlit("success");
    reveal_strlit("error");
    reveal_strlit("response");
    assert("success"@.len() != "error"@.len());
    assert("success"@.len() != "response"@.len());
}

} // verus!
