//! What requests and packets keep: the switchboard stays consistent, and nothing is ever asked of
//! the gateway for a session that is gone.
use crate::auth::TokenCheck;
use crate::config::Config;
use crate::delivery::{after_firs, firs, notice, notices, Channel};
use crate::invariants::{
    law_blocks_keep_consistency, law_feed_keeps_consistency, law_fir_keeps_consistency,
    law_join_keeps_consistency, law_occupancy_keeps_consistency, law_offer_keeps_consistency,
    law_subscription_keeps_consistency,
};
use crate::lifecycle::leave_notices;
use crate::media::{lemma_senders_are_live, rtcp_step};
use crate::messages::{JsepKindView, MessageKindView, SubscriptionView};
use crate::model::{feed_from, in_room, SwitchboardView};
use crate::outbound::EventView;
use crate::requests::{description_part, law_messages_keep_sessions, message_part, request_step};
use crate::seqs::lemma_filter_has;
use crate::signalling::{
    after_entering, ending, join_error, lemma_publisher_is_live, media_step, message_step,
};
use vstd::prelude::*;

verus! {

/// Starting the media that a session has just subscribed to leaves the switchboard consistent.
proof fn lemma_media_keeps_consistency(
    board: SwitchboardView,
    from: u64,
    subscription: SubscriptionView,
)
    requires
        board.consistent(),
        board.is_live(from),
        board.sessions[from].subscription == Some(subscription),
        forall|i: int|
            0 <= i < board.feeds.len() ==> (#[trigger] board.feeds[i]).subscriber != from,
    ensures
        media_step(board, from, subscription.media).0.consistent(),
{
    if subscription.media is Some && board.publisher_of(subscription.media->0) is Some {
        lemma_publisher_is_live(board, subscription.media->0);
        law_feed_keeps_consistency(board, board.publisher_of(subscription.media->0)->0, from);
    }
}

/// Every message leaves the switchboard consistent.
pub proof fn law_messages_keep_consistency(
    board: SwitchboardView,
    config: Config,
    from: u64,
    msg: MessageKindView,
    check: Option<TokenCheck>,
)
    requires
        board.consistent(),
        board.is_live(from),
    ensures
        message_step(board, config, from, msg, check).board.consistent(),
{
    if board.sessions[from].subscription is None {
        assert forall|i: int| 0 <= i < board.occupants.len() implies (
        #[trigger] board.occupants[i]).handle != from by {
            assert(board.occupant_in_order(board.occupants[i]));
        }
        assert forall|i: int| 0 <= i < board.feeds.len() implies (
        #[trigger] board.feeds[i]).subscriber != from by {
            assert(board.feed_in_order(board.feeds[i]));
        }
    }
    match msg {
        MessageKindView::Join { room_id, user_id, subscribe, token } => {
            if join_error(board, config, from, room_id, subscribe, token, check) is None {
                law_join_keeps_consistency(board, from, room_id, user_id);
                let joined = board.with_join(from, room_id, user_id);
                if subscribe is Some && board.sessions[from].subscription is None {
                    law_subscription_keeps_consistency(joined, from, subscribe->0);
                    let subscribed = joined.with_subscription(from, subscribe->0);
                    if subscribe->0.data {
                        law_occupancy_keeps_consistency(subscribed, from, room_id);
                    }
                    let entered = after_entering(board, from, room_id, user_id, subscribe->0);
                    lemma_media_keeps_consistency(entered, from, subscribe->0);
                }
            }
        },
        MessageKindView::Subscribe { what } => {
            if board.sessions[from].subscription is None {
                law_subscription_keeps_consistency(board, from, what);
                lemma_media_keeps_consistency(board.with_subscription(from, what), from, what);
            }
        },
        MessageKindView::Block { whom } => {
            law_blocks_keep_consistency(board, board.sessions[from].join_state->0.user_id, whom);
        },
        MessageKindView::Unblock { whom } => {
            let by = board.sessions[from].join_state->0.user_id;
            law_blocks_keep_consistency(board, by, whom);
            let lifted = board.without_block(by, whom);
            if lifted.publisher_of(whom) is Some {
                lemma_publisher_is_live(lifted, whom);
                law_fir_keeps_consistency(lifted, lifted.publisher_of(whom)->0);
            }
        },
        _ => {},
    }
}

/// Every request leaves the switchboard consistent, with the same sessions connected.
pub proof fn law_requests_keep_consistency(
    board: SwitchboardView,
    config: Config,
    from: Option<u64>,
    txn: u64,
    msg: Option<Result<MessageKindView, Seq<char>>>,
    check: Option<TokenCheck>,
    jsep: Option<Result<JsepKindView, Seq<char>>>,
)
    requires
        board.consistent(),
    ensures
        request_step(board, config, from, txn, msg, check, jsep).0.consistent(),
        request_step(board, config, from, txn, msg, check, jsep).0.connected == board.connected,
{
    if from is Some && board.is_live(from->0) {
        let handle = from->0;
        if let Some(Ok(kind)) = msg {
            law_messages_keep_consistency(board, config, handle, kind, check);
            law_messages_keep_sessions(board, config, handle, kind, check);
        }
        let between = message_part(board, config, handle, msg, check).0;
        assert(between.is_live(handle));
        if let Some(Ok(JsepKindView::Offer { answer, subscriber_offer })) = jsep {
            law_offer_keeps_consistency(between, handle, subscriber_offer);
        }
    }
}

/// Asking for full frames leaves the switchboard consistent.
proof fn lemma_firs_keep_consistency(board: SwitchboardView, handles: Seq<u64>)
    requires
        board.consistent(),
        forall|i: int| 0 <= i < handles.len() ==> board.is_live(#[trigger] handles[i]),
    ensures
        after_firs(board, handles).consistent(),
        forall|handle: u64| #[trigger]
            after_firs(board, handles).is_live(handle) <==> board.is_live(handle),
        forall|i: int|
            0 <= i < firs(board, handles).len() ==> board.is_live(
                (#[trigger] firs(board, handles)[i]).target(),
            ),
    decreases handles.len(),
{
    if handles.len() > 0 {
        let front = handles.drop_last();
        assert forall|i: int| 0 <= i < front.len() implies board.is_live(#[trigger] front[i]) by {
            assert(front[i] == handles[i]);
        }
        lemma_firs_keep_consistency(board, front);
        assert(board.is_live(handles[handles.len() - 1]));
        let before = after_firs(board, front);
        assert(before.is_live(handles.last()));
        law_fir_keeps_consistency(before, handles.last());
        assert forall|handle: u64| #[trigger]
            after_firs(board, handles).is_live(handle) <==> board.is_live(handle) by {
            assert(before.is_live(handle) <==> board.is_live(handle));
        }
        assert forall|i: int| 0 <= i < firs(board, handles).len() implies board.is_live(
            (#[trigger] firs(board, handles)[i]).target(),
        ) by {
            if i < firs(board, front).len() {
                assert(firs(board, handles)[i] == firs(board, front)[i]);
            }
        }
    }
}

/// Notices to listeners go to live sessions only.
proof fn lemma_notices_go_to_live_sessions(
    board: SwitchboardView,
    event: EventView,
    everyone: Seq<u64>,
    keep: spec_fn(u64) -> bool,
)
    requires
        forall|handle: u64| #[trigger] keep(handle) ==> board.is_live(handle),
    ensures
        forall|i: int|
            0 <= i < notices(event, everyone.filter(keep)).len() ==> board.is_live(
                (#[trigger] notices(event, everyone.filter(keep))[i]).target(),
            ),
{
    let kept = everyone.filter(keep);
    lemma_filter_has(everyone, keep);
    assert forall|i: int| 0 <= i < notices(event, kept).len() implies board.is_live(
        (#[trigger] notices(event, kept)[i]).target(),
    ) by {
        assert(notices(event, kept)[i] == notice(event)(kept[i]));
        assert(kept.contains(kept[i]));
        assert(keep(kept[i]));
    }
}

/// Whatever a message asks of the gateway, it asks for a live session.
pub proof fn law_messages_reach_live_sessions(
    board: SwitchboardView,
    config: Config,
    from: u64,
    msg: MessageKindView,
    check: Option<TokenCheck>,
)
    requires
        board.consistent(),
        board.is_live(from),
    ensures
        forall|i: int|
            0 <= i < message_step(board, config, from, msg, check).actions.len() ==> board.is_live(
                (#[trigger] message_step(board, config, from, msg, check).actions[i]).target(),
            ),
{
    let step = message_step(board, config, from, msg, check);
    match msg {
        MessageKindView::Join { room_id, user_id, subscribe, .. } => {
            if subscribe is Some {
                let entered = after_entering(board, from, room_id, user_id, subscribe->0);
                let keep = entered.listeners_except(
                    Channel::Notifications,
                    user_id,
                );
                assert forall|handle: u64| #[trigger] keep(handle) implies board.is_live(handle) by {
                    assert(entered.is_live(handle));
                }
                lemma_notices_go_to_live_sessions(
                    board,
                    EventView::Join { user_id, room_id },
                    entered.occupants_of(room_id),
                    keep,
                );
            }
        },
        MessageKindView::Kick { room_id, user_id, .. } => {
            let kept = board.sessions_of(room_id, user_id);
            lemma_filter_has(board.connected, board.joined_as(room_id, user_id));
            assert forall|i: int| 0 <= i < step.actions.len() implies board.is_live(
                (#[trigger] step.actions[i]).target(),
            ) by {
                assert(step.actions[i] == ending()(kept[i]));
                assert(kept.contains(kept[i]));
                assert(board.connected.contains(kept[i]));
                assert(board.is_live(kept[i]));
            }
        },
        MessageKindView::Subscribe { .. } => {},
        MessageKindView::Block { whom } => {
            let joined = board.sessions[from].join_state->0;
            lemma_notices_go_to_live_sessions(
                board,
                EventView::Blocked { by: joined.user_id },
                board.occupants_of(joined.room_id),
                board.listeners_of(Channel::Notifications, whom),
            );
        },
        MessageKindView::Unblock { whom } => {
            if board.sessions[from].join_state is Some {
                let joined = board.sessions[from].join_state->0;
                law_blocks_keep_consistency(board, joined.user_id, whom);
                let lifted = board.without_block(joined.user_id, whom);
                if lifted.publisher_of(whom) is Some {
                    lemma_publisher_is_live(lifted, whom);
                    assert(board.is_live(lifted.publisher_of(whom)->0));
                }
                let keep = step.board.listeners_of(Channel::Notifications, whom);
                assert forall|handle: u64| #[trigger] keep(handle) implies board.is_live(handle) by {
                    assert(step.board.is_live(handle));
                }
                lemma_notices_go_to_live_sessions(
                    board,
                    EventView::Unblocked { by: joined.user_id },
                    step.board.occupants_of(joined.room_id),
                    keep,
                );
            }
        },
        MessageKindView::Data { whom, body } => {
            let joined = board.sessions[from].join_state->0;
            lemma_notices_go_to_live_sessions(
                board,
                EventView::Data { body },
                board.occupants_of(joined.room_id),
                match whom {
                    Some(user_id) => board.listeners_of(Channel::Data, user_id),
                    None => board.listeners_except(
                        Channel::Data,
                        joined.user_id,
                    ),
                },
            );
        },
    }
}

/// Whatever a request asks of the gateway, it asks for a live session.
pub proof fn law_requests_reach_live_sessions(
    board: SwitchboardView,
    config: Config,
    from: Option<u64>,
    txn: u64,
    msg: Option<Result<MessageKindView, Seq<char>>>,
    check: Option<TokenCheck>,
    jsep: Option<Result<JsepKindView, Seq<char>>>,
)
    requires
        board.consistent(),
    ensures
        forall|i: int|
            0 <= i < request_step(board, config, from, txn, msg, check, jsep).1.len()
                ==> board.is_live(
                (#[trigger] request_step(board, config, from, txn, msg, check, jsep).1[i]).target(),
            ),
{
    if from is Some && board.is_live(from->0) {
        let handle = from->0;
        if let Some(Ok(kind)) = msg {
            law_messages_keep_consistency(board, config, handle, kind, check);
            law_messages_keep_sessions(board, config, handle, kind, check);
            law_messages_reach_live_sessions(board, config, handle, kind, check);
        }
        let (between, _, first) = message_part(board, config, handle, msg, check);
        let (_, _, second) = description_part(between, handle, jsep);
        let actions = request_step(board, config, from, txn, msg, check, jsep).1;
        let kept = between.feeds.filter(feed_from(handle));
        lemma_filter_has(between.feeds, feed_from(handle));
        assert forall|i: int| 0 <= i < actions.len() implies board.is_live(
            (#[trigger] actions[i]).target(),
        ) by {
            if i < first.len() {
                assert(actions[i] == first[i]);
            } else if i < first.len() + second.len() {
                let k = i - first.len();
                assert(actions[i] == second[k]);
                assert(kept.contains(kept[k]));
                let feed = between.feeds.index_of(kept[k]);
                assert(between.feed_in_order(between.feeds[feed]));
                assert(between.is_live(kept[k].subscriber));
            }
        }
    }
}

/// Packets are passed on to live sessions only, and full frames are asked of live sessions only.
pub proof fn law_packets_reach_live_sessions(
    board: SwitchboardView,
    handle: u64,
    video: i32,
    has_pli: bool,
    has_fir: bool,
)
    requires
        board.consistent(),
    ensures
        forall|i: int|
            0 <= i < board.media_recipients_for(handle).len() ==> board.is_live(
                #[trigger] board.media_recipients_for(handle)[i],
            ),
        forall|i: int|
            0 <= i < board.data_recipients_for(handle).len() ==> board.is_live(
                #[trigger] board.data_recipients_for(handle)[i],
            ),
        forall|i: int|
            0 <= i < rtcp_step(board, handle, video, has_pli, has_fir).1.len() ==> board.is_live(
                (#[trigger] rtcp_step(board, handle, video, has_pli, has_fir).1[i]).target(),
            ),
        rtcp_step(board, handle, video, has_pli, has_fir).0.consistent(),
{
    let kept = board.feeds.filter(board.open_feed_from(handle));
    lemma_filter_has(board.feeds, board.open_feed_from(handle));
    assert forall|i: int| 0 <= i < board.media_recipients_for(handle).len() implies board.is_live(
        #[trigger] board.media_recipients_for(handle)[i],
    ) by {
        assert(kept.contains(kept[i]));
        let k = board.feeds.index_of(kept[i]);
        assert(board.feed_in_order(board.feeds[k]));
    }
    if board.is_live(handle) && board.sessions[handle].join_state is Some {
        let room_id = board.sessions[handle].join_state->0.room_id;
        let occupants = board.occupants_of(room_id);
        let entries = board.occupants.filter(in_room(room_id));
        let reached = board.data_recipients_for(handle);
        lemma_filter_has(board.occupants, in_room(room_id));
        lemma_filter_has(occupants, board.reachable_from(handle));
        assert forall|i: int| 0 <= i < reached.len() implies board.is_live(
            #[trigger] reached[i],
        ) by {
            assert(reached.contains(reached[i]));
            let k = occupants.index_of(reached[i]);
            assert(entries.contains(entries[k]));
            let j = board.occupants.index_of(entries[k]);
            assert(board.occupant_in_order(board.occupants[j]));
        }
    }
    lemma_senders_are_live(board, handle);
    lemma_firs_keep_consistency(board, board.media_senders_to(handle));
}

/// When a session ends, only sessions that are left are told.
pub proof fn law_leave_notices_reach_live_sessions(board: SwitchboardView, handle: u64)
    ensures
        forall|i: int|
            0 <= i < leave_notices(board, handle).len() ==> board.without_session(handle).is_live(
                (#[trigger] leave_notices(board, handle)[i]).target(),
            ),
{
    let after = board.without_session(handle);
    if board.is_live(handle) && board.sessions[handle].join_state is Some {
        let joined = board.sessions[handle].join_state->0;
        lemma_notices_go_to_live_sessions(
            after,
            EventView::Leave { user_id: joined.user_id, room_id: joined.room_id },
            after.occupants_of(joined.room_id),
            after.listeners_except(Channel::Notifications, joined.user_id),
        );
    }
}

} // verus!
