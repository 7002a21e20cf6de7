//! What each operation is for, said of the sessions, occupants, feeds and blocks themselves.
use crate::delivery::{after_firs, fir, firs, notice, notices, pli, Channel};
use crate::invariants::{
    law_blocks_keep_consistency, law_fir_keeps_consistency, law_removal_keeps_consistency,
};
use crate::laws::{
    law_packets_go_once, lemma_distinct, lemma_feeds_once, lemma_media_recipients,
    lemma_media_senders, lemma_notices_once, lemma_occupants_left, lemma_occupants_once,
    lemma_one_sender,
};
use crate::lifecycle::leave_notices;
use crate::media::{data_to, lemma_senders_are_live, rtcp_step, rtcp_to, rtp_to};
use crate::messages::SubscriptionView;
use crate::model::{
    feed_from, feed_without, in_room, occupant_handle, occupant_other_than, other_than, Feed,
    OccupantView, SwitchboardView,
};
use crate::outbound::{ActionView, EventView};
use crate::seqs::{
    lemma_filter_distinct, lemma_filter_first, lemma_filter_has, lemma_filter_twice,
};
use crate::sessions::{JoinStateView, SessionView};
use crate::signalling::{block_step, lemma_one_fir, lemma_publisher_is_live, unblock_step};
use vstd::prelude::*;

verus! {

// Rooms, users and publishers.

/// A session is among the occupants of a room exactly if the list of occupants names it there, and
/// is among them once.
pub proof fn law_rooms_hold_whom_the_list_names(
    board: SwitchboardView,
    room_id: Seq<char>,
    handle: u64,
)
    requires
        board.consistent(),
    ensures
        board.occupants_of(room_id).contains(handle) <==> board.occupants.contains(
            OccupantView { room_id, handle },
        ),
        board.occupants_of(room_id).no_duplicates(),
{
    lemma_occupant(board, room_id, handle);
    lemma_occupants_once(board, room_id);
}

/// Likewise, whether or not the switchboard is consistent.
pub proof fn lemma_occupant(board: SwitchboardView, room_id: Seq<char>, handle: u64)
    ensures
        board.occupants_of(room_id).contains(handle) <==> board.occupants.contains(
            OccupantView { room_id, handle },
        ),
{
    let kept = board.occupants.filter(in_room(room_id));
    let entry = OccupantView { room_id, handle };
    lemma_filter_has(board.occupants, in_room(room_id));
    if board.occupants_of(room_id).contains(handle) {
        let i = board.occupants_of(room_id).index_of(handle);
        assert(kept.contains(kept[i]));
        assert(occupant_handle()(kept[i]) == handle);
        assert(kept[i] == entry);
    }
    if board.occupants.contains(entry) {
        assert(kept.contains(entry));
        let i = kept.index_of(entry);
        assert(board.occupants_of(room_id)[i] == handle);
    }
}

/// The users of a room are exactly those as whom some session has joined that the list of
/// occupants names there. Nobody is missing, and nobody is named twice.
pub proof fn law_users_are_those_of_the_occupants(
    board: SwitchboardView,
    room_id: Seq<char>,
    user_id: Seq<char>,
)
    requires
        board.consistent(),
    ensures
        board.users_of(room_id).contains(user_id) <==> exists|handle: u64|
            #![trigger board.sessions[handle]]
            board.occupants.contains(OccupantView { room_id, handle })
                && board.sessions[handle].join_state == Some(JoinStateView { room_id, user_id }),
        board.users_of(room_id).no_duplicates(),
{
    let occupants = board.occupants_of(room_id);
    let names = occupants.map_values(board.user_id_of());
    lemma_distinct(names);
    assert(board.users_of(room_id).contains(user_id) <==> names.contains(user_id));
    if names.contains(user_id) {
        let i = names.index_of(user_id);
        let handle = occupants[i];
        assert(occupants.contains(handle));
        lemma_occupant(board, room_id, handle);
        let k = board.occupants.index_of(OccupantView { room_id, handle });
        assert(board.occupant_in_order(board.occupants[k]));
        assert(board.sessions[handle].join_state == Some(JoinStateView { room_id, user_id }));
    }
    if exists|handle: u64|
        #![trigger board.sessions[handle]]
        board.occupants.contains(OccupantView { room_id, handle })
            && board.sessions[handle].join_state == Some(JoinStateView { room_id, user_id }) {
        let handle = choose|handle: u64|
            #![trigger board.sessions[handle]]
            board.occupants.contains(OccupantView { room_id, handle })
                && board.sessions[handle].join_state == Some(JoinStateView { room_id, user_id });
        lemma_occupant(board, room_id, handle);
        let i = occupants.index_of(handle);
        assert(names[i] == user_id);
    }
}

/// A user is connected exactly if some session has joined as that user.
pub proof fn law_users_are_connected_through_sessions(board: SwitchboardView, user_id: Seq<char>)
    ensures
        board.is_connected(user_id) <==> exists|handle: u64| #[trigger]
            board.sessions.contains_key(handle) && board.sessions[handle].join_state is Some
                && board.sessions[handle].join_state->0.user_id == user_id,
{
    if board.is_connected(user_id) {
        let handle = choose|handle: u64| #[trigger]
            board.is_live(handle) && board.sessions[handle].is_user(user_id);
        assert(board.sessions.contains_key(handle));
    }
    if exists|handle: u64| #[trigger]
        board.sessions.contains_key(handle) && board.sessions[handle].join_state is Some
            && board.sessions[handle].join_state->0.user_id == user_id {
        let handle = choose|handle: u64| #[trigger]
            board.sessions.contains_key(handle) && board.sessions[handle].join_state is Some
                && board.sessions[handle].join_state->0.user_id == user_id;
        assert(board.is_live(handle));
    }
}

/// The publisher of a user is the first session to have connected of those that have joined as the
/// user and have something to offer; there is none exactly if there is no such session.
pub proof fn law_publishers_are_first(board: SwitchboardView, user_id: Seq<char>)
    ensures
        match board.publisher_of(user_id) {
            Some(publisher) => exists|i: int|
                0 <= i < board.connected.len() && #[trigger] board.connected[i] == publisher
                    && board.sessions[publisher].join_state is Some
                    && board.sessions[publisher].join_state->0.user_id == user_id
                    && board.sessions[publisher].subscriber_offer is Some && forall|k: int|
                    0 <= k < i ==> !(board.sessions[#[trigger] board.connected[k]].join_state is Some
                        && board.sessions[board.connected[k]].join_state->0.user_id == user_id
                        && board.sessions[board.connected[k]].subscriber_offer is Some),
            None => forall|k: int|
                0 <= k < board.connected.len() ==> !(
                board.sessions[#[trigger] board.connected[k]].join_state is Some
                    && board.sessions[board.connected[k]].join_state->0.user_id == user_id
                    && board.sessions[board.connected[k]].subscriber_offer is Some),
        },
{
    let keep = board.publishing(user_id);
    lemma_filter_first(board.connected, keep);
    if board.connected.filter(keep).len() > 0 {
        let i = choose|i: int|
            0 <= i < board.connected.len() && keep(#[trigger] board.connected[i])
                && board.connected.filter(keep)[0] == board.connected[i] && forall|k: int|
                0 <= k < i ==> !keep(#[trigger] board.connected[k]);
        assert forall|k: int| 0 <= k < i implies !(
        board.sessions[#[trigger] board.connected[k]].join_state is Some
            && board.sessions[board.connected[k]].join_state->0.user_id == user_id
            && board.sessions[board.connected[k]].subscriber_offer is Some) by {
            assert(!keep(board.connected[k]));
        }
        assert(board.connected[i] == board.publisher_of(user_id)->0);
    } else {
        assert forall|k: int| 0 <= k < board.connected.len() implies !(
        board.sessions[#[trigger] board.connected[k]].join_state is Some
            && board.sessions[board.connected[k]].join_state->0.user_id == user_id
            && board.sessions[board.connected[k]].subscriber_offer is Some) by {
            assert(!keep(board.connected[k]));
        }
    }
}

/// The sessions of a user in a room are exactly those that have joined that room as that user, each
/// once.
pub proof fn law_sessions_are_found_by_place(
    board: SwitchboardView,
    room_id: Seq<char>,
    user_id: Seq<char>,
    handle: u64,
)
    requires
        board.consistent(),
    ensures
        board.sessions_of(room_id, user_id).contains(handle) <==> board.sessions.contains_key(handle)
            && board.sessions[handle].join_state == Some(JoinStateView { room_id, user_id }),
        board.sessions_of(room_id, user_id).no_duplicates(),
{
    lemma_filter_has(board.connected, board.joined_as(room_id, user_id));
    lemma_filter_distinct(board.connected, board.joined_as(room_id, user_id));
    assert(board.is_live(handle) <==> board.connected.contains(handle));
    assert(board.sessions_of(room_id, user_id).contains(handle) <==> board.connected.contains(handle)
        && board.joined_as(room_id, user_id)(handle));
}

/// The subscribers of a session are exactly those at the other end of its feeds, each once.
pub proof fn law_subscribers_are_those_of_the_feeds(
    board: SwitchboardView,
    publisher: u64,
    subscriber: u64,
)
    requires
        board.consistent(),
    ensures
        board.subscribers_to(publisher).contains(subscriber) <==> board.feeds.contains(
            Feed { publisher, subscriber },
        ),
        board.subscribers_to(publisher).no_duplicates(),
{
    lemma_subscriber(board, publisher, subscriber);
    lemma_feeds_once(board, feed_from(publisher));
}

/// Likewise, whether or not the switchboard is consistent.
pub proof fn lemma_subscriber(board: SwitchboardView, publisher: u64, subscriber: u64)
    ensures
        board.subscribers_to(publisher).contains(subscriber) <==> board.feeds.contains(
            Feed { publisher, subscriber },
        ),
{
    let kept = board.feeds.filter(feed_from(publisher));
    let feed = Feed { publisher, subscriber };
    lemma_filter_has(board.feeds, feed_from(publisher));
    if board.subscribers_to(publisher).contains(subscriber) {
        let i = board.subscribers_to(publisher).index_of(subscriber);
        assert(kept.contains(kept[i]));
        assert(kept[i] == feed);
    }
    if board.feeds.contains(feed) {
        assert(kept.contains(feed));
        let i = kept.index_of(feed);
        assert(board.subscribers_to(publisher)[i] == subscriber);
    }
}

// Notices.

/// Who is told of an event, as actions.
pub proof fn lemma_told(
    event: EventView,
    everyone: Seq<u64>,
    keep: spec_fn(u64) -> bool,
    action: ActionView,
)
    ensures
        notices(event, everyone.filter(keep)).contains(action) <==> (action matches
            ActionView::Notify { handle, event: told } && told == event && everyone.contains(handle)
            && keep(handle)),
{
    let kept = everyone.filter(keep);
    let all = notices(event, kept);
    lemma_filter_has(everyone, keep);
    if all.contains(action) {
        let i = all.index_of(action);
        assert(all[i] == notice(event)(kept[i]));
        assert(kept.contains(kept[i]));
    }
    if let ActionView::Notify { handle, event: told } = action {
        if told == event && everyone.contains(handle) && keep(handle) {
            assert(kept.contains(handle));
            let i = kept.index_of(handle);
            assert(all[i] == action);
        }
    }
}

/// Of a list of sessions, data for a user goes to those that have joined as the user and receive
/// data, and data from a user to those that have joined as another and receive data. Notices go
/// likewise to those that want them. The list keeps its order, and its repetitions.
pub proof fn law_audiences_are_picked_by_user_and_subscription(
    board: SwitchboardView,
    event: EventView,
    user_id: Seq<char>,
    everyone: Seq<u64>,
)
    ensures
        notices(event, everyone.filter(board.listeners_of(Channel::Data, user_id)))
            == everyone.filter(
            |handle: u64|
                board.sessions.contains_key(handle) && board.sessions[handle].join_state is Some
                    && board.sessions[handle].subscription is Some
                    && board.sessions[handle].subscription->0.data
                    && board.sessions[handle].join_state->0.user_id == user_id,
        ).map_values(|handle: u64| ActionView::Notify { handle, event }),
        notices(event, everyone.filter(board.listeners_except(Channel::Data, user_id)))
            == everyone.filter(
            |handle: u64|
                board.sessions.contains_key(handle) && board.sessions[handle].join_state is Some
                    && board.sessions[handle].subscription is Some
                    && board.sessions[handle].subscription->0.data
                    && board.sessions[handle].join_state->0.user_id != user_id,
        ).map_values(|handle: u64| ActionView::Notify { handle, event }),
        notices(event, everyone.filter(board.listeners_of(Channel::Notifications, user_id)))
            == everyone.filter(
            |handle: u64|
                board.sessions.contains_key(handle) && board.sessions[handle].join_state is Some
                    && board.sessions[handle].subscription is Some
                    && board.sessions[handle].subscription->0.notifications
                    && board.sessions[handle].join_state->0.user_id == user_id,
        ).map_values(|handle: u64| ActionView::Notify { handle, event }),
        notices(event, everyone.filter(board.listeners_except(Channel::Notifications, user_id)))
            == everyone.filter(
            |handle: u64|
                board.sessions.contains_key(handle) && board.sessions[handle].join_state is Some
                    && board.sessions[handle].subscription is Some
                    && board.sessions[handle].subscription->0.notifications
                    && board.sessions[handle].join_state->0.user_id != user_id,
        ).map_values(|handle: u64| ActionView::Notify { handle, event }),
{
    assert(board.listeners_of(Channel::Data, user_id) =~= (|handle: u64|
        board.sessions.contains_key(handle) && board.sessions[handle].join_state is Some
            && board.sessions[handle].subscription is Some
            && board.sessions[handle].subscription->0.data
            && board.sessions[handle].join_state->0.user_id == user_id));
    assert(board.listeners_except(Channel::Data, user_id) =~= (|handle: u64|
        board.sessions.contains_key(handle) && board.sessions[handle].join_state is Some
            && board.sessions[handle].subscription is Some
            && board.sessions[handle].subscription->0.data
            && board.sessions[handle].join_state->0.user_id != user_id));
    assert(board.listeners_of(Channel::Notifications, user_id) =~= (|handle: u64|
        board.sessions.contains_key(handle) && board.sessions[handle].join_state is Some
            && board.sessions[handle].subscription is Some
            && board.sessions[handle].subscription->0.notifications
            && board.sessions[handle].join_state->0.user_id == user_id));
    assert(board.listeners_except(Channel::Notifications, user_id) =~= (|handle: u64|
        board.sessions.contains_key(handle) && board.sessions[handle].join_state is Some
            && board.sessions[handle].subscription is Some
            && board.sessions[handle].subscription->0.notifications
            && board.sessions[handle].join_state->0.user_id != user_id));
    assert(notice(event) =~= (|handle: u64| ActionView::Notify { handle, event }));
}

// Packets.

/// A media packet passes from a session to another exactly if the other receives its feed and the
/// blocks hold neither pair of their users; it passes once, and so it is of every kind of stream.
/// Whoever has not joined belongs to no user, and is not blocked.
pub proof fn law_media_passes_unless_the_two_are_blocked(
    board: SwitchboardView,
    publisher: u64,
    video: i32,
    action: ActionView,
)
    requires
        board.consistent(),
    ensures
        board.media_recipients_for(publisher).map_values(rtp_to(video)).contains(action) <==> (
        action matches ActionView::RelayRtp { handle: subscriber, video: kind } && kind == video
            && board.feeds.contains(Feed { publisher, subscriber }) && !(
        board.sessions[publisher].join_state is Some && board.sessions[subscriber].join_state is Some
            && (board.blocks.contains(
            (
                board.sessions[publisher].join_state->0.user_id,
                board.sessions[subscriber].join_state->0.user_id,
            ),
        ) || board.blocks.contains(
            (
                board.sessions[subscriber].join_state->0.user_id,
                board.sessions[publisher].join_state->0.user_id,
            ),
        )))),
        board.media_recipients_for(publisher).map_values(rtp_to(video)).no_duplicates(),
{
    law_packets_go_once(board, publisher, video, false, false);
    let recipients = board.media_recipients_for(publisher);
    let relayed = recipients.map_values(rtp_to(video));
    lemma_recipient(board, publisher, action.target());
    if relayed.contains(action) {
        let i = relayed.index_of(action);
        assert(relayed[i] == rtp_to(video)(recipients[i]));
        assert(recipients.contains(recipients[i]));
    }
    if recipients.contains(action.target()) {
        let i = recipients.index_of(action.target());
        assert(relayed[i] == rtp_to(video)(action.target()));
    }
}

/// Who receives the media of a session, said of the feeds and the blocks.
proof fn lemma_recipient(board: SwitchboardView, publisher: u64, subscriber: u64)
    requires
        board.consistent(),
    ensures
        board.media_recipients_for(publisher).contains(subscriber) <==> board.feeds.contains(
            Feed { publisher, subscriber },
        ) && !(board.sessions[publisher].join_state is Some
            && board.sessions[subscriber].join_state is Some && (board.blocks.contains(
            (
                board.sessions[publisher].join_state->0.user_id,
                board.sessions[subscriber].join_state->0.user_id,
            ),
        ) || board.blocks.contains(
            (
                board.sessions[subscriber].join_state->0.user_id,
                board.sessions[publisher].join_state->0.user_id,
            ),
        ))),
        board.media_senders_to(subscriber).contains(publisher) <==> board.feeds.contains(
            Feed { publisher, subscriber },
        ) && !(board.sessions[publisher].join_state is Some
            && board.sessions[subscriber].join_state is Some && (board.blocks.contains(
            (
                board.sessions[publisher].join_state->0.user_id,
                board.sessions[subscriber].join_state->0.user_id,
            ),
        ) || board.blocks.contains(
            (
                board.sessions[subscriber].join_state->0.user_id,
                board.sessions[publisher].join_state->0.user_id,
            ),
        ))),
{
    lemma_media_recipients(board, publisher, subscriber);
    lemma_media_senders(board, publisher, subscriber);
    let feed = Feed { publisher, subscriber };
    if board.feeds.contains(feed) {
        let k = board.feeds.index_of(feed);
        assert(board.feed_in_order(board.feeds[k]));
    }
}

/// Data passes from a session to another exactly if both have joined the same room, the other takes
/// part in it, and the blocks hold neither pair of their users; it passes once, and never back.
pub proof fn law_data_passes_unless_the_two_are_blocked(
    board: SwitchboardView,
    sender: u64,
    action: ActionView,
)
    requires
        board.consistent(),
        board.is_live(sender),
    ensures
        board.data_recipients_for(sender).map_values(data_to()).contains(action) <==> (action matches
            ActionView::RelayData { handle: receiver } && receiver != sender
            && board.sessions[sender].join_state is Some && board.occupants.contains(
            OccupantView {
                room_id: board.sessions[sender].join_state->0.room_id,
                handle: receiver,
            },
        ) && !board.blocks.contains(
            (
                board.sessions[sender].join_state->0.user_id,
                board.sessions[receiver].join_state->0.user_id,
            ),
        ) && !board.blocks.contains(
            (
                board.sessions[receiver].join_state->0.user_id,
                board.sessions[sender].join_state->0.user_id,
            ),
        )),
        board.data_recipients_for(sender).map_values(data_to()).no_duplicates(),
{
    law_packets_go_once(board, sender, 0, false, false);
    let recipients = board.data_recipients_for(sender);
    let relayed = recipients.map_values(data_to());
    let receiver = action.target();
    lemma_data_recipient(board, sender, receiver);
    if relayed.contains(action) {
        let i = relayed.index_of(action);
        assert(relayed[i] == data_to()(recipients[i]));
        assert(recipients.contains(recipients[i]));
    }
    if recipients.contains(receiver) {
        let i = recipients.index_of(receiver);
        assert(relayed[i] == data_to()(receiver));
    }
}

/// Nothing passes from a session that is not there.
pub proof fn law_nothing_passes_from_nowhere(board: SwitchboardView, handle: u64)
    requires
        board.consistent(),
        !board.sessions.contains_key(handle),
    ensures
        board.media_recipients_for(handle).len() == 0,
        board.media_senders_to(handle).len() == 0,
        board.data_recipients_for(handle).len() == 0,
        board.subscribers_to(handle).len() == 0,
{
    let open = board.feeds.filter(board.open_feed_from(handle));
    let coming = board.feeds.filter(board.open_feed_to(handle));
    let all = board.feeds.filter(feed_from(handle));
    lemma_filter_has(board.feeds, board.open_feed_from(handle));
    lemma_filter_has(board.feeds, board.open_feed_to(handle));
    lemma_filter_has(board.feeds, feed_from(handle));
    if open.len() > 0 {
        assert(open.contains(open[0]));
        let k = board.feeds.index_of(open[0]);
        assert(board.feed_in_order(board.feeds[k]));
    }
    if coming.len() > 0 {
        assert(coming.contains(coming[0]));
        let k = board.feeds.index_of(coming[0]);
        assert(board.feed_in_order(board.feeds[k]));
    }
    if all.len() > 0 {
        assert(all.contains(all[0]));
        let k = board.feeds.index_of(all[0]);
        assert(board.feed_in_order(board.feeds[k]));
    }
}

/// Who receives the data of a session, said of the occupants and the blocks.
proof fn lemma_data_recipient(board: SwitchboardView, sender: u64, receiver: u64)
    requires
        board.consistent(),
        board.is_live(sender),
    ensures
        board.data_recipients_for(sender).contains(receiver) <==> receiver != sender
            && board.sessions[sender].join_state is Some && board.occupants.contains(
            OccupantView {
                room_id: board.sessions[sender].join_state->0.room_id,
                handle: receiver,
            },
        ) && !board.blocks.contains(
            (
                board.sessions[sender].join_state->0.user_id,
                board.sessions[receiver].join_state->0.user_id,
            ),
        ) && !board.blocks.contains(
            (
                board.sessions[receiver].join_state->0.user_id,
                board.sessions[sender].join_state->0.user_id,
            ),
        ),
{
    if board.sessions[sender].join_state is Some {
        let room_id = board.sessions[sender].join_state->0.room_id;
        let entry = OccupantView { room_id, handle: receiver };
        lemma_occupant(board, room_id, receiver);
        lemma_filter_has(board.occupants_of(room_id), board.reachable_from(sender));
        if board.occupants.contains(entry) {
            let k = board.occupants.index_of(entry);
            assert(board.occupant_in_order(board.occupants[k]));
        }
        assert(board.data_recipients_for(sender).contains(receiver) <==> board.occupants_of(
            room_id,
        ).contains(receiver) && board.reachable_from(sender)(receiver));
    }
}

/// Blocking cuts off nobody but the two: between any two sessions that have not joined as the
/// blocking and the blocked user, whichever is which, media and data pass as they did before.
pub proof fn law_blocking_cuts_off_only_the_two(
    board: SwitchboardView,
    from: u64,
    whom: Seq<char>,
    one: u64,
    other: u64,
)
    requires
        board.consistent(),
        board.is_live(from),
        board.is_live(one),
        board.sessions[from].join_state is Some,
        ({
            let me = board.sessions[from].join_state->0.user_id;
            let first = board.sessions[one].join_state;
            let second = board.sessions[other].join_state;
            !(first is Some && second is Some && (first->0.user_id == me && second->0.user_id == whom
                || first->0.user_id == whom && second->0.user_id == me))
        }),
    ensures
        ({
            let after = block_step(board, from, whom).board;
            &&& after.media_recipients_for(one).contains(other) <==> board.media_recipients_for(
                one,
            ).contains(other)
            &&& after.media_senders_to(one).contains(other) <==> board.media_senders_to(
                one,
            ).contains(other)
            &&& after.data_recipients_for(one).contains(other) <==> board.data_recipients_for(
                one,
            ).contains(other)
        }),
{
    let me = board.sessions[from].join_state->0.user_id;
    let after = block_step(board, from, whom).board;
    law_blocks_keep_consistency(board, me, whom);
    lemma_recipient(board, one, other);
    lemma_recipient(after, one, other);
    lemma_recipient(board, other, one);
    lemma_recipient(after, other, one);
    lemma_data_recipient(board, one, other);
    lemma_data_recipient(after, one, other);
    if board.sessions[one].join_state is Some {
        let entry = OccupantView {
            room_id: board.sessions[one].join_state->0.room_id,
            handle: other,
        };
        if board.occupants.contains(entry) {
            let k = board.occupants.index_of(entry);
            assert(board.occupant_in_order(board.occupants[k]));
        }
    }
}

/// Unblocking opens the way for nobody but the two, likewise.
pub proof fn law_unblocking_opens_only_for_the_two(
    board: SwitchboardView,
    from: u64,
    whom: Seq<char>,
    one: u64,
    other: u64,
)
    requires
        board.consistent(),
        board.is_live(from),
        board.is_live(one),
        board.sessions[from].join_state is Some,
        ({
            let me = board.sessions[from].join_state->0.user_id;
            let first = board.sessions[one].join_state;
            let second = board.sessions[other].join_state;
            !(first is Some && second is Some && (first->0.user_id == me && second->0.user_id == whom
                || first->0.user_id == whom && second->0.user_id == me))
        }),
    ensures
        ({
            let after = unblock_step(board, from, whom).board;
            &&& after.media_recipients_for(one).contains(other) <==> board.media_recipients_for(
                one,
            ).contains(other)
            &&& after.data_recipients_for(one).contains(other) <==> board.data_recipients_for(
                one,
            ).contains(other)
        }),
{
    let me = board.sessions[from].join_state->0.user_id;
    let lifted = board.without_block(me, whom);
    let after = unblock_step(board, from, whom).board;
    law_blocks_keep_consistency(board, me, whom);
    if lifted.publisher_of(whom) is Some {
        lemma_publisher_is_live(lifted, whom);
        law_fir_keeps_consistency(lifted, lifted.publisher_of(whom)->0);
    }
    lemma_recipient(board, one, other);
    lemma_recipient(after, one, other);
    lemma_data_recipient(board, one, other);
    lemma_data_recipient(after, one, other);
    if board.sessions[one].join_state is Some {
        let entry = OccupantView {
            room_id: board.sessions[one].join_state->0.room_id,
            handle: other,
        };
        if board.occupants.contains(entry) {
            let k = board.occupants.index_of(entry);
            assert(board.occupant_in_order(board.occupants[k]));
        }
    }
}

/// What is asked of the one session, if any, whose media a session receives.
proof fn lemma_asked_for_frames(board: SwitchboardView, handle: u64, action: ActionView)
    requires
        board.consistent(),
    ensures
        firs(board, board.media_senders_to(handle)).contains(action) <==> (action matches
            ActionView::Fir { handle: publisher, seq } && board.media_senders_to(handle).contains(
            publisher,
        ) && seq == board.sessions[publisher].fir_seq as i32),
        firs(board, board.media_senders_to(handle)).len() <= 1,
        forall|other: u64| #[trigger]
            after_firs(board, board.media_senders_to(handle)).sessions.contains_key(other)
                <==> board.sessions.contains_key(other),
        forall|other: u64|
            board.sessions.contains_key(other) ==> #[trigger] after_firs(
                board,
                board.media_senders_to(handle),
            ).sessions[other] == if board.media_senders_to(handle).contains(other) {
                SessionView {
                    fir_seq: if board.sessions[other].fir_seq == isize::MAX {
                        isize::MIN
                    } else {
                        (board.sessions[other].fir_seq + 1) as isize
                    },
                    ..board.sessions[other]
                }
            } else {
                board.sessions[other]
            },
        after_firs(board, board.media_senders_to(handle)) == (SwitchboardView {
            sessions: after_firs(board, board.media_senders_to(handle)).sessions,
            ..board
        }),
{
    let senders = board.media_senders_to(handle);
    lemma_one_sender(board, handle);
    lemma_senders_are_live(board, handle);
    if senders.len() == 1 {
        let publisher = senders[0];
        assert(senders =~= seq![publisher]);
        lemma_one_fir(board, publisher);
        let asked = firs(board, senders);
        assert(asked.len() == 1 && asked[0] == fir(board, publisher));
        assert(asked.contains(asked[0]));
        assert(senders.contains(publisher));
        assert(board.is_live(publisher));
        if let ActionView::Fir { handle: asked_of, seq } = action {
            if senders.contains(asked_of) {
                assert(asked_of == publisher);
            }
        }
        assert forall|other: u64| senders.contains(other) implies other == publisher by {}
    } else {
        assert(senders =~= Seq::<u64>::empty());
    }
}

/// When media can reach a session, a full frame is asked of exactly those whose feed it receives
/// and who are not cut off from it by a block, each from its current number, which then counts up
/// by one and wraps. Nothing else is asked, and nothing else changes.
pub proof fn law_new_connections_ask_for_frames(
    board: SwitchboardView,
    subscriber: u64,
    action: ActionView,
    other: u64,
)
    requires
        board.consistent(),
    ensures
        ({
            let senders = board.media_senders_to(subscriber);
            let after = after_firs(board, senders);
            &&& firs(board, senders).contains(action) <==> (action matches ActionView::Fir {
                handle: publisher,
                seq,
            } && seq == board.sessions[publisher].fir_seq as i32 && board.feeds.contains(
                Feed { publisher, subscriber },
            ) && !(board.sessions[publisher].join_state is Some
                && board.sessions[subscriber].join_state is Some && (board.blocks.contains(
                (
                    board.sessions[publisher].join_state->0.user_id,
                    board.sessions[subscriber].join_state->0.user_id,
                ),
            ) || board.blocks.contains(
                (
                    board.sessions[subscriber].join_state->0.user_id,
                    board.sessions[publisher].join_state->0.user_id,
                ),
            ))))
            &&& firs(board, senders).no_duplicates()
            &&& after.sessions.contains_key(other) <==> board.sessions.contains_key(other)
            &&& board.sessions.contains_key(other) ==> after.sessions[other] == (SessionView {
                fir_seq: after.sessions[other].fir_seq,
                ..board.sessions[other]
            })
            &&& board.sessions.contains_key(other) ==> after.sessions[other].fir_seq
                == if firs(board, senders).contains(
                ActionView::Fir { handle: other, seq: board.sessions[other].fir_seq as i32 },
            ) {
                if board.sessions[other].fir_seq == isize::MAX {
                    isize::MIN
                } else {
                    (board.sessions[other].fir_seq + 1) as isize
                }
            } else {
                board.sessions[other].fir_seq
            }
            &&& after.connected == board.connected
            &&& after.occupants == board.occupants
            &&& after.feeds == board.feeds
            &&& after.blocks == board.blocks
            &&& after.next_handle == board.next_handle
        }),
{
    lemma_asked_for_frames(board, subscriber, action);
    lemma_asked_for_frames(
        board,
        subscriber,
        ActionView::Fir { handle: other, seq: board.sessions[other].fir_seq as i32 },
    );
    lemma_recipient(board, action.target(), subscriber);
}

/// What becomes of a control packet. One on the video stream that holds a picture loss indication,
/// whatever else it holds, leads to an indication to each session whose feed the sender receives
/// and who is not cut off from it by a block. One on the video stream with a full intra request and
/// no such indication leads to a request to each of them. Any other is passed on to each session
/// that receives the feed of the sender and is not cut off. Nothing else is asked of the gateway,
/// nothing is asked twice, and only requests change anything: their numbers.
pub proof fn law_control_packets_go_where_they_belong(
    board: SwitchboardView,
    sender: u64,
    video: i32,
    has_pli: bool,
    has_fir: bool,
    action: ActionView,
)
    requires
        board.consistent(),
    ensures
        ({
            let (after, actions) = rtcp_step(board, sender, video, has_pli, has_fir);
            let other = match action {
                ActionView::Pli { handle } => handle,
                ActionView::Fir { handle, .. } => handle,
                ActionView::RelayRtcp { handle, .. } => handle,
                _ => sender,
            };
            let cut_off = board.sessions[sender].join_state is Some
                && board.sessions[other].join_state is Some && (board.blocks.contains(
                (
                    board.sessions[sender].join_state->0.user_id,
                    board.sessions[other].join_state->0.user_id,
                ),
            ) || board.blocks.contains(
                (
                    board.sessions[other].join_state->0.user_id,
                    board.sessions[sender].join_state->0.user_id,
                ),
            ));
            let received = board.feeds.contains(Feed { publisher: other, subscriber: sender });
            let sent = board.feeds.contains(Feed { publisher: sender, subscriber: other });
            &&& video == 1 && has_pli ==> (actions.contains(action) <==> action is Pli && received
                && !cut_off)
            &&& video == 1 && !has_pli && has_fir ==> (actions.contains(action) <==> (action matches
                ActionView::Fir { seq, .. } && seq == board.sessions[other].fir_seq as i32
                && received && !cut_off))
            &&& video != 1 || !has_pli && !has_fir ==> (actions.contains(action) <==> (
            action matches ActionView::RelayRtcp { video: kind, .. } && kind == video && sent
                && !cut_off))
            &&& actions.no_duplicates()
            &&& video != 1 || has_pli || !has_fir ==> after == board
            &&& video == 1 && !has_pli && has_fir ==> after == after_firs(
                board,
                board.media_senders_to(sender),
            )
        }),
{
    let (after, actions) = rtcp_step(board, sender, video, has_pli, has_fir);
    let senders = board.media_senders_to(sender);
    let recipients = board.media_recipients_for(sender);
    let other = action.target();
    law_packets_go_once(board, sender, video, has_pli, has_fir);
    lemma_recipient(board, other, sender);
    lemma_recipient(board, sender, other);
    lemma_asked_for_frames(board, sender, action);
    if video == 1 && has_pli {
        if actions.contains(action) {
            let i = actions.index_of(action);
            assert(actions[i] == pli()(senders[i]));
            assert(senders.contains(senders[i]));
        }
        if senders.contains(other) {
            let i = senders.index_of(other);
            assert(actions[i] == pli()(other));
        }
    } else if video == 1 && has_fir {
    } else {
        if actions.contains(action) {
            let i = actions.index_of(action);
            assert(actions[i] == rtcp_to(video)(recipients[i]));
            assert(recipients.contains(recipients[i]));
        }
        if recipients.contains(other) {
            let i = recipients.index_of(other);
            assert(actions[i] == rtcp_to(video)(other));
        }
    }
}

// Beginnings and endings.

/// A new session gets the next handle, and has neither joined nor subscribed nor published; nothing
/// else changes, but that the next handle is the one after.
pub proof fn law_new_sessions_are_blank(board: SwitchboardView, other: u64)
    requires
        board.consistent(),
        board.next_handle < u64::MAX,
    ensures
        ({
            let after = board.with_connection();
            let new = board.next_handle;
            &&& after.sessions.contains_key(new)
            &&& after.sessions[new].handle == new
            &&& after.sessions[new].join_state is None
            &&& after.sessions[new].subscriber_offer is None
            &&& after.sessions[new].subscription is None
            &&& after.sessions[new].fir_seq == 0
            &&& other != new ==> (after.sessions.contains_key(other)
                <==> board.sessions.contains_key(other))
            &&& other != new ==> after.sessions[other] == board.sessions[other]
            &&& after.connected == board.connected.push(new)
            &&& after.next_handle == new + 1
            &&& after.occupants == board.occupants
            &&& after.feeds == board.feeds
            &&& after.blocks == board.blocks
        }),
{
}

/// Ending a session takes out that session alone. Every other session stays as it is; a feed is
/// left exactly if it was there and the session is at neither end of it, and an occupant exactly if
/// it was there and is another session; blocks stay. Nothing comes to be listed twice.
pub proof fn law_endings_take_out_one_session_alone(
    board: SwitchboardView,
    handle: u64,
    feed: Feed,
    occupant: OccupantView,
    other: u64,
)
    requires
        board.consistent(),
    ensures
        ({
            let after = board.without_session(handle);
            &&& after.sessions.contains_key(other) <==> board.sessions.contains_key(other) && other
                != handle
            &&& other != handle ==> after.sessions[other] == board.sessions[other]
            &&& after.connected.contains(other) <==> board.connected.contains(other) && other
                != handle
            &&& after.feeds.contains(feed) <==> board.feeds.contains(feed) && feed.publisher
                != handle && feed.subscriber != handle
            &&& after.occupants.contains(occupant) <==> board.occupants.contains(occupant)
                && occupant.handle != handle
            &&& after.blocks == board.blocks
            &&& after.next_handle == board.next_handle
            &&& after.connected.no_duplicates()
            &&& after.feeds.no_duplicates()
            &&& after.occupants.no_duplicates()
        }),
{
    lemma_filter_has(board.connected, other_than(handle));
    lemma_filter_has(board.feeds, feed_without(handle));
    lemma_filter_has(board.occupants, occupant_other_than(handle));
    lemma_filter_distinct(board.connected, other_than(handle));
    assert(board.feeds.no_duplicates());
    lemma_filter_distinct(board.feeds, feed_without(handle));
    assert(board.occupants.no_duplicates());
    lemma_filter_distinct(board.occupants, occupant_other_than(handle));
    let after = board.without_session(handle);
    assert(after.connected.contains(other) <==> board.connected.contains(other) && other_than(
        handle,
    )(other));
    assert(after.feeds.contains(feed) <==> board.feeds.contains(feed) && feed_without(handle)(
        feed,
    ));
    assert(after.occupants.contains(occupant) <==> board.occupants.contains(occupant)
        && occupant_other_than(handle)(occupant));
}

/// The ending of a session leaves the traffic between any two others as it was, and the publisher
/// of a user too, unless it was the one that ended.
pub proof fn law_endings_leave_the_others_their_traffic(
    board: SwitchboardView,
    handle: u64,
    one: u64,
    other: u64,
    user_id: Seq<char>,
)
    requires
        board.consistent(),
        one != handle,
        other != handle,
    ensures
        ({
            let after = board.without_session(handle);
            &&& after.media_recipients_for(one).contains(other) <==> board.media_recipients_for(
                one,
            ).contains(other)
            &&& after.media_senders_to(one).contains(other) <==> board.media_senders_to(
                one,
            ).contains(other)
            &&& after.data_recipients_for(one).contains(other) <==> board.data_recipients_for(
                one,
            ).contains(other)
            &&& after.subscribers_to(one).contains(other) <==> board.subscribers_to(one).contains(
                other,
            )
            &&& board.publisher_of(user_id) != Some(handle) ==> after.publisher_of(user_id)
                == board.publisher_of(user_id)
        }),
{
    let after = board.without_session(handle);
    law_removal_keeps_consistency(board, handle);
    lemma_filter_has(board.feeds, feed_without(handle));
    let there = Feed { publisher: one, subscriber: other };
    let back = Feed { publisher: other, subscriber: one };
    assert(after.feeds.contains(there) <==> board.feeds.contains(there) && feed_without(handle)(
        there,
    ));
    assert(after.feeds.contains(back) <==> board.feeds.contains(back) && feed_without(handle)(
        back,
    ));
    lemma_recipient(board, one, other);
    lemma_recipient(after, one, other);
    lemma_recipient(board, other, one);
    lemma_recipient(after, other, one);
    lemma_subscriber(board, one, other);
    lemma_subscriber(after, one, other);
    if board.is_live(one) {
        assert(after.is_live(one));
        lemma_data_recipient(board, one, other);
        lemma_data_recipient(after, one, other);
        if board.sessions[one].join_state is Some {
            let room_id = board.sessions[one].join_state->0.room_id;
            lemma_occupants_left(board, handle, room_id, other);
            lemma_occupant(board, room_id, other);
            lemma_occupant(after, room_id, other);
        }
    } else {
        assert(!after.is_live(one));
    }
    let keep = board.publishing(user_id);
    let still = after.publishing(user_id);
    let both = |session: u64| session != handle && keep(session);
    assert forall|i: int| 0 <= i < board.connected.len() implies both(
        #[trigger] board.connected[i],
    ) == (other_than(handle)(board.connected[i]) && still(board.connected[i])) by {
        assert(board.connected[i] != handle ==> after.sessions[board.connected[i]]
            == board.sessions[board.connected[i]]);
    }
    lemma_filter_twice(board.connected, other_than(handle), still, both);
    lemma_filter_first(board.connected, keep);
    lemma_filter_first(board.connected, both);
    if board.publisher_of(user_id) != Some(handle) {
        let publishers = board.connected.filter(keep);
        let left = board.connected.filter(both);
        if publishers.len() > 0 {
            let i = choose|i: int|
                0 <= i < board.connected.len() && keep(#[trigger] board.connected[i])
                    && publishers[0] == board.connected[i] && forall|k: int|
                    0 <= k < i ==> !keep(#[trigger] board.connected[k]);
            assert(both(board.connected[i]));
            assert(left.len() > 0);
            let j = choose|j: int|
                0 <= j < board.connected.len() && both(#[trigger] board.connected[j]) && left[0]
                    == board.connected[j] && forall|k: int|
                    0 <= k < j ==> !both(#[trigger] board.connected[k]);
            assert(keep(board.connected[j]));
            assert(i == j);
        } else if left.len() > 0 {
            let j = choose|j: int|
                0 <= j < board.connected.len() && both(#[trigger] board.connected[j]) && left[0]
                    == board.connected[j] && forall|k: int|
                    0 <= k < j ==> !both(#[trigger] board.connected[k]);
            assert(keep(board.connected[j]));
        }
    }
}

/// Of the ending of a session that had joined, where no other session has joined as its user,
/// exactly those other sessions are told that take part in its room and want notices; each once.
/// Nobody is told anything else, and nobody is told where the session had not joined or another
/// session of the user is left.
pub proof fn law_last_endings_are_told_to_the_room(
    board: SwitchboardView,
    handle: u64,
    action: ActionView,
)
    requires
        board.consistent(),
        board.is_live(handle),
    ensures
        leave_notices(board, handle).contains(action) <==> (board.sessions[handle].join_state matches
            Some(joined) && (action matches ActionView::Notify { handle: other, event } && event == (
        EventView::Leave { user_id: joined.user_id, room_id: joined.room_id }) && other != handle
            && board.occupants.contains(OccupantView { room_id: joined.room_id, handle: other })
            && board.sessions[other].subscription->0.notifications) && forall|session: u64|
            #[trigger] board.sessions.contains_key(session) && session != handle ==> !(
            board.sessions[session].join_state is Some
                && board.sessions[session].join_state->0.user_id == joined.user_id)),
        leave_notices(board, handle).no_duplicates(),
{
    if let Some(joined) = board.sessions[handle].join_state {
        let after = board.without_session(handle);
        law_removal_keeps_consistency(board, handle);
        let event = EventView::Leave { user_id: joined.user_id, room_id: joined.room_id };
        let everyone = after.occupants_of(joined.room_id);
        let keep = after.listeners_except(Channel::Notifications, joined.user_id);
        lemma_occupants_once(after, joined.room_id);
        lemma_notices_once(event, everyone, keep);
        lemma_told(event, everyone, keep, action);
        law_users_are_connected_through_sessions(after, joined.user_id);
        let alone = forall|session: u64|
            #[trigger] board.sessions.contains_key(session) && session != handle ==> !(
            board.sessions[session].join_state is Some
                && board.sessions[session].join_state->0.user_id == joined.user_id);
        if after.is_connected(joined.user_id) {
            let session = choose|session: u64| #[trigger]
                after.sessions.contains_key(session) && after.sessions[session].join_state is Some
                    && after.sessions[session].join_state->0.user_id == joined.user_id;
            assert(board.sessions.contains_key(session));
            assert(!alone);
        } else {
            assert forall|session: u64|
                #[trigger] board.sessions.contains_key(session) && session != handle implies !(
            board.sessions[session].join_state is Some
                && board.sessions[session].join_state->0.user_id == joined.user_id) by {
                assert(after.sessions.contains_key(session));
            }
            assert(alone);
        }
        if let ActionView::Notify { handle: other, event: told } = action {
            let entry = OccupantView { room_id: joined.room_id, handle: other };
            lemma_occupants_left(board, handle, joined.room_id, other);
            lemma_occupant(board, joined.room_id, other);
            if board.occupants.contains(entry) {
                let k = board.occupants.index_of(entry);
                assert(board.occupant_in_order(board.occupants[k]));
                assert(board.sessions.contains_key(other));
            }
        }
    }
}

/// Each single change is to one thing only.
pub proof fn law_changes_are_to_one_thing(
    board: SwitchboardView,
    handle: u64,
    other: u64,
    room_id: Seq<char>,
    user_id: Seq<char>,
    subscription: SubscriptionView,
    offer: Seq<char>,
)
    requires
        board.sessions.contains_key(handle),
    ensures
        board.with_join(handle, room_id, user_id) == (SwitchboardView {
            sessions: board.sessions.insert(
                handle,
                SessionView {
                    join_state: Some(JoinStateView { room_id, user_id }),
                    ..board.sessions[handle]
                },
            ),
            ..board
        }),
        board.with_subscription(handle, subscription) == (SwitchboardView {
            sessions: board.sessions.insert(
                handle,
                SessionView { subscription: Some(subscription), ..board.sessions[handle] },
            ),
            ..board
        }),
        board.with_offer(handle, offer) == (SwitchboardView {
            sessions: board.sessions.insert(
                handle,
                SessionView { subscriber_offer: Some(offer), ..board.sessions[handle] },
            ),
            ..board
        }),
        board.with_fir(handle) == (SwitchboardView {
            sessions: board.sessions.insert(
                handle,
                SessionView {
                    fir_seq: if board.sessions[handle].fir_seq == isize::MAX {
                        isize::MIN
                    } else {
                        (board.sessions[handle].fir_seq + 1) as isize
                    },
                    ..board.sessions[handle]
                },
            ),
            ..board
        }),
        board.with_occupant(handle, room_id) == (SwitchboardView {
            occupants: board.occupants.push(OccupantView { room_id, handle }),
            ..board
        }),
        board.with_feed(other, handle) == (SwitchboardView {
            feeds: board.feeds.push(Feed { publisher: other, subscriber: handle }),
            ..board
        }),
        board.with_block(room_id, user_id) == (SwitchboardView {
            blocks: board.blocks.insert((room_id, user_id)),
            ..board
        }),
        board.without_block(room_id, user_id) == (SwitchboardView {
            blocks: board.blocks.remove((room_id, user_id)),
            ..board
        }),
        SwitchboardView::empty() == (SwitchboardView {
            next_handle: 0,
            connected: Seq::empty(),
            sessions: Map::empty(),
            occupants: Seq::empty(),
            feeds: Seq::empty(),
            blocks: Set::empty(),
        }),
{
}

} // verus!
