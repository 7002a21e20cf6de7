//! Every change to a switchboard leaves it consistent.
use crate::messages::SubscriptionView;
use crate::model::{
    feed_without, occupant_other_than, other_than, Feed, OccupantView, SwitchboardView,
};
use crate::seqs::{lemma_filter_distinct, lemma_filter_has};
use vstd::prelude::*;

verus! {

/// The empty switchboard is consistent.
pub proof fn law_empty_is_consistent()
    ensures
        SwitchboardView::empty().consistent(),
{
}

/// A new session leaves the switchboard consistent, and gets a handle that nobody has.
pub proof fn law_connection_keeps_consistency(board: SwitchboardView)
    requires
        board.consistent(),
        board.next_handle < u64::MAX,
    ensures
        board.with_connection().consistent(),
        !board.is_live(board.next_handle),
{
    let after = board.with_connection();
    let new = board.next_handle;
    assert(!board.is_live(new));
    assert forall|handle: u64| #[trigger]
        after.is_live(handle) <==> after.connected.contains(handle) by {
        if after.connected.contains(handle) && handle != new {
            let i = after.connected.index_of(handle);
            assert(board.connected[i] == handle);
            assert(board.connected.contains(handle));
            assert(board.is_live(handle));
        }
        if handle == new {
            assert(after.connected[board.connected.len() as int] == new);
        }
        if board.is_live(handle) {
            let i = board.connected.index_of(handle);
            assert(after.connected[i] == handle);
        }
    }
    assert(after.connected.no_duplicates()) by {
        assert(!board.connected.contains(new));
    }
    assert forall|handle: u64| #[trigger] after.is_live(handle) implies after.sessions[handle].handle
        == handle && handle < after.next_handle by {
        if handle != new {
            assert(board.is_live(handle));
        }
    }
    assert forall|i: int| 0 <= i < after.occupants.len() implies after.occupant_in_order(
        #[trigger] after.occupants[i],
    ) by {
        assert(board.occupant_in_order(board.occupants[i]));
    }
    assert forall|i: int| 0 <= i < after.feeds.len() implies after.feed_in_order(
        #[trigger] after.feeds[i],
    ) by {
        assert(board.feed_in_order(board.feeds[i]));
    }
}

/// When a session goes, the switchboard stays consistent, and nothing speaks of it any more.
pub proof fn law_removal_keeps_consistency(board: SwitchboardView, handle: u64)
    requires
        board.consistent(),
    ensures
        board.without_session(handle).consistent(),
        !board.without_session(handle).is_live(handle),
{
    let after = board.without_session(handle);
    lemma_filter_has(board.connected, other_than(handle));
    lemma_filter_distinct(board.connected, other_than(handle));
    assert forall|other: u64| #[trigger]
        after.is_live(other) <==> after.connected.contains(other) by {
        assert(board.is_live(other) <==> board.connected.contains(other));
        assert(after.connected.contains(other) <==> board.connected.contains(other) && other_than(
            handle,
        )(other));
    }
    assert forall|other: u64| #[trigger] after.is_live(other) implies after.sessions[other].handle
        == other && other < after.next_handle by {
        assert(board.is_live(other));
    }
    lemma_filter_has(board.occupants, occupant_other_than(handle));
    assert forall|i: int| 0 <= i < after.occupants.len() implies after.occupant_in_order(
        #[trigger] after.occupants[i],
    ) by {
        assert(after.occupants.contains(after.occupants[i]));
        let k = board.occupants.index_of(after.occupants[i]);
        assert(board.occupant_in_order(board.occupants[k]));
    }
    assert(forall|i: int, j: int| 0 <= i < j < board.occupants.len() ==> board.occupants[i]
        != board.occupants[j]);
    lemma_filter_distinct(board.occupants, occupant_other_than(handle));
    assert forall|i: int, j: int| 0 <= i < j < after.occupants.len() implies (
    #[trigger] after.occupants[i]).handle != (#[trigger] after.occupants[j]).handle by {
        assert(after.occupants.contains(after.occupants[i]));
        assert(after.occupants.contains(after.occupants[j]));
        let k = board.occupants.index_of(after.occupants[i]);
        let l = board.occupants.index_of(after.occupants[j]);
        assert(k != l);
        if k < l {
            assert(board.occupants[k].handle != board.occupants[l].handle);
        } else {
            assert(board.occupants[l].handle != board.occupants[k].handle);
        }
    }
    lemma_filter_has(board.feeds, feed_without(handle));
    assert forall|i: int| 0 <= i < after.feeds.len() implies after.feed_in_order(
        #[trigger] after.feeds[i],
    ) by {
        assert(after.feeds.contains(after.feeds[i]));
        let k = board.feeds.index_of(after.feeds[i]);
        assert(board.feed_in_order(board.feeds[k]));
    }
    assert(forall|i: int, j: int|
        0 <= i < j < board.feeds.len() ==> board.feeds[i] != board.feeds[j]);
    lemma_filter_distinct(board.feeds, feed_without(handle));
    assert forall|i: int, j: int| 0 <= i < j < after.feeds.len() implies (
    #[trigger] after.feeds[i]).subscriber != (#[trigger] after.feeds[j]).subscriber by {
        assert(after.feeds.contains(after.feeds[i]));
        assert(after.feeds.contains(after.feeds[j]));
        let k = board.feeds.index_of(after.feeds[i]);
        let l = board.feeds.index_of(after.feeds[j]);
        assert(k != l);
        if k < l {
            assert(board.feeds[k].subscriber != board.feeds[l].subscriber);
        } else {
            assert(board.feeds[l].subscriber != board.feeds[k].subscriber);
        }
    }
}

/// A change to one session that keeps what it has joined, subscribed to and published for keeps
/// the switchboard consistent.
proof fn lemma_session_change(board: SwitchboardView, after: SwitchboardView, handle: u64)
    requires
        board.consistent(),
        board.is_live(handle),
        after == board.with_session(handle, after.sessions[handle]),
        after.sessions[handle].handle == handle,
        board.sessions[handle].join_state is Some ==> after.sessions[handle].join_state
            == board.sessions[handle].join_state,
        board.sessions[handle].subscription is Some ==> after.sessions[handle].subscription
            == board.sessions[handle].subscription,
        board.sessions[handle].subscriber_offer is Some
            ==> after.sessions[handle].subscriber_offer is Some,
    ensures
        after.consistent(),
{
    assert forall|other: u64| #[trigger]
        after.is_live(other) <==> after.connected.contains(other) by {
        assert(board.is_live(other) <==> board.connected.contains(other));
    }
    assert forall|other: u64| #[trigger] after.is_live(other) implies after.sessions[other].handle
        == other && other < after.next_handle by {
        assert(board.is_live(other));
    }
    assert forall|i: int| 0 <= i < after.occupants.len() implies after.occupant_in_order(
        #[trigger] after.occupants[i],
    ) by {
        assert(board.occupant_in_order(board.occupants[i]));
    }
    assert forall|i: int| 0 <= i < after.feeds.len() implies after.feed_in_order(
        #[trigger] after.feeds[i],
    ) by {
        assert(board.feed_in_order(board.feeds[i]));
    }
}

/// A session that joins for the first time leaves the switchboard consistent.
pub proof fn law_join_keeps_consistency(
    board: SwitchboardView,
    handle: u64,
    room_id: Seq<char>,
    user_id: Seq<char>,
)
    requires
        board.consistent(),
        board.is_live(handle),
        board.sessions[handle].join_state is None,
    ensures
        board.with_join(handle, room_id, user_id).consistent(),
{
    lemma_session_change(board, board.with_join(handle, room_id, user_id), handle);
}

/// A session that subscribes for the first time leaves the switchboard consistent.
pub proof fn law_subscription_keeps_consistency(
    board: SwitchboardView,
    handle: u64,
    subscription: SubscriptionView,
)
    requires
        board.consistent(),
        board.is_live(handle),
        board.sessions[handle].subscription is None,
    ensures
        board.with_subscription(handle, subscription).consistent(),
{
    lemma_session_change(board, board.with_subscription(handle, subscription), handle);
}

/// A session that publishes, for the first time or again, leaves the switchboard consistent.
pub proof fn law_offer_keeps_consistency(board: SwitchboardView, handle: u64, offer: Seq<char>)
    requires
        board.consistent(),
        board.is_live(handle),
    ensures
        board.with_offer(handle, offer).consistent(),
{
    lemma_session_change(board, board.with_offer(handle, offer), handle);
}

/// A request for a full frame leaves the switchboard consistent.
pub proof fn law_fir_keeps_consistency(board: SwitchboardView, handle: u64)
    requires
        board.consistent(),
        board.is_live(handle),
    ensures
        board.with_fir(handle).consistent(),
{
    lemma_session_change(board, board.with_fir(handle), handle);
}

/// Entering a room for the first time, after joining it with a data subscription, leaves the
/// switchboard consistent.
pub proof fn law_occupancy_keeps_consistency(board: SwitchboardView, handle: u64, room_id: Seq<char>)
    requires
        board.consistent(),
        board.occupant_in_order(OccupantView { room_id, handle }),
        forall|i: int|
            0 <= i < board.occupants.len() ==> (#[trigger] board.occupants[i]).handle != handle,
    ensures
        board.with_occupant(handle, room_id).consistent(),
{
    let after = board.with_occupant(handle, room_id);
    assert forall|other: u64| #[trigger]
        after.is_live(other) <==> after.connected.contains(other) by {
        assert(board.is_live(other) <==> board.connected.contains(other));
    }
    assert forall|other: u64| #[trigger] after.is_live(other) implies after.sessions[other].handle
        == other && other < after.next_handle by {
        assert(board.is_live(other));
    }
    assert forall|i: int| 0 <= i < after.occupants.len() implies after.occupant_in_order(
        #[trigger] after.occupants[i],
    ) by {
        if i < board.occupants.len() {
            assert(board.occupant_in_order(board.occupants[i]));
        }
    }
    assert forall|i: int| 0 <= i < after.feeds.len() implies after.feed_in_order(
        #[trigger] after.feeds[i],
    ) by {
        assert(board.feed_in_order(board.feeds[i]));
    }
}

/// A first feed to a subscriber leaves the switchboard consistent.
pub proof fn law_feed_keeps_consistency(board: SwitchboardView, publisher: u64, subscriber: u64)
    requires
        board.consistent(),
        board.feed_in_order(Feed { publisher, subscriber }),
        forall|i: int|
            0 <= i < board.feeds.len() ==> (#[trigger] board.feeds[i]).subscriber != subscriber,
    ensures
        board.with_feed(publisher, subscriber).consistent(),
{
    let after = board.with_feed(publisher, subscriber);
    assert forall|other: u64| #[trigger]
        after.is_live(other) <==> after.connected.contains(other) by {
        assert(board.is_live(other) <==> board.connected.contains(other));
    }
    assert forall|other: u64| #[trigger] after.is_live(other) implies after.sessions[other].handle
        == other && other < after.next_handle by {
        assert(board.is_live(other));
    }
    assert forall|i: int| 0 <= i < after.occupants.len() implies after.occupant_in_order(
        #[trigger] after.occupants[i],
    ) by {
        assert(board.occupant_in_order(board.occupants[i]));
    }
    assert forall|i: int| 0 <= i < after.feeds.len() implies after.feed_in_order(
        #[trigger] after.feeds[i],
    ) by {
        if i < board.feeds.len() {
            assert(board.feed_in_order(board.feeds[i]));
        }
    }
}

/// Blocking and unblocking leave the switchboard consistent.
pub proof fn law_blocks_keep_consistency(board: SwitchboardView, by: Seq<char>, whom: Seq<char>)
    requires
        board.consistent(),
    ensures
        board.with_block(by, whom).consistent(),
        board.without_block(by, whom).consistent(),
{
    let blocked = board.with_block(by, whom);
    let unblocked = board.without_block(by, whom);
    assert forall|other: u64| #[trigger]
        blocked.is_live(other) implies blocked.connected.contains(other)
        && blocked.sessions[other].handle == other && other < blocked.next_handle by {
        assert(board.is_live(other));
    }
    assert forall|other: u64| #[trigger]
        unblocked.is_live(other) implies unblocked.connected.contains(other)
        && unblocked.sessions[other].handle == other && other < unblocked.next_handle by {
        assert(board.is_live(other));
    }
    assert forall|i: int| 0 <= i < board.occupants.len() implies blocked.occupant_in_order(
        #[trigger] board.occupants[i],
    ) && unblocked.occupant_in_order(board.occupants[i]) by {
        assert(board.occupant_in_order(board.occupants[i]));
    }
    assert forall|i: int| 0 <= i < board.feeds.len() implies blocked.feed_in_order(
        #[trigger] board.feeds[i],
    ) && unblocked.feed_in_order(board.feeds[i]) by {
        assert(board.feed_in_order(board.feeds[i]));
    }
    assert forall|other: u64| board.connected.contains(other) implies #[trigger] board.is_live(
        other,
    ) by {}
    assert forall|other: u64| blocked.connected.contains(other) implies #[trigger] blocked.is_live(
        other,
    ) by {
        assert(board.is_live(other));
    }
    assert forall|other: u64|
        unblocked.connected.contains(other) implies #[trigger] unblocked.is_live(other) by {
        assert(board.is_live(other));
    }
}

} // verus!
