//! The switchboard as a mathematical object: who is connected, who is in which room, who
//! receives whose media, and who has blocked whom.
use crate::messages::SubscriptionView;
use crate::sessions::{JoinStateView, SessionView};
use vstd::prelude::*;

verus! {

/// A session that takes part in a room.
pub struct OccupantView {
    pub room_id: Seq<char>,
    pub handle: u64,
}

/// A subscription to media: `subscriber` receives what `publisher` sends.
#[derive(Clone, Copy, Debug, PartialEq, Eq, Structural)]
pub struct Feed {
    pub publisher: u64,
    pub subscriber: u64,
}

/// The whole state of the switchboard.
#[verifier::ext_equal]
pub struct SwitchboardView {
    /// The handle that the next session will get.
    pub next_handle: u64,
    /// The handles of all live sessions, in order of connection.
    pub connected: Seq<u64>,
    /// The live sessions, by handle.
    pub sessions: Map<u64, SessionView>,
    /// Who takes part in which room, in order of joining.
    pub occupants: Seq<OccupantView>,
    /// Who receives whose media, in order of subscribing.
    pub feeds: Seq<Feed>,
    /// The pairs of a blocking user and the user they block.
    pub blocks: Set<(Seq<char>, Seq<char>)>,
}

/// Picks the occupants of one room.
pub open spec fn in_room(room_id: Seq<char>) -> spec_fn(OccupantView) -> bool {
    |occupant: OccupantView| occupant.room_id == room_id
}

/// The handle of an occupant.
pub open spec fn occupant_handle() -> spec_fn(OccupantView) -> u64 {
    |occupant: OccupantView| occupant.handle
}

/// Picks the occupants other than one session.
pub open spec fn occupant_other_than(handle: u64) -> spec_fn(OccupantView) -> bool {
    |occupant: OccupantView| occupant.handle != handle
}

/// Picks the handles other than one.
pub open spec fn other_than(handle: u64) -> spec_fn(u64) -> bool {
    |other: u64| other != handle
}

/// Picks the feeds that one session neither sends nor receives.
pub open spec fn feed_without(handle: u64) -> spec_fn(Feed) -> bool {
    |feed: Feed| feed.publisher != handle && feed.subscriber != handle
}

/// Picks the feeds that one session sends.
pub open spec fn feed_from(handle: u64) -> spec_fn(Feed) -> bool {
    |feed: Feed| feed.publisher == handle
}

/// Who sends a feed.
pub open spec fn feed_publisher() -> spec_fn(Feed) -> u64 {
    |feed: Feed| feed.publisher
}

/// Who receives a feed.
pub open spec fn feed_subscriber() -> spec_fn(Feed) -> u64 {
    |feed: Feed| feed.subscriber
}

/// The elements of `s`, each where it first occurs.
pub open spec fn distinct(s: Seq<Seq<char>>) -> Seq<Seq<char>>
    decreases s.len(),
{
    if s.len() == 0 {
        Seq::empty()
    } else {
        let rest = distinct(s.drop_last());
        if rest.contains(s.last()) {
            rest
        } else {
            rest.push(s.last())
        }
    }
}

/// The sequence number after `seq`; the largest is followed by the smallest.
pub open spec fn next_seq(seq: isize) -> isize {
    if seq == isize::MAX {
        isize::MIN
    } else {
        (seq + 1) as isize
    }
}

/// What holds of the switchboard between any two operations, and what they ask of it.
impl SwitchboardView {
    /// A switchboard that nobody has connected to.
    pub open spec fn empty() -> SwitchboardView {
        SwitchboardView {
            next_handle: 0,
            connected: Seq::empty(),
            sessions: Map::empty(),
            occupants: Seq::empty(),
            feeds: Seq::empty(),
            blocks: Set::empty(),
        }
    }

    /// Whether `handle` is that of a live session.
    pub open spec fn is_live(self, handle: u64) -> bool {
        self.sessions.contains_key(handle)
    }

    /// Whether an entry of the room list is in order: the session is live, has joined that very
    /// room, and receives data.
    pub open spec fn occupant_in_order(self, occupant: OccupantView) -> bool {
        &&& self.is_live(occupant.handle)
        &&& self.sessions[occupant.handle].is_in(occupant.room_id)
        &&& self.sessions[occupant.handle].subscription is Some
        &&& self.sessions[occupant.handle].subscription->0.data
    }

    /// Whether a feed is in order: both ends are live, and the subscriber asked for the media of
    /// the user that the publisher sends for.
    pub open spec fn feed_in_order(self, feed: Feed) -> bool {
        &&& self.is_live(feed.publisher)
        &&& self.is_live(feed.subscriber)
        &&& self.sessions[feed.subscriber].subscription is Some
        &&& self.sessions[feed.subscriber].subscription->0.media is Some
        &&& self.sessions[feed.publisher].publishes_for(
            self.sessions[feed.subscriber].subscription->0.media->0,
        )
    }

    /// Everything that always holds: handles are unique and below the next one, nobody takes part
    /// in rooms twice, nobody receives two feeds, and every entry speaks of live sessions.
    pub open spec fn consistent(self) -> bool {
        &&& self.connected.no_duplicates()
        &&& forall|handle: u64| #[trigger]
            self.is_live(handle) <==> self.connected.contains(handle)
        &&& forall|handle: u64| #[trigger]
            self.is_live(handle) ==> self.sessions[handle].handle == handle && handle
                < self.next_handle
        &&& forall|i: int|
            0 <= i < self.occupants.len() ==> self.occupant_in_order(#[trigger] self.occupants[i])
        &&& forall|i: int, j: int|
            0 <= i < j < self.occupants.len() ==> (#[trigger] self.occupants[i]).handle != (
            #[trigger] self.occupants[j]).handle
        &&& forall|i: int|
            0 <= i < self.feeds.len() ==> self.feed_in_order(#[trigger] self.feeds[i])
        &&& forall|i: int, j: int|
            0 <= i < j < self.feeds.len() ==> (#[trigger] self.feeds[i]).subscriber != (
            #[trigger] self.feeds[j]).subscriber
    }

    // Questions.

    /// The sessions that take part in a room, in order of joining.
    pub open spec fn occupants_of(self, room_id: Seq<char>) -> Seq<u64> {
        self.occupants.filter(in_room(room_id)).map_values(occupant_handle())
    }

    /// The user that a session has joined as.
    pub open spec fn user_id_of(self) -> spec_fn(u64) -> Seq<char> {
        |handle: u64| self.sessions[handle].join_state->0.user_id
    }

    /// The users who take part in a room, each once, in order of joining.
    pub open spec fn users_of(self, room_id: Seq<char>) -> Seq<Seq<char>> {
        distinct(self.occupants_of(room_id).map_values(self.user_id_of()))
    }

    /// Whether some live session has joined as `user_id`.
    pub open spec fn is_connected(self, user_id: Seq<char>) -> bool {
        exists|handle: u64| #[trigger]
            self.is_live(handle) && self.sessions[handle].is_user(user_id)
    }

    /// Picks the sessions that have joined one room as one user.
    pub open spec fn joined_as(self, room_id: Seq<char>, user_id: Seq<char>) -> spec_fn(
        u64,
    ) -> bool {
        |handle: u64| self.sessions[handle].is_in(room_id) && self.sessions[handle].is_user(user_id)
    }

    /// The sessions of one user in one room, in order of connection.
    pub open spec fn sessions_of(self, room_id: Seq<char>, user_id: Seq<char>) -> Seq<u64> {
        self.connected.filter(self.joined_as(room_id, user_id))
    }

    /// Picks the sessions that send the media of one user.
    pub open spec fn publishing(self, user_id: Seq<char>) -> spec_fn(u64) -> bool {
        |handle: u64| self.sessions[handle].publishes_for(user_id)
    }

    /// The session that sends the media of `user_id`: the first to have connected, where there
    /// are several.
    pub open spec fn publisher_of(self, user_id: Seq<char>) -> Option<u64> {
        let publishers = self.connected.filter(self.publishing(user_id));
        if publishers.len() == 0 {
            None
        } else {
            Some(publishers[0])
        }
    }

    /// Whether one of two users has blocked the other.
    pub open spec fn users_blocked(self, one: Seq<char>, other: Seq<char>) -> bool {
        self.blocks.contains((one, other)) || self.blocks.contains((other, one))
    }

    /// Whether traffic between two sessions is blocked. Sessions that have not joined belong to
    /// no user, so nothing blocks them.
    pub open spec fn sessions_blocked(self, one: u64, other: u64) -> bool {
        &&& self.is_live(one)
        &&& self.is_live(other)
        &&& self.sessions[one].join_state is Some
        &&& self.sessions[other].join_state is Some
        &&& self.users_blocked(
            self.sessions[one].join_state->0.user_id,
            self.sessions[other].join_state->0.user_id,
        )
    }

    /// Everyone who subscribes to a session, blocked or not, in order of subscribing.
    pub open spec fn subscribers_to(self, handle: u64) -> Seq<u64> {
        self.feeds.filter(feed_from(handle)).map_values(feed_subscriber())
    }

    /// Picks the open feeds that one session sends.
    pub open spec fn open_feed_from(self, handle: u64) -> spec_fn(Feed) -> bool {
        |feed: Feed|
            feed.publisher == handle && !self.sessions_blocked(feed.publisher, feed.subscriber)
    }

    /// Picks the open feeds that one session receives.
    pub open spec fn open_feed_to(self, handle: u64) -> spec_fn(Feed) -> bool {
        |feed: Feed|
            feed.subscriber == handle && !self.sessions_blocked(feed.publisher, feed.subscriber)
    }

    /// Where the media of a session goes.
    pub open spec fn media_recipients_for(self, handle: u64) -> Seq<u64> {
        self.feeds.filter(self.open_feed_from(handle)).map_values(feed_subscriber())
    }

    /// Where the media that a session receives comes from.
    pub open spec fn media_senders_to(self, handle: u64) -> Seq<u64> {
        self.feeds.filter(self.open_feed_to(handle)).map_values(feed_publisher())
    }

    /// Picks the sessions other than one to which nothing blocks the way.
    pub open spec fn reachable_from(self, handle: u64) -> spec_fn(u64) -> bool {
        |other: u64| other != handle && !self.sessions_blocked(handle, other)
    }

    /// Where the data of a session goes: to the rest of its room.
    pub open spec fn data_recipients_for(self, handle: u64) -> Seq<u64> {
        if self.is_live(handle) && self.sessions[handle].join_state is Some {
            self.occupants_of(self.sessions[handle].join_state->0.room_id).filter(
                self.reachable_from(handle),
            )
        } else {
            Seq::empty()
        }
    }

    // Changes.

    /// After a new session has connected.
    pub open spec fn with_connection(self) -> SwitchboardView {
        SwitchboardView {
            next_handle: (self.next_handle + 1) as u64,
            connected: self.connected.push(self.next_handle),
            sessions: self.sessions.insert(self.next_handle, SessionView::fresh(self.next_handle)),
            ..self
        }
    }

    /// After a session has gone.
    pub open spec fn without_session(self, handle: u64) -> SwitchboardView {
        SwitchboardView {
            connected: self.connected.filter(other_than(handle)),
            sessions: self.sessions.remove(handle),
            occupants: self.occupants.filter(occupant_other_than(handle)),
            feeds: self.feeds.filter(feed_without(handle)),
            ..self
        }
    }

    /// After one session has changed.
    pub open spec fn with_session(self, handle: u64, session: SessionView) -> SwitchboardView {
        SwitchboardView { sessions: self.sessions.insert(handle, session), ..self }
    }

    /// After a session has joined a room as a user.
    pub open spec fn with_join(
        self,
        handle: u64,
        room_id: Seq<char>,
        user_id: Seq<char>,
    ) -> SwitchboardView {
        self.with_session(
            handle,
            SessionView {
                join_state: Some(JoinStateView { room_id, user_id }),
                ..self.sessions[handle]
            },
        )
    }

    /// After a session has said what it wants to receive.
    pub open spec fn with_subscription(
        self,
        handle: u64,
        subscription: SubscriptionView,
    ) -> SwitchboardView {
        self.with_session(
            handle,
            SessionView { subscription: Some(subscription), ..self.sessions[handle] },
        )
    }

    /// After a session has something to offer to its subscribers.
    pub open spec fn with_offer(self, handle: u64, offer: Seq<char>) -> SwitchboardView {
        self.with_session(
            handle,
            SessionView { subscriber_offer: Some(offer), ..self.sessions[handle] },
        )
    }

    /// After a session has been asked for a full frame.
    pub open spec fn with_fir(self, handle: u64) -> SwitchboardView {
        self.with_session(
            handle,
            SessionView {
                fir_seq: next_seq(self.sessions[handle].fir_seq),
                ..self.sessions[handle]
            },
        )
    }

    /// After a session has come to take part in a room.
    pub open spec fn with_occupant(self, handle: u64, room_id: Seq<char>) -> SwitchboardView {
        SwitchboardView {
            occupants: self.occupants.push(OccupantView { room_id, handle }),
            ..self
        }
    }

    /// After `subscriber` has begun to receive the media of `publisher`.
    pub open spec fn with_feed(self, publisher: u64, subscriber: u64) -> SwitchboardView {
        SwitchboardView { feeds: self.feeds.push(Feed { publisher, subscriber }), ..self }
    }

    /// After user `by` has blocked user `whom`.
    pub open spec fn with_block(self, by: Seq<char>, whom: Seq<char>) -> SwitchboardView {
        SwitchboardView { blocks: self.blocks.insert((by, whom)), ..self }
    }

    /// After user `by` no longer blocks user `whom`.
    pub open spec fn without_block(self, by: Seq<char>, whom: Seq<char>) -> SwitchboardView {
        SwitchboardView { blocks: self.blocks.remove((by, whom)), ..self }
    }
}

} // verus!
