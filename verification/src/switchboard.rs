//! The data structure that maps sessions to rooms, publishers to subscribers, and users to the
//! users they have blocked.
use crate::messages::{texts, Subscription};
use crate::model::{
    distinct, feed_from, feed_publisher, feed_subscriber, feed_without, in_room, occupant_handle,
    occupant_other_than, other_than, Feed, OccupantView, SwitchboardView,
};
use crate::invariants::{
    law_blocks_keep_consistency, law_connection_keeps_consistency, law_feed_keeps_consistency,
    law_fir_keeps_consistency, law_join_keeps_consistency, law_occupancy_keeps_consistency,
    law_offer_keeps_consistency, law_removal_keeps_consistency, law_subscription_keeps_consistency,
};
use crate::seqs::{
    lemma_filter_all, lemma_filter_has, lemma_filter_none, lemma_filter_prefix, lemma_filter_step,
    lemma_push_has, lemma_remove_is_filter,
};
use crate::sessions::{JoinState, Session, SessionView};
use vstd::prelude::*;

verus! {

/// A session that takes part in a room.
#[derive(Debug)]
struct Occupant {
    room_id: String,
    handle: u64,
}

impl View for Occupant {
    type V = OccupantView;

    closed spec fn view(&self) -> OccupantView {
        OccupantView { room_id: self.room_id@, handle: self.handle }
    }
}

/// User `by` has blocked user `whom`.
#[derive(Debug)]
struct Block {
    by: String,
    whom: String,
}

impl View for Block {
    type V = (Seq<char>, Seq<char>);

    closed spec fn view(&self) -> (Seq<char>, Seq<char>) {
        (self.by@, self.whom@)
    }
}

/// Who is connected, who is in which room, who receives whose media, who has blocked whom.
#[derive(Debug)]
pub struct Switchboard {
    /// The handle for the next session.
    next_handle: u64,
    /// All live sessions, by increasing handle.
    sessions: Vec<Session>,
    /// Who takes part in which room, in order of joining.
    occupants: Vec<Occupant>,
    /// Who receives whose media, in order of subscribing.
    feeds: Vec<Feed>,
    /// The blocks in force, each once.
    blocks: Vec<Block>,
}

/// The handles of a list of sessions.
spec fn handles(sessions: Seq<Session>) -> Seq<u64> {
    sessions.map_values(|session: Session| session.handle)
}

/// Whether `i` is where the session with this handle stands.
spec fn stands_at(sessions: Seq<Session>, handle: u64, i: int) -> bool {
    0 <= i < sessions.len() && sessions[i].handle == handle
}

/// A list of sessions as a table by handle.
spec fn table(sessions: Seq<Session>) -> Map<u64, SessionView> {
    Map::new(
        |handle: u64| exists|i: int| stands_at(sessions, handle, i),
        |handle: u64| sessions[choose|i: int| stands_at(sessions, handle, i)]@,
    )
}

/// Whether a list of sessions goes by increasing handle.
spec fn increasing(sessions: Seq<Session>) -> bool {
    forall|i: int, j: int|
        0 <= i < j < sessions.len() ==> (#[trigger] sessions[i]).handle < (
        #[trigger] sessions[j]).handle
}

/// The mathematical form of a list of occupants.
spec fn occupant_views(occupants: Seq<Occupant>) -> Seq<OccupantView> {
    occupants.map_values(|occupant: Occupant| occupant@)
}

/// The mathematical form of a list of blocks.
spec fn block_views(blocks: Seq<Block>) -> Seq<(Seq<char>, Seq<char>)> {
    blocks.map_values(|block: Block| block@)
}

impl View for Switchboard {
    type V = SwitchboardView;

    closed spec fn view(&self) -> SwitchboardView {
        SwitchboardView {
            next_handle: self.next_handle,
            connected: handles(self.sessions@),
            sessions: table(self.sessions@),
            occupants: occupant_views(self.occupants@),
            feeds: self.feeds@,
            blocks: block_views(self.blocks@).to_set(),
        }
    }
}

proof fn lemma_table_entry(sessions: Seq<Session>, i: int)
    requires
        increasing(sessions),
        0 <= i < sessions.len(),
    ensures
        table(sessions).contains_key(sessions[i].handle),
        table(sessions)[sessions[i].handle] == sessions[i]@,
{
    let handle = sessions[i].handle;
    assert(stands_at(sessions, handle, i));
    let k = choose|k: int| stands_at(sessions, handle, k);
    assert(stands_at(sessions, handle, k));
    if k < i {
        assert(sessions[k].handle < sessions[i].handle);
    } else if i < k {
        assert(sessions[i].handle < sessions[k].handle);
    }
}

proof fn lemma_table_absent(sessions: Seq<Session>, handle: u64)
    requires
        forall|i: int| 0 <= i < sessions.len() ==> (#[trigger] sessions[i]).handle != handle,
    ensures
        !table(sessions).contains_key(handle),
{
}

/// Changing a session in place changes one entry of the table.
proof fn lemma_table_update(before: Seq<Session>, after: Seq<Session>, i: int)
    requires
        increasing(before),
        0 <= i < before.len(),
        after == before.update(i, after[i]),
        after[i].handle == before[i].handle,
    ensures
        increasing(after),
        handles(after) == handles(before),
        table(after) == table(before).insert(before[i].handle, after[i]@),
{
    assert(handles(after) =~= handles(before));
    let changed = table(before).insert(before[i].handle, after[i]@);
    assert forall|handle: u64|
        table(after).contains_key(handle) <==> #[trigger] changed.contains_key(handle) by {
        if table(after).contains_key(handle) {
            let k = choose|k: int| stands_at(after, handle, k);
            assert(stands_at(before, handle, k));
        }
        if table(before).contains_key(handle) {
            let k = choose|k: int| stands_at(before, handle, k);
            assert(stands_at(after, handle, k));
        }
        assert(stands_at(after, before[i].handle, i));
    }
    assert forall|handle: u64| #[trigger]
        table(after).contains_key(handle) implies table(after)[handle] == changed[handle] by {
        let k = choose|k: int| stands_at(after, handle, k);
        lemma_table_entry(after, k);
        lemma_table_entry(before, k);
    }
    assert(table(after) =~= changed);
}

/// A session with the largest handle so far adds one entry at the end.
proof fn lemma_table_push(before: Seq<Session>, session: Session)
    requires
        increasing(before),
        forall|i: int| 0 <= i < before.len() ==> (#[trigger] before[i]).handle < session.handle,
    ensures
        increasing(before.push(session)),
        handles(before.push(session)) == handles(before).push(session.handle),
        table(before.push(session)) == table(before).insert(session.handle, session@),
{
    let after = before.push(session);
    assert(handles(after) =~= handles(before).push(session.handle));
    let changed = table(before).insert(session.handle, session@);
    assert forall|handle: u64|
        table(after).contains_key(handle) <==> #[trigger] changed.contains_key(handle) by {
        if table(after).contains_key(handle) {
            let k = choose|k: int| stands_at(after, handle, k);
            if k < before.len() {
                assert(stands_at(before, handle, k));
            }
        }
        if table(before).contains_key(handle) {
            let k = choose|k: int| stands_at(before, handle, k);
            assert(stands_at(after, handle, k));
        }
        assert(stands_at(after, session.handle, before.len() as int));
    }
    assert forall|handle: u64| #[trigger]
        table(after).contains_key(handle) implies table(after)[handle] == changed[handle] by {
        let k = choose|k: int| stands_at(after, handle, k);
        lemma_table_entry(after, k);
        if k < before.len() {
            lemma_table_entry(before, k);
        }
    }
    assert(table(after) =~= changed);
}

/// Taking a session out takes one entry out of the table.
proof fn lemma_table_remove(before: Seq<Session>, i: int)
    requires
        increasing(before),
        0 <= i < before.len(),
    ensures
        increasing(before.remove(i)),
        handles(before.remove(i)) == handles(before).filter(other_than(before[i].handle)),
        table(before.remove(i)) == table(before).remove(before[i].handle),
{
    let after = before.remove(i);
    let gone = before[i].handle;
    assert(handles(before).no_duplicates()) by {
        assert forall|j: int, k: int| 0 <= j < k < before.len() implies handles(before)[j]
            != handles(before)[k] by {
            assert(before[j].handle < before[k].handle);
        }
    }
    lemma_remove_is_filter(handles(before), i);
    assert(handles(after) =~= handles(before).remove(i));
    let changed = table(before).remove(gone);
    assert forall|handle: u64|
        table(after).contains_key(handle) <==> #[trigger] changed.contains_key(handle) by {
        if table(after).contains_key(handle) {
            let k = choose|k: int| stands_at(after, handle, k);
            let j = if k < i { k } else { k + 1 };
            assert(stands_at(before, handle, j));
            if j < i {
                assert(before[j].handle < before[i].handle);
            } else {
                assert(before[i].handle < before[j].handle);
            }
        }
        if changed.contains_key(handle) {
            let k = choose|k: int| stands_at(before, handle, k);
            assert(stands_at(before, handle, k));
            let j = if k < i { k } else { k - 1 };
            assert(stands_at(after, handle, j));
        }
    }
    assert forall|handle: u64| #[trigger]
        table(after).contains_key(handle) implies table(after)[handle] == changed[handle] by {
        let k = choose|k: int| stands_at(after, handle, k);
        lemma_table_entry(after, k);
        lemma_table_entry(before, if k < i { k } else { k + 1 });
    }
    assert(table(after) =~= changed);
}

impl Switchboard {
    /// Whether the sessions are listed by increasing handle.
    pub closed spec fn ordered(&self) -> bool {
        increasing(self.sessions@)
    }

    /// What every operation keeps.
    pub open spec fn wf(&self) -> bool {
        self.ordered() && self@.consistent()
    }

    /// A switchboard that nobody has connected to.
    pub fn new() -> (board: Self)
        ensures
            board.wf(),
            board@ == SwitchboardView::empty(),
    {
        let board = Switchboard {
            next_handle: 0,
            sessions: Vec::new(),
            occupants: Vec::new(),
            feeds: Vec::new(),
            blocks: Vec::new(),
        };
        assert(board@ =~= SwitchboardView::empty()) by {
            assert(handles(board.sessions@) =~= Seq::<u64>::empty());
            assert(table(board.sessions@) =~= Map::<u64, SessionView>::empty());
            assert(occupant_views(board.occupants@) =~= Seq::<OccupantView>::empty());
            assert(block_views(board.blocks@) =~= Seq::<(Seq<char>, Seq<char>)>::empty());
            assert(block_views(board.blocks@).to_set() =~= Set::<(Seq<char>, Seq<char>)>::empty());
        }
        board
    }

    /// Whether every handle has been given out.
    pub fn is_exhausted(&self) -> (yes: bool)
        ensures
            yes == (self@.next_handle == u64::MAX),
    {
        self.next_handle == u64::MAX
    }

    /// Takes in a new session, and returns its handle.
    pub fn connect(&mut self) -> (handle: u64)
        requires
            old(self).wf(),
            old(self)@.next_handle < u64::MAX,
        ensures
            final(self).wf(),
            final(self)@ == old(self)@.with_connection(),
            handle == old(self)@.next_handle,
            !old(self)@.is_live(handle),
    {
        let handle: u64 = self.next_handle;
        let session = Session {
            handle,
            join_state: None,
            subscriber_offer: None,
            subscription: None,
            fir_seq: 0,
        };
        proof {
            law_connection_keeps_consistency(self@);
            assert forall|i: int| 0 <= i < self.sessions@.len() implies (
            #[trigger] self.sessions@[i]).handle < handle by {
                lemma_table_entry(self.sessions@, i);
                assert(self@.is_live(self.sessions@[i].handle));
            }
            lemma_table_push(self.sessions@, session);
            assert(session@ == SessionView::fresh(handle));
        }
        self.sessions.push(session);
        self.next_handle = handle + 1;
        assert(self@ =~= old(self)@.with_connection());
        handle
    }

    /// Where the session with this handle stands, if it is live.
    fn position(&self, handle: u64) -> (place: Option<usize>)
        requires
            self.ordered(),
        ensures
            match place {
                Some(i) => stands_at(self.sessions@, handle, i as int) && self@.is_live(handle)
                    && self@.sessions[handle] == self.sessions@[i as int]@,
                None => !self@.is_live(handle),
            },
    {
        let mut low: usize = 0;
        let mut high: usize = self.sessions.len();
        while low < high
            invariant
                self.ordered(),
                0 <= low <= high <= self.sessions@.len(),
                forall|i: int| 0 <= i < low ==> (#[trigger] self.sessions@[i]).handle < handle,
                forall|i: int|
                    high <= i < self.sessions@.len() ==> (#[trigger] self.sessions@[i]).handle
                        > handle,
            decreases high - low,
        {
            let middle: usize = low + (high - low) / 2;
            let found: u64 = self.sessions[middle].handle;
            if found == handle {
                proof {
                    lemma_table_entry(self.sessions@, middle as int);
                }
                return Some(middle);
            }
            if found < handle {
                assert forall|i: int| 0 <= i < middle + 1 implies (
                #[trigger] self.sessions@[i]).handle < handle by {
                    if i < middle {
                        assert(self.sessions@[i].handle < self.sessions@[middle as int].handle);
                    }
                }
                low = middle + 1;
            } else {
                assert forall|i: int| middle <= i < self.sessions@.len() implies (
                #[trigger] self.sessions@[i]).handle > handle by {
                    if i > middle {
                        assert(self.sessions@[middle as int].handle < self.sessions@[i].handle);
                    }
                }
                high = middle;
            }
        }
        proof {
            lemma_table_absent(self.sessions@, handle);
        }
        None
    }

    /// Whether `handle` is that of a live session.
    pub fn is_live(&self, handle: u64) -> (yes: bool)
        requires
            self.wf(),
        ensures
            yes == self@.is_live(handle),
    {
        self.position(handle).is_some()
    }

    /// The session with this handle, if it is live.
    pub fn session(&self, handle: u64) -> (session: Option<&Session>)
        requires
            self.wf(),
        ensures
            match session {
                Some(found) => self@.is_live(handle) && found@ == self@.sessions[handle],
                None => !self@.is_live(handle),
            },
    {
        match self.position(handle) {
            Some(i) => Some(&self.sessions[i]),
            None => None,
        }
    }

    /// How many sessions are live.
    pub fn session_count(&self) -> (count: usize)
        ensures
            count == self@.connected.len(),
    {
        self.sessions.len()
    }

    /// Takes a session out of everything, if it is live.
    pub fn remove_session(&mut self, handle: u64)
        requires
            old(self).wf(),
        ensures
            final(self).wf(),
            final(self)@ == old(self)@.without_session(handle),
    {
        proof {
            law_removal_keeps_consistency(self@, handle);
        }
        match self.position(handle) {
            Some(i) => {
                proof {
                    lemma_table_remove(self.sessions@, i as int);
                }
                self.sessions.remove(i);
            },
            None => {
                proof {
                    assert(!self@.connected.contains(handle));
                    assert forall|k: int| 0 <= k < self@.connected.len() implies other_than(handle)(
                        #[trigger] self@.connected[k],
                    ) by {
                        assert(self@.connected.contains(self@.connected[k]));
                    }
                    lemma_filter_all(self@.connected, other_than(handle));
                    assert(self@.sessions.remove(handle) =~= self@.sessions);
                }
            },
        }
        self.remove_occupant(handle);
        self.remove_feeds(handle);
        assert(self@ =~= old(self)@.without_session(handle));
    }

    /// Takes a session out of the rooms.
    fn remove_occupant(&mut self, handle: u64)
        ensures
            final(self).sessions == old(self).sessions,
            final(self)@ == (SwitchboardView {
                occupants: old(self)@.occupants.filter(occupant_other_than(handle)),
                ..old(self)@
            }),
    {
        let ghost all = occupant_views(self.occupants@);
        let ghost keep = occupant_other_than(handle);
        let ghost mut seen: int = 0;
        let mut i: usize = 0;
        proof {
            lemma_filter_none(all, keep);
            assert(all =~= all.take(0).filter(keep) + all.skip(0));
        }
        while i < self.occupants.len()
            invariant
                self.next_handle == old(self).next_handle,
                self.sessions == old(self).sessions,
                self.feeds == old(self).feeds,
                self.blocks == old(self).blocks,
                keep == occupant_other_than(handle),
                0 <= seen <= all.len(),
                i == all.take(seen).filter(keep).len(),
                i <= self.occupants@.len(),
                occupant_views(self.occupants@) == all.take(seen).filter(keep) + all.skip(seen),
            decreases self.occupants@.len() - i,
        {
            let ghost before = occupant_views(self.occupants@);
            proof {
                assert(before.len() == i + (all.len() - seen));
                lemma_filter_step(all, keep, seen);
                assert(before[i as int] == all.skip(seen)[0]);
                assert(before[i as int] == self.occupants@[i as int]@);
            }
            if self.occupants[i].handle == handle {
                self.occupants.remove(i);
                proof {
                    assert(occupant_views(self.occupants@) =~= before.remove(i as int));
                    seen = seen + 1;
                    assert(occupant_views(self.occupants@) =~= all.take(seen).filter(keep)
                        + all.skip(seen));
                }
            } else {
                i += 1;
                proof {
                    seen = seen + 1;
                    assert(occupant_views(self.occupants@) =~= all.take(seen).filter(keep)
                        + all.skip(seen));
                }
            }
        }
        proof {
            assert(occupant_views(self.occupants@).len() == i);
            assert(all.take(seen) =~= all);
            assert(occupant_views(self.occupants@) =~= all.filter(keep));
        }
    }

    /// Takes out every feed that a session sends or receives.
    fn remove_feeds(&mut self, handle: u64)
        ensures
            final(self).sessions == old(self).sessions,
            final(self)@ == (SwitchboardView {
                feeds: old(self)@.feeds.filter(feed_without(handle)),
                ..old(self)@
            }),
    {
        let ghost all = self.feeds@;
        let ghost keep = feed_without(handle);
        let mut kept: Vec<Feed> = Vec::new();
        let mut i: usize = 0;
        proof {
            lemma_filter_none(all, keep);
        }
        while i < self.feeds.len()
            invariant
                *self == *old(self),
                all == self.feeds@,
                keep == feed_without(handle),
                i <= all.len(),
                kept@ == all.take(i as int).filter(keep),
            decreases all.len() - i,
        {
            proof {
                lemma_filter_step(all, keep, i as int);
            }
            let feed: Feed = self.feeds[i];
            if feed.publisher != handle && feed.subscriber != handle {
                kept.push(feed);
            }
            i += 1;
        }
        proof {
            assert(all.take(i as int) =~= all);
        }
        self.feeds = kept;
    }
}

/// What one session knows, set at most once each.
impl Switchboard {
    /// Records where a session has joined, unless it has joined before. Returns whether it was
    /// recorded.
    pub fn set_join_state(&mut self, handle: u64, joined: JoinState) -> (done: bool)
        requires
            old(self).wf(),
            old(self)@.is_live(handle),
        ensures
            final(self).wf(),
            done == (old(self)@.sessions[handle].join_state is None),
            final(self)@ == if done {
                old(self)@.with_join(handle, joined@.room_id, joined@.user_id)
            } else {
                old(self)@
            },
    {
        match self.position(handle) {
            Some(i) => {
                if self.sessions[i].join_state.is_some() {
                    return false;
                }
                let ghost before = self.sessions@;
                proof {
                    law_join_keeps_consistency(self@, handle, joined@.room_id, joined@.user_id);
                }
                self.sessions[i].join_state = Some(joined);
                proof {
                    lemma_table_update(before, self.sessions@, i as int);
                    assert(self@ =~= old(self)@.with_join(handle, joined@.room_id, joined@.user_id));
                }
                true
            },
            None => false,
        }
    }

    /// Records what a session wants to receive, unless it has said so before. Returns whether it
    /// was recorded.
    pub fn set_subscription(&mut self, handle: u64, subscription: Subscription) -> (done: bool)
        requires
            old(self).wf(),
            old(self)@.is_live(handle),
        ensures
            final(self).wf(),
            done == (old(self)@.sessions[handle].subscription is None),
            final(self)@ == if done {
                old(self)@.with_subscription(handle, subscription@)
            } else {
                old(self)@
            },
    {
        match self.position(handle) {
            Some(i) => {
                if self.sessions[i].subscription.is_some() {
                    return false;
                }
                let ghost before = self.sessions@;
                proof {
                    law_subscription_keeps_consistency(self@, handle, subscription@);
                }
                self.sessions[i].subscription = Some(subscription);
                proof {
                    lemma_table_update(before, self.sessions@, i as int);
                    assert(self@ =~= old(self)@.with_subscription(handle, subscription@));
                }
                true
            },
            None => false,
        }
    }

    /// Records what to offer to those who subscribe to a session, in place of any earlier offer.
    pub fn set_subscriber_offer(&mut self, handle: u64, offer: String)
        requires
            old(self).wf(),
            old(self)@.is_live(handle),
        ensures
            final(self).wf(),
            final(self)@ == old(self)@.with_offer(handle, offer@),
    {
        if let Some(i) = self.position(handle) {
            let ghost before = self.sessions@;
            proof {
                law_offer_keeps_consistency(self@, handle, offer@);
            }
            self.sessions[i].subscriber_offer = Some(offer);
            proof {
                lemma_table_update(before, self.sessions@, i as int);
                assert(self@ =~= old(self)@.with_offer(handle, offer@));
            }
        }
    }

    /// Returns the number for a full intra request to a session, and steps it on.
    pub fn take_fir_seq(&mut self, handle: u64) -> (seq: isize)
        requires
            old(self).wf(),
            old(self)@.is_live(handle),
        ensures
            final(self).wf(),
            seq == old(self)@.sessions[handle].fir_seq,
            final(self)@ == old(self)@.with_fir(handle),
    {
        match self.position(handle) {
            Some(i) => {
                let ghost before = self.sessions@;
                proof {
                    law_fir_keeps_consistency(self@, handle);
                }
                let seq: isize = self.sessions[i].fir_seq;
                let next: isize = if seq == isize::MAX {
                    isize::MIN
                } else {
                    seq + 1
                };
                self.sessions[i].fir_seq = next;
                proof {
                    lemma_table_update(before, self.sessions@, i as int);
                    assert(self@ =~= old(self)@.with_fir(handle));
                }
                seq
            },
            None => 0,
        }
    }

    /// Lets a session that has joined a room, and receives data, take part in it.
    pub fn join_room(&mut self, handle: u64, room_id: String)
        requires
            old(self).wf(),
            old(self)@.occupant_in_order(OccupantView { room_id: room_id@, handle }),
            forall|i: int|
                0 <= i < old(self)@.occupants.len() ==> (
                #[trigger] old(self)@.occupants[i]).handle != handle,
        ensures
            final(self).wf(),
            final(self)@ == old(self)@.with_occupant(handle, room_id@),
    {
        proof {
            law_occupancy_keeps_consistency(self@, handle, room_id@);
        }
        self.occupants.push(Occupant { room_id, handle });
        assert(occupant_views(self.occupants@) =~= old(self)@.occupants.push(
            OccupantView { room_id: room_id@, handle },
        ));
        assert(self@ =~= old(self)@.with_occupant(handle, room_id@));
    }

    /// Lets `subscriber` receive the media of `publisher`.
    pub fn subscribe_to_user(&mut self, subscriber: u64, publisher: u64)
        requires
            old(self).wf(),
            old(self)@.feed_in_order(Feed { publisher, subscriber }),
            forall|i: int|
                0 <= i < old(self)@.feeds.len() ==> (#[trigger] old(self)@.feeds[i]).subscriber
                    != subscriber,
        ensures
            final(self).wf(),
            final(self)@ == old(self)@.with_feed(publisher, subscriber),
    {
        proof {
            law_feed_keeps_consistency(self@, publisher, subscriber);
        }
        self.feeds.push(Feed { publisher, subscriber });
        assert(self@ =~= old(self)@.with_feed(publisher, subscriber));
    }
}

/// Who has blocked whom.
impl Switchboard {
    /// Whether `by` has blocked `whom`.
    fn has_block(&self, by: &String, whom: &String) -> (yes: bool)
        ensures
            yes == self@.blocks.contains((by@, whom@)),
    {
        let ghost views = block_views(self.blocks@);
        let mut i: usize = 0;
        while i < self.blocks.len()
            invariant
                views == block_views(self.blocks@),
                i <= views.len(),
                forall|k: int| 0 <= k < i ==> views[k] != (by@, whom@),
            decreases views.len() - i,
        {
            assert(views[i as int] == self.blocks@[i as int]@);
            if self.blocks[i].by == *by && self.blocks[i].whom == *whom {
                assert(views.contains((by@, whom@)));
                return true;
            }
            i += 1;
        }
        false
    }

    /// Stops traffic between `by` and `whom`, at the wish of `by`.
    pub fn establish_block(&mut self, by: String, whom: String)
        requires
            old(self).wf(),
        ensures
            final(self).wf(),
            final(self)@ == old(self)@.with_block(by@, whom@),
    {
        proof {
            law_blocks_keep_consistency(self@, by@, whom@);
        }
        if self.has_block(&by, &whom) {
            assert(self@ =~= old(self)@.with_block(by@, whom@));
            return;
        }
        self.blocks.push(Block { by, whom });
        proof {
            let views = block_views(old(self).blocks@);
            assert(block_views(self.blocks@) =~= views.push((by@, whom@)));
            assert forall|pair: (Seq<char>, Seq<char>)|
                self@.blocks.contains(pair) <==> #[trigger] old(self)@.with_block(
                    by@,
                    whom@,
                ).blocks.contains(pair) by {
                lemma_push_has(views, (by@, whom@), pair);
            }
            assert(self@ =~= old(self)@.with_block(by@, whom@));
        }
    }

    /// Withdraws the wish of `by` that traffic with `whom` be stopped.
    pub fn lift_block(&mut self, by: &String, whom: &String)
        requires
            old(self).wf(),
        ensures
            final(self).wf(),
            final(self)@ == old(self)@.without_block(by@, whom@),
    {
        proof {
            law_blocks_keep_consistency(self@, by@, whom@);
        }
        let ghost gone = (by@, whom@);
        let ghost all = block_views(self.blocks@).to_set();
        let mut i: usize = 0;
        while i < self.blocks.len()
            invariant
                self.next_handle == old(self).next_handle,
                self.sessions == old(self).sessions,
                self.occupants == old(self).occupants,
                self.feeds == old(self).feeds,
                gone == (by@, whom@),
                i <= self.blocks@.len(),
                forall|k: int| 0 <= k < i ==> block_views(self.blocks@)[k] != gone,
                block_views(self.blocks@).to_set().remove(gone) == all.remove(gone),
            decreases self.blocks@.len() - i,
        {
            let ghost before = block_views(self.blocks@);
            assert(before[i as int] == self.blocks@[i as int]@);
            if self.blocks[i].by == *by && self.blocks[i].whom == *whom {
                self.blocks.remove(i);
                proof {
                    let after = block_views(self.blocks@);
                    assert(after =~= before.remove(i as int));
                    assert forall|pair: (Seq<char>, Seq<char>)| pair != gone implies (
                    #[trigger] after.contains(pair) <==> before.contains(pair)) by {
                        if after.contains(pair) {
                            let k = after.index_of(pair);
                            let j = if k < i { k } else { k + 1 };
                            assert(before[j] == pair);
                        }
                        if before.contains(pair) {
                            let k = before.index_of(pair);
                            let j = if k < i { k } else { k - 1 };
                            assert(after[j] == pair);
                        }
                    }
                    assert(after.to_set().remove(gone) =~= before.to_set().remove(gone));
                }
            } else {
                i += 1;
            }
        }
        proof {
            let views = block_views(self.blocks@);
            assert(!views.contains(gone));
            assert(views.to_set().remove(gone) =~= views.to_set());
            assert(self@ =~= old(self)@.without_block(by@, whom@));
        }
    }
}

/// Questions.
impl Switchboard {
    /// Whether some live session has joined as `user_id`.
    pub fn is_connected(&self, user_id: &String) -> (yes: bool)
        requires
            self.wf(),
        ensures
            yes == self@.is_connected(user_id@),
    {
        let mut i: usize = 0;
        while i < self.sessions.len()
            invariant
                self.wf(),
                i <= self.sessions@.len(),
                forall|k: int|
                    0 <= k < i ==> !(#[trigger] self.sessions@[k])@.is_user(user_id@),
            decreases self.sessions@.len() - i,
        {
            if self.sessions[i].is_user(user_id) {
                proof {
                    lemma_table_entry(self.sessions@, i as int);
                    assert(self@.is_live(self.sessions@[i as int].handle));
                }
                return true;
            }
            i += 1;
        }
        proof {
            assert forall|handle: u64| #[trigger] self@.is_live(handle) implies !(
            self@.sessions[handle].is_user(user_id@)) by {
                let k = choose|k: int| stands_at(self.sessions@, handle, k);
                assert(stands_at(self.sessions@, handle, k));
                lemma_table_entry(self.sessions@, k);
            }
        }
        false
    }

    /// The sessions that take part in a room, in order of joining.
    pub fn occupants_of(&self, room_id: &String) -> (list: Vec<u64>)
        requires
            self.wf(),
        ensures
            list@ == self@.occupants_of(room_id@),
    {
        let ghost all = self@.occupants;
        let ghost keep = in_room(room_id@);
        let mut list: Vec<u64> = Vec::new();
        let mut i: usize = 0;
        proof {
            lemma_filter_none(all, keep);
            assert(list@ =~= all.take(0).filter(keep).map_values(occupant_handle()));
        }
        while i < self.occupants.len()
            invariant
                all == self@.occupants,
                all == occupant_views(self.occupants@),
                keep == in_room(room_id@),
                i <= all.len(),
                list@ == all.take(i as int).filter(keep).map_values(occupant_handle()),
            decreases all.len() - i,
        {
            proof {
                lemma_filter_step(all, keep, i as int);
                assert(all[i as int] == self.occupants@[i as int]@);
            }
            if self.occupants[i].room_id == *room_id {
                list.push(self.occupants[i].handle);
                assert(list@ =~= all.take(i as int + 1).filter(keep).map_values(occupant_handle()));
            }
            i += 1;
        }
        assert(all.take(i as int) =~= all);
        list
    }

    /// The users who take part in a room, each once, in order of joining.
    pub fn get_users(&self, room_id: &String) -> (users: Vec<String>)
        requires
            self.wf(),
        ensures
            texts(users@) == self@.users_of(room_id@),
    {
        let occupants: Vec<u64> = self.occupants_of(room_id);
        let ghost names = occupants@.map_values(self@.user_id_of());
        let mut users: Vec<String> = Vec::new();
        let mut i: usize = 0;
        assert(texts(users@) =~= distinct(names.take(0)));
        while i < occupants.len()
            invariant
                self.wf(),
                occupants@ == self@.occupants_of(room_id@),
                names == occupants@.map_values(self@.user_id_of()),
                i <= names.len(),
                texts(users@) == distinct(names.take(i as int)),
            decreases names.len() - i,
        {
            proof {
                assert(names.take(i as int + 1).drop_last() =~= names.take(i as int));
                lemma_occupant_is_joined(self@, room_id@, i as int);
            }
            if let Some(session) = self.session(occupants[i]) {
                if let Some(joined) = &session.join_state {
                    assert(names[i as int] == joined.user_id@);
                    if !holds_text(&users, &joined.user_id) {
                        let ghost before = users@;
                        users.push(joined.user_id.clone());
                        assert(texts(users@) =~= texts(before).push(joined.user_id@));
                    }
                }
            }
            i += 1;
        }
        assert(names.take(i as int) =~= names);
        users
    }

    /// The sessions of one user in one room, in order of connection.
    pub fn get_sessions(&self, room_id: &String, user_id: &String) -> (list: Vec<u64>)
        requires
            self.wf(),
        ensures
            list@ == self@.sessions_of(room_id@, user_id@),
    {
        let ghost all = self@.connected;
        let ghost keep = self@.joined_as(room_id@, user_id@);
        let mut list: Vec<u64> = Vec::new();
        let mut i: usize = 0;
        proof {
            lemma_filter_none(all, keep);
        }
        while i < self.sessions.len()
            invariant
                self.wf(),
                all == self@.connected,
                all == handles(self.sessions@),
                keep == self@.joined_as(room_id@, user_id@),
                i <= all.len(),
                list@ == all.take(i as int).filter(keep),
            decreases all.len() - i,
        {
            proof {
                lemma_filter_step(all, keep, i as int);
                lemma_table_entry(self.sessions@, i as int);
            }
            if self.sessions[i].is_in(room_id) && self.sessions[i].is_user(user_id) {
                list.push(self.sessions[i].handle);
            }
            i += 1;
        }
        assert(all.take(i as int) =~= all);
        list
    }

    /// The session that sends the media of `user_id`, if there is one.
    pub fn get_publisher(&self, user_id: &String) -> (publisher: Option<u64>)
        requires
            self.wf(),
        ensures
            publisher == self@.publisher_of(user_id@),
    {
        let ghost all = self@.connected;
        let ghost keep = self@.publishing(user_id@);
        let mut i: usize = 0;
        proof {
            lemma_filter_none(all, keep);
        }
        while i < self.sessions.len()
            invariant
                self.wf(),
                all == self@.connected,
                all == handles(self.sessions@),
                keep == self@.publishing(user_id@),
                i <= all.len(),
                all.take(i as int).filter(keep) == Seq::<u64>::empty(),
            decreases all.len() - i,
        {
            proof {
                lemma_filter_step(all, keep, i as int);
                lemma_table_entry(self.sessions@, i as int);
            }
            if self.sessions[i].publishes_for(user_id) {
                proof {
                    lemma_filter_prefix(all, keep, i as int + 1);
                    let found = all.take(i as int + 1).filter(keep);
                    assert(found =~= seq![self.sessions@[i as int].handle]);
                    assert(all.filter(keep)[0] == found[0]);
                }
                return Some(self.sessions[i].handle);
            }
            i += 1;
        }
        assert(all.take(i as int) =~= all);
        None
    }

    /// Whether traffic between two sessions is blocked.
    fn sessions_blocked(&self, one: u64, other: u64) -> (yes: bool)
        requires
            self.wf(),
        ensures
            yes == self@.sessions_blocked(one, other),
    {
        match (self.session(one), self.session(other)) {
            (Some(a), Some(b)) => match (&a.join_state, &b.join_state) {
                (Some(x), Some(y)) => self.has_block(&x.user_id, &y.user_id) || self.has_block(
                    &y.user_id,
                    &x.user_id,
                ),
                _ => false,
            },
            _ => false,
        }
    }

    /// Everyone who subscribes to a session, blocked or not.
    pub fn subscribers_to(&self, handle: u64) -> (list: Vec<u64>)
        requires
            self.wf(),
        ensures
            list@ == self@.subscribers_to(handle),
    {
        let ghost all = self@.feeds;
        let ghost keep = feed_from(handle);
        let mut list: Vec<u64> = Vec::new();
        let mut i: usize = 0;
        proof {
            lemma_filter_none(all, keep);
            assert(list@ =~= all.take(0).filter(keep).map_values(feed_subscriber()));
        }
        while i < self.feeds.len()
            invariant
                self.wf(),
                all == self@.feeds,
                all == self.feeds@,
                keep == feed_from(handle),
                i <= all.len(),
                list@ == all.take(i as int).filter(keep).map_values(feed_subscriber()),
            decreases all.len() - i,
        {
            let feed: Feed = self.feeds[i];
            proof {
                lemma_filter_step(all, keep, i as int);
            }
            if feed.publisher == handle {
                list.push(feed.subscriber);
                assert(list@ =~= all.take(i as int + 1).filter(keep).map_values(feed_subscriber()));
            }
            i += 1;
        }
        assert(all.take(i as int) =~= all);
        list
    }

    /// Where the media of a session goes.
    pub fn media_recipients_for(&self, handle: u64) -> (list: Vec<u64>)
        requires
            self.wf(),
        ensures
            list@ == self@.media_recipients_for(handle),
    {
        let ghost all = self@.feeds;
        let ghost keep = self@.open_feed_from(handle);
        let mut list: Vec<u64> = Vec::new();
        let mut i: usize = 0;
        proof {
            lemma_filter_none(all, keep);
            assert(list@ =~= all.take(0).filter(keep).map_values(feed_subscriber()));
        }
        while i < self.feeds.len()
            invariant
                self.wf(),
                all == self@.feeds,
                all == self.feeds@,
                keep == self@.open_feed_from(handle),
                i <= all.len(),
                list@ == all.take(i as int).filter(keep).map_values(feed_subscriber()),
            decreases all.len() - i,
        {
            let feed: Feed = self.feeds[i];
            proof {
                lemma_filter_step(all, keep, i as int);
            }
            if feed.publisher == handle && !self.sessions_blocked(feed.publisher, feed.subscriber) {
                list.push(feed.subscriber);
                assert(list@ =~= all.take(i as int + 1).filter(keep).map_values(feed_subscriber()));
            }
            i += 1;
        }
        assert(all.take(i as int) =~= all);
        list
    }

    /// Where the media that a session receives comes from.
    pub fn media_senders_to(&self, handle: u64) -> (list: Vec<u64>)
        requires
            self.wf(),
        ensures
            list@ == self@.media_senders_to(handle),
    {
        let ghost all = self@.feeds;
        let ghost keep = self@.open_feed_to(handle);
        let mut list: Vec<u64> = Vec::new();
        let mut i: usize = 0;
        proof {
            lemma_filter_none(all, keep);
            assert(list@ =~= all.take(0).filter(keep).map_values(feed_publisher()));
        }
        while i < self.feeds.len()
            invariant
                self.wf(),
                all == self@.feeds,
                all == self.feeds@,
                keep == self@.open_feed_to(handle),
                i <= all.len(),
                list@ == all.take(i as int).filter(keep).map_values(feed_publisher()),
            decreases all.len() - i,
        {
            let feed: Feed = self.feeds[i];
            proof {
                lemma_filter_step(all, keep, i as int);
            }
            if feed.subscriber == handle && !self.sessions_blocked(feed.publisher, feed.subscriber) {
                list.push(feed.publisher);
                assert(list@ =~= all.take(i as int + 1).filter(keep).map_values(feed_publisher()));
            }
            i += 1;
        }
        assert(all.take(i as int) =~= all);
        list
    }

    /// Where the data of a session goes: to the rest of its room, as far as nothing is blocked.
    pub fn data_recipients_for(&self, handle: u64) -> (list: Vec<u64>)
        requires
            self.wf(),
        ensures
            list@ == self@.data_recipients_for(handle),
    {
        let mut list: Vec<u64> = Vec::new();
        if let Some(session) = self.session(handle) {
            if let Some(joined) = &session.join_state {
                let occupants: Vec<u64> = self.occupants_of(&joined.room_id);
                let ghost keep = self@.reachable_from(handle);
                let mut i: usize = 0;
                proof {
                    lemma_filter_none(occupants@, keep);
                }
                while i < occupants.len()
                    invariant
                        self.wf(),
                        keep == self@.reachable_from(handle),
                        i <= occupants@.len(),
                        list@ == occupants@.take(i as int).filter(keep),
                    decreases occupants@.len() - i,
                {
                    proof {
                        lemma_filter_step(occupants@, keep, i as int);
                    }
                    let other: u64 = occupants[i];
                    if other != handle && !self.sessions_blocked(handle, other) {
                        list.push(other);
                    }
                    i += 1;
                }
                assert(occupants@.take(i as int) =~= occupants@);
            }
        }
        list
    }
}

/// Whether a list of strings holds one.
fn holds_text(list: &Vec<String>, wanted: &String) -> (yes: bool)
    ensures
        yes == texts(list@).contains(wanted@),
{
    let mut i: usize = 0;
    while i < list.len()
        invariant
            i <= list@.len(),
            forall|k: int| 0 <= k < i ==> (#[trigger] list@[k])@ != wanted@,
        decreases list@.len() - i,
    {
        if list[i] == *wanted {
            assert(texts(list@)[i as int] == wanted@);
            return true;
        }
        i += 1;
    }
    false
}

/// Every occupant of a room is a live session that has joined it.
pub proof fn lemma_occupant_is_joined(board: SwitchboardView, room_id: Seq<char>, i: int)
    requires
        board.consistent(),
        0 <= i < board.occupants_of(room_id).len(),
    ensures
        board.is_live(board.occupants_of(room_id)[i]),
        board.sessions[board.occupants_of(room_id)[i]].is_in(room_id),
        board.sessions[board.occupants_of(room_id)[i]].subscription is Some,
        board.sessions[board.occupants_of(room_id)[i]].subscription->0.data,
{
    let kept = board.occupants.filter(in_room(room_id));
    lemma_filter_has(board.occupants, in_room(room_id));
    assert(kept.contains(kept[i]));
    let k = board.occupants.index_of(kept[i]);
    assert(board.occupant_in_order(board.occupants[k]));
}

} // verus!
