//! Where media, control packets and data go.
use crate::delivery::{after_firs, firs, pli, send_fir, send_pli};
use crate::meaning::{
    law_data_passes_unless_the_two_are_blocked, law_media_passes_unless_the_two_are_blocked,
};
use crate::model::{Feed, OccupantView, SwitchboardView};
use crate::outbound::{action_views, Action, ActionView};
use crate::seqs::lemma_filter_has;
use crate::switchboard::Switchboard;
use vstd::prelude::*;

verus! {

/// Passing a media packet on to one session.
pub open spec fn rtp_to(video: i32) -> spec_fn(u64) -> ActionView {
    |handle: u64| ActionView::RelayRtp { handle, video }
}

/// Passing a control packet on to one session.
pub open spec fn rtcp_to(video: i32) -> spec_fn(u64) -> ActionView {
    |handle: u64| ActionView::RelayRtcp { handle, video }
}

/// Passing data on to one session.
pub open spec fn data_to() -> spec_fn(u64) -> ActionView {
    |handle: u64| ActionView::RelayData { handle }
}

/// Whoever sends media to a session is live.
pub proof fn lemma_senders_are_live(board: SwitchboardView, handle: u64)
    requires
        board.consistent(),
    ensures
        forall|i: int|
            0 <= i < board.media_senders_to(handle).len() ==> board.is_live(
                #[trigger] board.media_senders_to(handle)[i],
            ),
{
    let kept = board.feeds.filter(board.open_feed_to(handle));
    lemma_filter_has(board.feeds, board.open_feed_to(handle));
    assert forall|i: int| 0 <= i < board.media_senders_to(handle).len() implies board.is_live(
        #[trigger] board.media_senders_to(handle)[i],
    ) by {
        assert(kept.contains(kept[i]));
        let k = board.feeds.index_of(kept[i]);
        assert(board.feed_in_order(board.feeds[k]));
    }
}

/// Media can now reach a session: full frames are asked of everyone who sends to it.
pub fn setup_media(board: &mut Switchboard, handle: u64) -> (actions: Vec<Action>)
    requires
        old(board).wf(),
    ensures
        final(board).wf(),
        final(board)@ == after_firs(old(board)@, old(board)@.media_senders_to(handle)),
        action_views(actions@) == firs(old(board)@, old(board)@.media_senders_to(handle)),
{
    let senders: Vec<u64> = board.media_senders_to(handle);
    proof {
        lemma_senders_are_live(board@, handle);
    }
    send_fir(board, &senders)
}

/// A media packet has come in from a session: it goes on to everyone who receives its media.
pub fn incoming_rtp(board: &Switchboard, handle: u64, video: i32) -> (actions: Vec<Action>)
    requires
        board.wf(),
    ensures
        action_views(actions@) == board@.media_recipients_for(handle).map_values(rtp_to(video)),
        forall|other: u64| #[trigger]
            action_views(actions@).contains(ActionView::RelayRtp { handle: other, video })
                <==> board@.feeds.contains(Feed { publisher: handle, subscriber: other }) && !(board@.sessions[handle].join_state is Some
                && board@.sessions[other].join_state is Some && (board@.blocks.contains(
                (
                    board@.sessions[handle].join_state->0.user_id,
                    board@.sessions[other].join_state->0.user_id,
                ),
            ) || board@.blocks.contains(
                (
                    board@.sessions[other].join_state->0.user_id,
                    board@.sessions[handle].join_state->0.user_id,
                ),
            ))),
{
    let recipients: Vec<u64> = board.media_recipients_for(handle);
    let mut actions: Vec<Action> = Vec::new();
    let mut i: usize = 0;
    while i < recipients.len()
        invariant
            i <= recipients@.len(),
            actions@.len() == i,
            forall|k: int|
                0 <= k < i ==> (#[trigger] actions@[k])@ == rtp_to(video)(recipients@[k]),
        decreases recipients@.len() - i,
    {
        actions.push(Action::RelayRtp { handle: recipients[i], video });
        i += 1;
    }
    assert(action_views(actions@) =~= recipients@.map_values(rtp_to(video)));
    assert forall|other: u64| #[trigger]
        action_views(actions@).contains(ActionView::RelayRtp { handle: other, video })
            <==> board@.feeds.contains(Feed { publisher: handle, subscriber: other }) && !(board@.sessions[handle].join_state is Some
                && board@.sessions[other].join_state is Some && (board@.blocks.contains(
                (
                    board@.sessions[handle].join_state->0.user_id,
                    board@.sessions[other].join_state->0.user_id,
                ),
            ) || board@.blocks.contains(
                (
                    board@.sessions[other].join_state->0.user_id,
                    board@.sessions[handle].join_state->0.user_id,
                ),
            ))) by {
        law_media_passes_unless_the_two_are_blocked(
            board@,
            handle,
            video,
            ActionView::RelayRtp { handle: other, video },
        );
    }
    actions
}

/// The switchboard after a control packet, and what the gateway is asked to do. On the video
/// stream, a picture loss indication goes to everyone who sends to the session, and a full intra
/// request is made anew for each of them; anything else goes on to everyone who receives its media.
pub open spec fn rtcp_step(
    board: SwitchboardView,
    handle: u64,
    video: i32,
    has_pli: bool,
    has_fir: bool,
) -> (SwitchboardView, Seq<ActionView>) {
    let senders = board.media_senders_to(handle);
    if video == 1 && has_pli {
        (board, senders.map_values(pli()))
    } else if video == 1 && has_fir {
        (after_firs(board, senders), firs(board, senders))
    } else {
        (board, board.media_recipients_for(handle).map_values(rtcp_to(video)))
    }
}

/// A control packet has come in from a session. `has_pli` and `has_fir` say whether it holds a
/// picture loss indication or a full intra request.
pub fn incoming_rtcp(
    board: &mut Switchboard,
    handle: u64,
    video: i32,
    has_pli: bool,
    has_fir: bool,
) -> (actions: Vec<Action>)
    requires
        old(board).wf(),
    ensures
        final(board).wf(),
        ({
            let step = rtcp_step(old(board)@, handle, video, has_pli, has_fir);
            &&& final(board)@ == step.0
            &&& action_views(actions@) == step.1
        }),
{
    if video == 1 && has_pli {
        let senders: Vec<u64> = board.media_senders_to(handle);
        return send_pli(&senders);
    }
    if video == 1 && has_fir {
        let senders: Vec<u64> = board.media_senders_to(handle);
        proof {
            lemma_senders_are_live(board@, handle);
        }
        return send_fir(board, &senders);
    }
    let recipients: Vec<u64> = board.media_recipients_for(handle);
    let mut actions: Vec<Action> = Vec::new();
    let mut i: usize = 0;
    while i < recipients.len()
        invariant
            i <= recipients@.len(),
            actions@.len() == i,
            forall|k: int|
                0 <= k < i ==> (#[trigger] actions@[k])@ == rtcp_to(video)(recipients@[k]),
        decreases recipients@.len() - i,
    {
        actions.push(Action::RelayRtcp { handle: recipients[i], video });
        i += 1;
    }
    assert(action_views(actions@) =~= recipients@.map_values(rtcp_to(video)));
    actions
}

/// Data has come in from a session: it goes on to the rest of its room.
pub fn incoming_data(board: &Switchboard, handle: u64) -> (actions: Vec<Action>)
    requires
        board.wf(),
    ensures
        action_views(actions@) == board@.data_recipients_for(handle).map_values(data_to()),
        forall|other: u64| #[trigger]
            action_views(actions@).contains(ActionView::RelayData { handle: other }) <==> other != handle && board@.is_live(handle)
                && board@.sessions[handle].join_state is Some && board@.occupants.contains(
                OccupantView {
                    room_id: board@.sessions[handle].join_state->0.room_id,
                    handle: other,
                },
            ) && !board@.blocks.contains(
                (
                    board@.sessions[handle].join_state->0.user_id,
                    board@.sessions[other].join_state->0.user_id,
                ),
            ) && !board@.blocks.contains(
                (
                    board@.sessions[other].join_state->0.user_id,
                    board@.sessions[handle].join_state->0.user_id,
                ),
            ),
{
    let recipients: Vec<u64> = board.data_recipients_for(handle);
    let mut actions: Vec<Action> = Vec::new();
    let mut i: usize = 0;
    while i < recipients.len()
        invariant
            i <= recipients@.len(),
            actions@.len() == i,
            forall|k: int| 0 <= k < i ==> (#[trigger] actions@[k])@ == data_to()(recipients@[k]),
        decreases recipients@.len() - i,
    {
        actions.push(Action::RelayData { handle: recipients[i] });
        i += 1;
    }
    assert(action_views(actions@) =~= recipients@.map_values(data_to()));
    assert forall|other: u64| #[trigger]
        action_views(actions@).contains(ActionView::RelayData { handle: other }) <==> other != handle && board@.is_live(handle)
                && board@.sessions[handle].join_state is Some && board@.occupants.contains(
                OccupantView {
                    room_id: board@.sessions[handle].join_state->0.room_id,
                    handle: other,
                },
            ) && !board@.blocks.contains(
                (
                    board@.sessions[handle].join_state->0.user_id,
                    board@.sessions[other].join_state->0.user_id,
                ),
            ) && !board@.blocks.contains(
                (
                    board@.sessions[other].join_state->0.user_id,
                    board@.sessions[handle].join_state->0.user_id,
                ),
            ) by {
        if board@.is_live(handle) {
            law_data_passes_unless_the_two_are_blocked(
                board@,
                handle,
                ActionView::RelayData { handle: other },
            );
        }
    }
    actions
}

} // verus!
