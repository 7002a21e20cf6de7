//! Who is sent what.
use crate::model::SwitchboardView;
use crate::outbound::{action_views, Action, ActionView, Event, EventView};
use crate::seqs::{lemma_filter_none, lemma_filter_step};
use crate::sessions::SessionView;
use crate::switchboard::Switchboard;
use vstd::prelude::*;

verus! {

/// What a session can have subscribed to besides media.
#[derive(Clone, Copy, Debug, PartialEq, Eq, Structural)]
pub enum Channel {
    /// Messages from other users.
    Data,
    /// Room events.
    Notifications,
}

impl SwitchboardView {
    /// Whether a session belongs to a user and has subscribed to a channel.
    pub open spec fn listens(self, channel: Channel, handle: u64) -> bool {
        &&& self.is_live(handle)
        &&& self.sessions[handle].join_state is Some
        &&& self.sessions[handle].subscription is Some
        &&& match channel {
            Channel::Data => self.sessions[handle].subscription->0.data,
            Channel::Notifications => self.sessions[handle].subscription->0.notifications,
        }
    }

    /// Picks the sessions of one user that listen to a channel.
    pub open spec fn listeners_of(self, channel: Channel, user_id: Seq<char>) -> spec_fn(
        u64,
    ) -> bool {
        |handle: u64| self.listens(channel, handle) && self.sessions[handle].is_user(user_id)
    }

    /// Picks the sessions of everyone but one user that listen to a channel.
    pub open spec fn listeners_except(self, channel: Channel, user_id: Seq<char>) -> spec_fn(
        u64,
    ) -> bool {
        |handle: u64| self.listens(channel, handle) && !self.sessions[handle].is_user(user_id)
    }
}

/// Telling one session of an event.
pub open spec fn notice(event: EventView) -> spec_fn(u64) -> ActionView {
    |handle: u64| ActionView::Notify { handle, event }
}

/// Telling sessions of an event, one after the other.
pub open spec fn notices(event: EventView, handles: Seq<u64>) -> Seq<ActionView> {
    handles.map_values(notice(event))
}

/// Offering media to one session.
pub open spec fn media_offer(sdp: Seq<char>) -> spec_fn(u64) -> ActionView {
    |handle: u64| ActionView::Offer { handle, sdp }
}

/// A picture loss indication to one session.
pub open spec fn pli() -> spec_fn(u64) -> ActionView {
    |handle: u64| ActionView::Pli { handle }
}

/// The switchboard after full frames have been asked of some sessions, one after the other.
pub open spec fn after_firs(board: SwitchboardView, handles: Seq<u64>) -> SwitchboardView
    decreases handles.len(),
{
    if handles.len() == 0 {
        board
    } else {
        after_firs(board, handles.drop_last()).with_fir(handles.last())
    }
}

/// Asking a session for a full frame. The request is made from the low bits of its number.
pub open spec fn fir(board: SwitchboardView, handle: u64) -> ActionView {
    ActionView::Fir { handle, seq: board.sessions[handle].fir_seq as i32 }
}

/// Asking sessions for full frames, one after the other.
pub open spec fn firs(board: SwitchboardView, handles: Seq<u64>) -> Seq<ActionView>
    decreases handles.len(),
{
    if handles.len() == 0 {
        Seq::empty()
    } else {
        firs(board, handles.drop_last()).push(
            fir(after_firs(board, handles.drop_last()), handles.last()),
        )
    }
}

/// Asking for full frames changes nothing but the numbers of the requests.
pub proof fn law_firs_change_only_numbers(board: SwitchboardView, handles: Seq<u64>)
    requires
        forall|i: int| 0 <= i < handles.len() ==> board.is_live(#[trigger] handles[i]),
    ensures
        after_firs(board, handles) == (SwitchboardView {
            sessions: after_firs(board, handles).sessions,
            ..board
        }),
        forall|handle: u64| #[trigger]
            after_firs(board, handles).is_live(handle) <==> board.is_live(handle),
        forall|handle: u64| #[trigger]
            board.is_live(handle) ==> after_firs(board, handles).sessions[handle] == (
            SessionView {
                fir_seq: after_firs(board, handles).sessions[handle].fir_seq,
                ..board.sessions[handle]
            }),
    decreases handles.len(),
{
    if handles.len() > 0 {
        let front = handles.drop_last();
        assert forall|i: int| 0 <= i < front.len() implies board.is_live(#[trigger] front[i]) by {
            assert(front[i] == handles[i]);
        }
        law_firs_change_only_numbers(board, front);
        assert(board.is_live(handles[handles.len() - 1]));
        assert(after_firs(board, front).is_live(handles.last()));
        assert forall|handle: u64| #[trigger]
            after_firs(board, handles).is_live(handle) <==> board.is_live(handle) by {
            assert(after_firs(board, front).is_live(handle) <==> board.is_live(handle));
        }
    }
}

/// Those of `everyone` that belong to one user and listen to a channel.
fn select_user(
    board: &Switchboard,
    channel: Channel,
    target: &String,
    everyone: &Vec<u64>,
) -> (receivers: Vec<u64>)
    requires
        board.wf(),
    ensures
        receivers@ == everyone@.filter(board@.listeners_of(channel, target@)),
{
    let ghost keep = board@.listeners_of(channel, target@);
    let mut receivers: Vec<u64> = Vec::new();
    let mut i: usize = 0;
    proof {
        lemma_filter_none(everyone@, keep);
    }
    while i < everyone.len()
        invariant
            board.wf(),
            keep == board@.listeners_of(channel, target@),
            i <= everyone@.len(),
            receivers@ == everyone@.take(i as int).filter(keep),
        decreases everyone@.len() - i,
    {
        proof {
            lemma_filter_step(everyone@, keep, i as int);
        }
        let handle: u64 = everyone[i];
        if listens(board, channel, handle) && is_user(board, handle, target) {
            receivers.push(handle);
        }
        i += 1;
    }
    assert(everyone@.take(i as int) =~= everyone@);
    receivers
}

/// Those of `everyone` that belong to any user but one and listen to a channel.
fn select_except(
    board: &Switchboard,
    channel: Channel,
    myself: &String,
    everyone: &Vec<u64>,
) -> (receivers: Vec<u64>)
    requires
        board.wf(),
    ensures
        receivers@ == everyone@.filter(board@.listeners_except(channel, myself@)),
{
    let ghost keep = board@.listeners_except(channel, myself@);
    let mut receivers: Vec<u64> = Vec::new();
    let mut i: usize = 0;
    proof {
        lemma_filter_none(everyone@, keep);
    }
    while i < everyone.len()
        invariant
            board.wf(),
            keep == board@.listeners_except(channel, myself@),
            i <= everyone@.len(),
            receivers@ == everyone@.take(i as int).filter(keep),
        decreases everyone@.len() - i,
    {
        proof {
            lemma_filter_step(everyone@, keep, i as int);
        }
        let handle: u64 = everyone[i];
        if listens(board, channel, handle) && !is_user(board, handle, myself) {
            receivers.push(handle);
        }
        i += 1;
    }
    assert(everyone@.take(i as int) =~= everyone@);
    receivers
}

/// Whether a session belongs to a user and has subscribed to a channel.
fn listens(board: &Switchboard, channel: Channel, handle: u64) -> (yes: bool)
    requires
        board.wf(),
    ensures
        yes == board@.listens(channel, handle),
{
    match board.session(handle) {
        Some(session) => match (&session.subscription, &session.join_state) {
            (Some(subscription), Some(_)) => match channel {
                Channel::Data => subscription.data,
                Channel::Notifications => subscription.notifications,
            },
            _ => false,
        },
        None => false,
    }
}

/// Whether a session is live and has joined as a user.
fn is_user(board: &Switchboard, handle: u64, user_id: &String) -> (yes: bool)
    requires
        board.wf(),
    ensures
        yes == (board@.is_live(handle) && board@.sessions[handle].is_user(user_id@)),
{
    match board.session(handle) {
        Some(session) => session.is_user(user_id),
        None => false,
    }
}

/// Sends data to those of `everyone` that belong to `target` and receive data.
pub fn send_data_user(
    board: &Switchboard,
    event: &Event,
    target: &String,
    everyone: &Vec<u64>,
) -> (actions: Vec<Action>)
    requires
        board.wf(),
    ensures
        action_views(actions@) == notices(
            event@,
            everyone@.filter(board@.listeners_of(Channel::Data, target@)),
        ),
{
    send_message(event, &select_user(board, Channel::Data, target, everyone))
}

/// Sends data to those of `everyone` that do not belong to `myself` and receive data.
pub fn send_data_except(
    board: &Switchboard,
    event: &Event,
    myself: &String,
    everyone: &Vec<u64>,
) -> (actions: Vec<Action>)
    requires
        board.wf(),
    ensures
        action_views(actions@) == notices(
            event@,
            everyone@.filter(board@.listeners_except(Channel::Data, myself@)),
        ),
{
    send_message(event, &select_except(board, Channel::Data, myself, everyone))
}

/// Notifies those of `everyone` that belong to `target` and want to be notified.
pub fn notify_user(
    board: &Switchboard,
    event: &Event,
    target: &String,
    everyone: &Vec<u64>,
) -> (actions: Vec<Action>)
    requires
        board.wf(),
    ensures
        action_views(actions@) == notices(
            event@,
            everyone@.filter(board@.listeners_of(Channel::Notifications, target@)),
        ),
{
    send_message(event, &select_user(board, Channel::Notifications, target, everyone))
}

/// Notifies those of `everyone` that do not belong to `myself` and want to be notified.
pub fn notify_except(
    board: &Switchboard,
    event: &Event,
    myself: &String,
    everyone: &Vec<u64>,
) -> (actions: Vec<Action>)
    requires
        board.wf(),
    ensures
        action_views(actions@) == notices(
            event@,
            everyone@.filter(board@.listeners_except(Channel::Notifications, myself@)),
        ),
{
    send_message(event, &select_except(board, Channel::Notifications, myself, everyone))
}

/// Sends an event to each of some sessions.
pub fn send_message(event: &Event, sessions: &Vec<u64>) -> (actions: Vec<Action>)
    ensures
        action_views(actions@) == notices(event@, sessions@),
{
    let mut actions: Vec<Action> = Vec::new();
    let mut i: usize = 0;
    while i < sessions.len()
        invariant
            i <= sessions@.len(),
            actions@.len() == i,
            forall|k: int|
                0 <= k < i ==> (#[trigger] actions@[k])@ == notice(event@)(sessions@[k]),
        decreases sessions@.len() - i,
    {
        actions.push(Action::Notify { handle: sessions[i], event: event.clone() });
        i += 1;
    }
    assert(action_views(actions@) =~= notices(event@, sessions@));
    actions
}

/// Offers the same media to each of some sessions.
pub fn send_offer(sdp: &String, sessions: &Vec<u64>) -> (actions: Vec<Action>)
    ensures
        action_views(actions@) == sessions@.map_values(media_offer(sdp@)),
{
    let mut actions: Vec<Action> = Vec::new();
    let mut i: usize = 0;
    while i < sessions.len()
        invariant
            i <= sessions@.len(),
            actions@.len() == i,
            forall|k: int|
                0 <= k < i ==> (#[trigger] actions@[k])@ == media_offer(sdp@)(sessions@[k]),
        decreases sessions@.len() - i,
    {
        actions.push(Action::Offer { handle: sessions[i], sdp: sdp.clone() });
        i += 1;
    }
    assert(action_views(actions@) =~= sessions@.map_values(media_offer(sdp@)));
    actions
}

/// Sends a picture loss indication to each of some publishers.
pub fn send_pli(publishers: &Vec<u64>) -> (actions: Vec<Action>)
    ensures
        action_views(actions@) == publishers@.map_values(pli()),
{
    let mut actions: Vec<Action> = Vec::new();
    let mut i: usize = 0;
    while i < publishers.len()
        invariant
            i <= publishers@.len(),
            actions@.len() == i,
            forall|k: int| 0 <= k < i ==> (#[trigger] actions@[k])@ == pli()(publishers@[k]),
        decreases publishers@.len() - i,
    {
        actions.push(Action::Pli { handle: publishers[i] });
        i += 1;
    }
    assert(action_views(actions@) =~= publishers@.map_values(pli()));
    actions
}

/// Asks each of some publishers for a full frame, each time with the publisher's next number.
pub fn send_fir(board: &mut Switchboard, publishers: &Vec<u64>) -> (actions: Vec<Action>)
    requires
        old(board).wf(),
        forall|i: int| 0 <= i < publishers@.len() ==> old(board)@.is_live(#[trigger] publishers@[i]),
    ensures
        final(board).wf(),
        final(board)@ == after_firs(old(board)@, publishers@),
        action_views(actions@) == firs(old(board)@, publishers@),
{
    let mut actions: Vec<Action> = Vec::new();
    let mut i: usize = 0;
    assert(publishers@.take(0) =~= Seq::<u64>::empty());
    assert(action_views(actions@) =~= firs(old(board)@, publishers@.take(0)));
    while i < publishers.len()
        invariant
            board.wf(),
            forall|k: int|
                0 <= k < publishers@.len() ==> old(board)@.is_live(#[trigger] publishers@[k]),
            i <= publishers@.len(),
            board@ == after_firs(old(board)@, publishers@.take(i as int)),
            action_views(actions@) == firs(old(board)@, publishers@.take(i as int)),
        decreases publishers@.len() - i,
    {
        let handle: u64 = publishers[i];
        let ghost front = publishers@.take(i as int);
        let ghost sent = actions@;
        proof {
            assert(publishers@.take(i as int + 1).drop_last() =~= front);
            assert forall|k: int| 0 <= k < front.len() implies old(board)@.is_live(
                #[trigger] front[k],
            ) by {
                assert(front[k] == publishers@[k]);
            }
            law_firs_change_only_numbers(old(board)@, front);
            assert(board@.is_live(handle));
        }
        let seq: isize = board.take_fir_seq(handle);
        actions.push(Action::Fir { handle, seq: #[verifier::truncate] (seq as i32) });
        assert(action_views(actions@) =~= action_views(sent).push(actions@.last()@));
        i += 1;
    }
    assert(publishers@.take(i as int) =~= publishers@);
    actions
}

} // verus!
