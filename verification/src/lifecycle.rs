//! How the plugin and its sessions begin and end.
use crate::config::Config;
use crate::delivery::{notices, notify_except, Channel};
use crate::model::SwitchboardView;
use crate::outbound::{action_views, Action, ActionView, Event, EventView, Payload, PayloadView};
use crate::switchboard::Switchboard;
use vstd::prelude::*;

verus! {

/// The code by which the gateway is told that something went wrong.
pub const FAILURE: i32 = -1;

/// The code by which the gateway is told that all is well.
pub const SUCCESS: i32 = 0;

/// Starts up: chooses the settings, and says whether the plugin can run. It can where the gateway
/// has handed over its callbacks; settings that cannot be read are replaced by the defaults.
pub fn init(loaded: Option<Config>, has_callbacks: bool) -> (started: (Config, i32))
    ensures
        loaded matches Some(config) ==> started.0 == config,
        loaded is None ==> started.0.auth_key is None && started.0.max_room_size == usize::MAX
            && started.0.max_ccu == usize::MAX,
        started.1 == if has_callbacks {
            SUCCESS
        } else {
            FAILURE
        },
{
    let config: Config = match loaded {
        Some(config) => config,
        None => Config::default(),
    };
    (
        config,
        if has_callbacks {
            SUCCESS
        } else {
            FAILURE
        },
    )
}

/// Takes in a session, if the gateway's own handle could be associated with it, and returns the
/// handle by which it goes from now on.
pub fn create_session(board: &mut Switchboard, associated: bool) -> (created: Result<u64, i32>)
    requires
        old(board).wf(),
        old(board)@.next_handle < u64::MAX,
    ensures
        final(board).wf(),
        match created {
            Ok(handle) => associated && handle == old(board)@.next_handle && final(board)@
                == old(board)@.with_connection(),
            Err(code) => !associated && code == FAILURE && final(board)@ == old(board)@,
        },
{
    if associated {
        Ok(board.connect())
    } else {
        Err(FAILURE)
    }
}

/// Whom the gateway is asked to tell that a session has gone: the rest of its room, where it was
/// the last connection of its user.
pub open spec fn leave_notices(board: SwitchboardView, handle: u64) -> Seq<ActionView> {
    let after = board.without_session(handle);
    if !board.is_live(handle) || board.sessions[handle].join_state is None {
        Seq::empty()
    } else {
        let joined = board.sessions[handle].join_state->0;
        if after.is_connected(joined.user_id) {
            Seq::empty()
        } else {
            notices(
                EventView::Leave { user_id: joined.user_id, room_id: joined.room_id },
                after.occupants_of(joined.room_id).filter(
                    after.listeners_except(Channel::Notifications, joined.user_id),
                ),
            )
        }
    }
}

/// Ends a session; `None` stands for a gateway handle that no session belongs to.
pub fn destroy_session(board: &mut Switchboard, session: Option<u64>) -> (destroyed: Result<
    Vec<Action>,
    i32,
>)
    requires
        old(board).wf(),
    ensures
        final(board).wf(),
        match (session, destroyed) {
            (Some(handle), Ok(actions)) => final(board)@ == old(board)@.without_session(handle)
                && action_views(actions@) == leave_notices(old(board)@, handle),
            (None, Err(code)) => code == FAILURE && final(board)@ == old(board)@,
            _ => false,
        },
{
    let handle: u64 = match session {
        Some(handle) => handle,
        None => {
            return Err(FAILURE);
        },
    };
    let place: Option<(String, String)> = match board.session(handle) {
        Some(session) => match &session.join_state {
            Some(joined) => Some((joined.room_id.clone(), joined.user_id.clone())),
            None => None,
        },
        None => None,
    };
    board.remove_session(handle);
    let mut actions: Vec<Action> = Vec::new();
    assert(action_views(actions@) =~= Seq::<ActionView>::empty());
    if let Some((room_id, user_id)) = place {
        // if they are entirely disconnected, notify their roommates
        if !board.is_connected(&user_id) {
            let event: Event = Event::Leave { user_id: user_id.clone(), room_id: room_id.clone() };
            let occupants: Vec<u64> = board.occupants_of(&room_id);
            actions = notify_except(board, &event, &user_id, &occupants);
        }
    }
    Ok(actions)
}

/// What is to be told of a session to those who ask: nothing.
pub fn query_session() -> (answer: Payload)
    ensures
        answer@ == PayloadView::Empty,
{
    Payload::Empty
}

/// What an administrator's message is answered with: nothing.
pub fn handle_admin_message() -> (answer: Payload)
    ensures
        answer@ == PayloadView::Empty,
{
    Payload::Empty
}

/// What the gateway is told at once of a message that has come in.
#[derive(Debug, PartialEq, Eq)]
pub enum Receipt {
    /// The message is queued; its answer will come later.
    OkWait { hint: String },
    /// The message is dropped.
    Error { msg: String },
}

/// Acknowledges a message that has come in. It is queued if a session belongs to it.
pub fn handle_message(has_session: bool) -> (receipt: Receipt)
    ensures
        match receipt {
            Receipt::OkWait { hint } => has_session && hint@ == "Processing."@,
            Receipt::Error { msg } => !has_session && msg@ == "No handle associated with message!"@,
        },
{
    if has_session {
        Receipt::OkWait { hint: "Processing.".to_owned() }
    } else {
        Receipt::Error { msg: "No handle associated with message!".to_owned() }
    }
}

} // verus!
