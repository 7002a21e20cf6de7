//! How a request, a message and a session description together, is handled and answered.
use crate::auth::TokenCheck;
use crate::config::Config;
use crate::invariants::law_blocks_keep_consistency;
use crate::messages::{JsepKind, JsepKindView, MessageKind, MessageKindView};
use crate::model::SwitchboardView;
use crate::outbound::{
    action_views, Action, ActionView, Jsep, JsepView, MessageResponse, MessageResponseView, Reply,
    ReplyView,
};
use crate::signalling::{
    jsep_step, lemma_publisher_is_live, message_step, process_jsep, process_message,
};
use crate::switchboard::Switchboard;
use vstd::prelude::*;

verus! {

/// What came of the message in a request: a response, or the text of an error.
pub open spec fn message_result_view(result: Option<Result<MessageResponse, String>>) -> Option<
    Result<MessageResponseView, Seq<char>>,
> {
    match result {
        Some(Ok(response)) => Some(Ok(response@)),
        Some(Err(text)) => Some(Err(text@)),
        None => None,
    }
}

/// What came of the session description in a request: another one, or the text of an error.
pub open spec fn jsep_result_view(result: Option<Result<Jsep, String>>) -> Option<
    Result<JsepView, Seq<char>>,
> {
    match result {
        Some(Ok(jsep)) => Some(Ok(jsep@)),
        Some(Err(text)) => Some(Err(text@)),
        None => None,
    }
}

/// The answer to a request. An error in the message comes before one in the description; a
/// description that the description led to comes before one that the message led to.
pub open spec fn answer(
    msg: Option<Result<MessageResponseView, Seq<char>>>,
    jsep: Option<Result<JsepView, Seq<char>>>,
) -> (ReplyView, JsepView) {
    if let Some(Err(text)) = msg {
        (ReplyView::Failure { msg: text }, JsepView::Empty)
    } else if let Some(Err(text)) = jsep {
        (ReplyView::Failure { msg: text }, JsepView::Empty)
    } else {
        (
            ReplyView::Success {
                response: match msg {
                    Some(Ok(response)) => response.body,
                    _ => None,
                },
            },
            match (jsep, msg) {
                (Some(Ok(description)), _) => description,
                (_, Some(Ok(MessageResponseView { jsep: Some(offer), .. }))) => offer,
                _ => JsepView::Empty,
            },
        )
    }
}

/// Answers a request, given what came of its two parts.
pub fn answer_request(
    msg: Option<Result<MessageResponse, String>>,
    jsep: Option<Result<Jsep, String>>,
) -> (answered: (Reply, Jsep))
    ensures
        (answered.0@, answered.1@) == answer(message_result_view(msg), jsep_result_view(jsep)),
{
    match (msg, jsep) {
        (Some(Err(text)), _) => (Reply::Failure { msg: text }, Jsep::Empty),
        (_, Some(Err(text))) => (Reply::Failure { msg: text }, Jsep::Empty),
        (Some(Ok(response)), None) => {
            let offer: Jsep = match response.jsep {
                Some(offer) => offer,
                None => Jsep::Empty,
            };
            (Reply::Success { response: response.body }, offer)
        },
        (None, Some(Ok(description))) => (Reply::Success { response: None }, description),
        (Some(Ok(response)), Some(Ok(description))) => (
            Reply::Success { response: response.body },
            description,
        ),
        (None, None) => (Reply::Success { response: None }, Jsep::Empty),
    }
}

/// The message in a request, if there is one: what it says, or why it cannot be read.
pub open spec fn message_view(msg: Option<Result<MessageKind, String>>) -> Option<
    Result<MessageKindView, Seq<char>>,
> {
    match msg {
        Some(Ok(kind)) => Some(Ok(kind@)),
        Some(Err(text)) => Some(Err(text@)),
        None => None,
    }
}

/// The session description in a request, if there is one, or why it cannot be read.
pub open spec fn description_view(jsep: Option<Result<JsepKind, String>>) -> Option<
    Result<JsepKindView, Seq<char>>,
> {
    match jsep {
        Some(Ok(kind)) => Some(Ok(kind@)),
        Some(Err(text)) => Some(Err(text@)),
        None => None,
    }
}

/// Handling the message in a request: the switchboard afterwards, what came of it, and what the
/// gateway is asked to do.
pub open spec fn message_part(
    board: SwitchboardView,
    config: Config,
    from: u64,
    msg: Option<Result<MessageKindView, Seq<char>>>,
    check: Option<TokenCheck>,
) -> (SwitchboardView, Option<Result<MessageResponseView, Seq<char>>>, Seq<ActionView>) {
    match msg {
        Some(Ok(kind)) => {
            let step = message_step(board, config, from, kind, check);
            (
                step.board,
                match step.result {
                    Ok(response) => Some(Ok(response)),
                    Err(error) => Some(Err(error.message())),
                },
                step.actions,
            )
        },
        Some(Err(text)) => (board, Some(Err(text)), Seq::empty()),
        None => (board, None, Seq::empty()),
    }
}

/// Handling the session description in a request, likewise.
pub open spec fn description_part(
    board: SwitchboardView,
    from: u64,
    jsep: Option<Result<JsepKindView, Seq<char>>>,
) -> (SwitchboardView, Option<Result<JsepView, Seq<char>>>, Seq<ActionView>) {
    match jsep {
        Some(Ok(kind)) => {
            let step = jsep_step(board, from, kind);
            (step.board, Some(Ok(step.jsep)), step.actions)
        },
        Some(Err(text)) => (board, Some(Err(text)), Seq::empty()),
        None => (board, None, Seq::empty()),
    }
}

/// The switchboard after a request, and what the gateway is asked to do. The message is handled
/// before the description, whatever comes of it, and the answer goes out last. A request of a
/// session that is gone is dropped.
pub open spec fn request_step(
    board: SwitchboardView,
    config: Config,
    from: Option<u64>,
    txn: u64,
    msg: Option<Result<MessageKindView, Seq<char>>>,
    check: Option<TokenCheck>,
    jsep: Option<Result<JsepKindView, Seq<char>>>,
) -> (SwitchboardView, Seq<ActionView>) {
    if from is Some && board.is_live(from->0) {
        let handle = from->0;
        let (between, msg_result, first) = message_part(board, config, handle, msg, check);
        let (after, jsep_result, second) = description_part(between, handle, jsep);
        let (reply, description) = answer(msg_result, jsep_result);
        (
            after,
            first + second + seq![
                ActionView::Respond { handle, txn, reply, jsep: description },
            ],
        )
    } else {
        (board, Seq::empty())
    }
}

/// No message ends a session or begins one.
pub proof fn law_messages_keep_sessions(
    board: SwitchboardView,
    config: Config,
    from: u64,
    msg: MessageKindView,
    check: Option<TokenCheck>,
)
    requires
        board.consistent(),
        board.is_live(from),
    ensures
        message_step(board, config, from, msg, check).board.connected == board.connected,
        forall|handle: u64| #[trigger]
            message_step(board, config, from, msg, check).board.is_live(handle) <==> board.is_live(handle),
{
    let step = message_step(board, config, from, msg, check);
    if let MessageKindView::Unblock { whom } = msg {
        if board.sessions[from].join_state is Some {
            let lifted = board.without_block(board.sessions[from].join_state->0.user_id, whom);
            law_blocks_keep_consistency(
                board,
                board.sessions[from].join_state->0.user_id,
                whom,
            );
            if lifted.publisher_of(whom) is Some {
                lemma_publisher_is_live(lifted, whom);
                assert(board.is_live(lifted.publisher_of(whom)->0));
            }
        }
    }
    assert forall|handle: u64| #[trigger] step.board.is_live(handle) <==> board.is_live(handle) by {
    }
}

/// Handles one request and answers it. `from` is `None` where the sender is already gone; `check`
/// is what came of checking the message's token.
pub fn handle_message_async(
    board: &mut Switchboard,
    config: &Config,
    from: Option<u64>,
    txn: u64,
    msg: Option<Result<MessageKind, String>>,
    check: Option<TokenCheck>,
    jsep: Option<Result<JsepKind, String>>,
) -> (actions: Vec<Action>)
    requires
        old(board).wf(),
    ensures
        final(board).wf(),
        ({
            let step = request_step(
                old(board)@,
                *config,
                from,
                txn,
                message_view(msg),
                check,
                description_view(jsep),
            );
            &&& final(board)@ == step.0
            &&& action_views(actions@) == step.1
        }),
{
    let mut actions: Vec<Action> = Vec::new();
    assert(action_views(actions@) =~= Seq::<ActionView>::empty());
    let handle: u64 = match from {
        Some(handle) => handle,
        None => {
            return actions;
        },
    };
    if !board.is_live(handle) {
        return actions;
    }
    let ghost start = board@;
    // process the message first, because processing a description can cause full frames to be
    // asked of publishers that the message has brought in
    let msg_result: Option<Result<MessageResponse, String>> = match msg {
        Some(Ok(kind)) => {
            proof {
                law_messages_keep_sessions(start, *config, handle, kind@, check);
            }
            let (result, first) = process_message(board, config, handle, kind, check);
            actions = first;
            match result {
                Ok(response) => Some(Ok(response)),
                Err(error) => Some(Err(error.text())),
            }
        },
        Some(Err(text)) => Some(Err(text)),
        None => None,
    };
    let ghost part = message_part(start, *config, handle, message_view(msg), check);
    assert(board@ == part.0);
    assert(message_result_view(msg_result) == part.1);
    assert(action_views(actions@) == part.2);
    assert(board@.is_live(handle));
    let ghost between = board@;
    let ghost first = actions@;
    let jsep_result: Option<Result<Jsep, String>> = match jsep {
        Some(Ok(kind)) => {
            let (description, mut second) = process_jsep(board, handle, kind);
            let ghost more = second@;
            actions.append(&mut second);
            assert(action_views(actions@) =~= action_views(first) + action_views(more));
            Some(Ok(description))
        },
        Some(Err(text)) => Some(Err(text)),
        None => None,
    };
    let ghost rest = description_part(between, handle, description_view(jsep));
    assert(board@ == rest.0);
    assert(jsep_result_view(jsep_result) == rest.1);
    assert(action_views(actions@) =~= part.2 + rest.2);
    let (reply, description) = answer_request(msg_result, jsep_result);
    let ghost sent = actions@;
    actions.push(Action::Respond { handle, txn, reply, jsep: description });
    assert(action_views(actions@) =~= action_views(sent) + seq![actions@.last()@]);
    actions
}

} // verus!
