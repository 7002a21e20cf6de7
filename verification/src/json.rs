//! How what goes out is written as JSON.
use crate::messages::texts;
use crate::outbound::{
    Action, ActionView, Event, EventView, Jsep, JsepView, Payload, PayloadView, Reply, ReplyView,
};
use vstd::prelude::*;

verus! {

/// A JSON value. A number is given by the text that it is written as.
pub enum JsonTree {
    Null,
    Bool(bool),
    Number(Seq<char>),
    Text(Seq<char>),
    Array(Seq<JsonTree>),
    Object(Map<Seq<char>, JsonTree>),
}

/// `serde_json::Value`, the type that JSON is built in.
#[verifier::external_type_specification]
#[verifier::external_body]
pub struct ExValue(serde_json::Value);

/// What a `serde_json::Value` holds.
pub uninterp spec fn tree_of(value: serde_json::Value) -> JsonTree;

/// The text that `serde_json::Value`'s `to_string` writes for what the value holds.
pub uninterp spec fn compact_text(tree: JsonTree) -> Seq<char>;

/// Calls `Value::to_string`. The text depends only on what the value holds: the keys of an object
/// are kept sorted, whatever order they were put in.
#[verifier::external_body]
fn value_text(value: &serde_json::Value) -> (text: String)
    ensures
        text@ == compact_text(tree_of(*value)),
{
    value.to_string()
}

/// Calls `Value::from` on a flag, which gives the JSON value `true` or `false`.
#[verifier::external_body]
fn bool_value(flag: bool) -> (value: serde_json::Value)
    ensures
        tree_of(value) == JsonTree::Bool(flag),
{
    serde_json::Value::from(flag)
}

/// Calls `Value::from` on a string slice, which gives a JSON string with the same characters.
#[verifier::external_body]
fn text_value(text: &str) -> (value: serde_json::Value)
    ensures
        tree_of(value) == JsonTree::Text(text@),
{
    serde_json::Value::from(text)
}

/// Calls `Value::from` on a vector, which gives a JSON array of the same values in the same order.
#[verifier::external_body]
fn array_value(items: Vec<serde_json::Value>) -> (value: serde_json::Value)
    ensures
        tree_of(value) == JsonTree::Array(
            items@.map_values(|item: serde_json::Value| tree_of(item)),
        ),
{
    serde_json::Value::from(items)
}

/// Calls `Value::from` on a new `serde_json::Map`, which gives a JSON object without fields.
#[verifier::external_body]
fn object_value() -> (value: serde_json::Value)
    ensures
        tree_of(value) == JsonTree::Object(Map::empty()),
{
    serde_json::Value::from(serde_json::Map::new())
}

/// Assigns through `Value`'s mutable index by a string, which sets that field of an object. On
/// anything that is no object the index may panic.
#[verifier::external_body]
fn set_field(object: &mut serde_json::Value, key: &str, item: serde_json::Value)
    requires
        tree_of(*old(object)) is Object,
    ensures
        tree_of(*final(object)) == JsonTree::Object(
            tree_of(*old(object))->Object_0.insert(key@, tree_of(item)),
        ),
{
    object[key] = item;
}

/// A JSON array of strings.
pub open spec fn text_array(items: Seq<Seq<char>>) -> JsonTree {
    JsonTree::Array(items.map_values(|item: Seq<char>| JsonTree::Text(item)))
}

impl EventView {
    /// The event as JSON.
    pub open spec fn tree(self) -> JsonTree {
        match self {
            EventView::Join { user_id, room_id } => JsonTree::Object(
                map![
                    "event"@ => JsonTree::Text("join"@),
                    "user_id"@ => JsonTree::Text(user_id),
                    "room_id"@ => JsonTree::Text(room_id),
                ],
            ),
            EventView::Leave { user_id, room_id } => JsonTree::Object(
                map![
                    "event"@ => JsonTree::Text("leave"@),
                    "user_id"@ => JsonTree::Text(user_id),
                    "room_id"@ => JsonTree::Text(room_id),
                ],
            ),
            EventView::Blocked { by } => JsonTree::Object(
                map!["event"@ => JsonTree::Text("blocked"@), "by"@ => JsonTree::Text(by)],
            ),
            EventView::Unblocked { by } => JsonTree::Object(
                map!["event"@ => JsonTree::Text("unblocked"@), "by"@ => JsonTree::Text(by)],
            ),
            EventView::Data { body } => JsonTree::Object(
                map!["event"@ => JsonTree::Text("data"@), "body"@ => JsonTree::Text(body)],
            ),
        }
    }
}

impl PayloadView {
    /// The payload as JSON.
    pub open spec fn tree(self) -> JsonTree {
        match self {
            PayloadView::Empty => JsonTree::Object(Map::empty()),
            PayloadView::Users { room_id, users } => JsonTree::Object(
                map!["users"@ => JsonTree::Object(map![room_id => text_array(users)])],
            ),
        }
    }
}

impl JsepView {
    /// The description as JSON.
    pub open spec fn tree(self) -> JsonTree {
        match self {
            JsepView::Empty => JsonTree::Object(Map::empty()),
            JsepView::Offer { sdp } => JsonTree::Object(
                map!["type"@ => JsonTree::Text("offer"@), "sdp"@ => JsonTree::Text(sdp)],
            ),
            JsepView::Answer { sdp } => JsonTree::Object(
                map!["type"@ => JsonTree::Text("answer"@), "sdp"@ => JsonTree::Text(sdp)],
            ),
        }
    }
}

impl ReplyView {
    /// The reply as JSON.
    pub open spec fn tree(self) -> JsonTree {
        match self {
            ReplyView::Failure { msg } => JsonTree::Object(
                map![
                    "success"@ => JsonTree::Bool(false),
                    "error"@ => JsonTree::Object(map!["msg"@ => JsonTree::Text(msg)]),
                ],
            ),
            ReplyView::Success { response: None } => JsonTree::Object(
                map!["success"@ => JsonTree::Bool(true)],
            ),
            ReplyView::Success { response: Some(payload) } => JsonTree::Object(
                map!["success"@ => JsonTree::Bool(true), "response"@ => payload.tree()],
            ),
        }
    }
}

/// The object `{"event": kind, "user_id": user_id, "room_id": room_id}`.
fn room_event(kind: &str, user_id: &String, room_id: &String) -> (value: serde_json::Value)
    ensures
        tree_of(value) == JsonTree::Object(
            map![
                "event"@ => JsonTree::Text(kind@),
                "user_id"@ => JsonTree::Text(user_id@),
                "room_id"@ => JsonTree::Text(room_id@),
            ],
        ),
{
    let mut value = object_value();
    set_field(&mut value, "event", text_value(kind));
    set_field(&mut value, "user_id", text_value(user_id.as_str()));
    set_field(&mut value, "room_id", text_value(room_id.as_str()));
    value
}

/// An object of two fields, both strings.
fn text_pair(key: &str, text: &str, other_key: &str, other_text: &String) -> (value:
    serde_json::Value)
    ensures
        tree_of(value) == JsonTree::Object(
            map![key@ => JsonTree::Text(text@), other_key@ => JsonTree::Text(other_text@)],
        ),
{
    let mut value = object_value();
    set_field(&mut value, key, text_value(text));
    set_field(&mut value, other_key, text_value(other_text.as_str()));
    value
}

impl Event {
    /// The event as a JSON value.
    pub fn to_json(&self) -> (value: serde_json::Value)
        ensures
            tree_of(value) == self@.tree(),
    {
        match self {
            Event::Join { user_id, room_id } => room_event("join", user_id, room_id),
            Event::Leave { user_id, room_id } => room_event("leave", user_id, room_id),
            Event::Blocked { by } => text_pair("event", "blocked", "by", by),
            Event::Unblocked { by } => text_pair("event", "unblocked", "by", by),
            Event::Data { body } => text_pair("event", "data", "body", body),
        }
    }
}

impl Payload {
    /// The payload as a JSON value.
    pub fn to_json(&self) -> (value: serde_json::Value)
        ensures
            tree_of(value) == self@.tree(),
    {
        match self {
            Payload::Empty => object_value(),
            Payload::Users { room_id, users } => {
                let mut items: Vec<serde_json::Value> = Vec::new();
                let mut i: usize = 0;
                while i < users.len()
                    invariant
                        i <= users@.len(),
                        items@.len() == i,
                        forall|k: int|
                            0 <= k < i ==> tree_of(#[trigger] items@[k]) == JsonTree::Text(
                                users@[k]@,
                            ),
                    decreases users@.len() - i,
                {
                    items.push(text_value(users[i].as_str()));
                    i += 1;
                }
                assert(items@.map_values(|item: serde_json::Value| tree_of(item)) =~= texts(
                    users@,
                ).map_values(|item: Seq<char>| JsonTree::Text(item)));
                let mut room = object_value();
                set_field(&mut room, room_id.as_str(), array_value(items));
                let mut value = object_value();
                set_field(&mut value, "users", room);
                value
            },
        }
    }

    /// The payload as JSON text.
    pub fn to_text(&self) -> (text: String)
        ensures
            text@ == compact_text(self@.tree()),
    {
        value_text(&self.to_json())
    }
}

impl Jsep {
    /// The description as a JSON value.
    pub fn to_json(&self) -> (value: serde_json::Value)
        ensures
            tree_of(value) == self@.tree(),
    {
        match self {
            Jsep::Empty => object_value(),
            Jsep::Offer { sdp } => text_pair("type", "offer", "sdp", sdp),
            Jsep::Answer { sdp } => text_pair("type", "answer", "sdp", sdp),
        }
    }
}

impl Reply {
    /// The reply as a JSON value.
    pub fn to_json(&self) -> (value: serde_json::Value)
        ensures
            tree_of(value) == self@.tree(),
    {
        let mut value = object_value();
        match self {
            Reply::Failure { msg } => {
                let mut error = object_value();
                set_field(&mut error, "msg", text_value(msg.as_str()));
                set_field(&mut value, "success", bool_value(false));
                set_field(&mut value, "error", error);
            },
            Reply::Success { response } => {
                set_field(&mut value, "success", bool_value(true));
                if let Some(payload) = response {
                    set_field(&mut value, "response", payload.to_json());
                }
            },
        }
        value
    }
}

/// One event to push to a session through the gateway. The body and the description are JSON text.
#[derive(Debug, PartialEq, Eq)]
pub struct Push {
    pub handle: u64,
    pub txn: Option<u64>,
    pub body: String,
    pub jsep: Option<String>,
}

/// The mathematical form of a [`Push`], with JSON in place of its text.
pub struct PushView {
    pub handle: u64,
    pub txn: Option<u64>,
    pub body: JsonTree,
    pub jsep: Option<JsonTree>,
}

impl ActionView {
    /// The event that has to be pushed to do this, if that is how it is done.
    pub open spec fn push(self) -> Option<PushView> {
        match self {
            ActionView::Notify { handle, event } => Some(
                PushView { handle, txn: None, body: event.tree(), jsep: None },
            ),
            ActionView::Offer { handle, sdp } => Some(
                PushView {
                    handle,
                    txn: None,
                    body: PayloadView::Empty.tree(),
                    jsep: Some(JsepView::Offer { sdp }.tree()),
                },
            ),
            ActionView::Respond { handle, txn, reply, jsep } => Some(
                PushView { handle, txn: Some(txn), body: reply.tree(), jsep: Some(jsep.tree()) },
            ),
            _ => None,
        }
    }
}

/// Whether `push` writes out `wanted`.
pub open spec fn writes(push: Push, wanted: PushView) -> bool {
    &&& push.handle == wanted.handle
    &&& push.txn == wanted.txn
    &&& push.body@ == compact_text(wanted.body)
    &&& match (push.jsep, wanted.jsep) {
        (Some(text), Some(tree)) => text@ == compact_text(tree),
        (None, None) => true,
        _ => false,
    }
}

impl Action {
    /// The event that has to be pushed to do this; `None` where it is done otherwise.
    pub fn push(&self) -> (push: Option<Push>)
        ensures
            match self@.push() {
                Some(wanted) => push is Some && writes(push->0, wanted),
                None => push is None,
            },
    {
        match self {
            Action::Notify { handle, event } => Some(
                Push { handle: *handle, txn: None, body: value_text(&event.to_json()), jsep: None },
            ),
            Action::Offer { handle, sdp } => Some(
                Push {
                    handle: *handle,
                    txn: None,
                    body: value_text(&object_value()),
                    jsep: Some(value_text(&text_pair("type", "offer", "sdp", sdp))),
                },
            ),
            Action::Respond { handle, txn, reply, jsep } => Some(
                Push {
                    handle: *handle,
                    txn: Some(*txn),
                    body: value_text(&reply.to_json()),
                    jsep: Some(value_text(&jsep.to_json())),
                },
            ),
            _ => None,
        }
    }
}

} // verus!
