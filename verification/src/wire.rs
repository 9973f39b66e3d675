//! Messages as JSON text, as `serde_json` writes the types of `rmcp`.
use rmcp::model::{ClientJsonRpcMessage, ClientNotification, ServerJsonRpcMessage};
use vstd::prelude::*;

verus! {

/// The error of `serde_json`.
#[verifier::external_type_specification]
#[verifier::external_body]
pub struct ExJsonError(serde_json::Error);

/// A JSON-RPC message of `rmcp`.
#[verifier::external_type_specification]
#[verifier::external_body]
#[verifier::reject_recursive_types(Req)]
#[verifier::reject_recursive_types(Resp)]
#[verifier::reject_recursive_types(Noti)]
pub struct ExJsonRpcMessage<Req, Resp, Noti>(rmcp::model::JsonRpcMessage<Req, Resp, Noti>);

/// A request that a client sends.
#[verifier::external_type_specification]
#[verifier::external_body]
pub struct ExClientRequest(rmcp::model::ClientRequest);

/// A result that a client sends.
#[verifier::external_type_specification]
#[verifier::external_body]
pub struct ExClientResult(rmcp::model::ClientResult);

/// A notification that a client sends.
#[verifier::external_type_specification]
#[verifier::external_body]
pub struct ExClientNotification(rmcp::model::ClientNotification);

/// A request that a server sends.
#[verifier::external_type_specification]
#[verifier::external_body]
pub struct ExServerRequest(rmcp::model::ServerRequest);

/// A result that a server sends.
#[verifier::external_type_specification]
#[verifier::external_body]
pub struct ExServerResult(rmcp::model::ServerResult);

/// A notification that a server sends.
#[verifier::external_type_specification]
#[verifier::external_body]
pub struct ExServerNotification(rmcp::model::ServerNotification);

/// The JSON text of a server's message, or `None` if it has none.
pub uninterp spec fn server_message_json(message: ServerJsonRpcMessage) -> Option<Seq<char>>;

/// The JSON texts that a client's message can be written as, with `None` among
/// them if writing it can fail. A completion request carries its arguments in a
/// hash map, whose order is not part of the message, so there can be several.
pub uninterp spec fn client_message_jsons(message: ClientJsonRpcMessage) -> Set<Option<Seq<char>>>;

/// The JSON text of the message that carries a client's notification, or `None`
/// if it has none.
pub uninterp spec fn client_notification_json(notification: ClientNotification) -> Option<
    Seq<char>,
>;

/// The message that carries a client's notification.
pub uninterp spec fn client_notification_message(
    notification: ClientNotification,
) -> ClientJsonRpcMessage;

/// The text ends where a JSON object ends.
pub open spec fn closes_object(text: Seq<char>) -> bool {
    text.len() > 0 && text.last() == '}'
}

/// What serializing gave, with every failure taken as `None`.
pub open spec fn json_of(result: Result<String, serde_json::Error>) -> Option<Seq<char>> {
    match result {
        Ok(text) => Some(text@),
        Err(_) => None,
    }
}

/// Calls `serde_json::to_string` on a server's message. The text is a function
/// of the message: no type that a server's message is made of is written in an
/// order that is not its own. It ends in a closing brace, because a message of
/// every kind is written as one JSON object with nothing after it. What else the
/// text looks like is not stated.
#[verifier::external_body]
fn server_message_to_string(message: &ServerJsonRpcMessage) -> (result: Result<
    String,
    serde_json::Error,
>)
    ensures
        json_of(result) == server_message_json(*message),
        result matches Ok(text) ==> closes_object(text@),
{
    serde_json::to_string(message)
}

/// Calls `serde_json::to_string` on a client's message. The text is one of those
/// that the message can be written as; which one can differ from call to call. It
/// ends in a closing brace, because a message of every kind is written as one JSON
/// object with nothing after it. What else the text looks like is not stated.
#[verifier::external_body]
fn client_message_to_string(message: &ClientJsonRpcMessage) -> (result: Result<
    String,
    serde_json::Error,
>)
    ensures
        client_message_jsons(*message).contains(json_of(result)),
        result matches Ok(text) ==> closes_object(text@),
{
    serde_json::to_string(message)
}

/// Calls `serde_json::to_string` on the message that carries a client's
/// notification. The text is a function of the notification: no type that a
/// client's notification is made of is written in an order that is not its own.
/// It ends in a closing brace, because the message is written as one JSON object
/// with nothing after it. What else the text looks like is not stated.
#[verifier::external_body]
fn client_notification_to_string(notification: &ClientNotification) -> (result: Result<
    String,
    serde_json::Error,
>)
    ensures
        json_of(result) == client_notification_json(*notification),
        result matches Ok(text) ==> closes_object(text@),
{
    serde_json::to_string(&ClientJsonRpcMessage::notification(notification.clone()))
}

/// Calls `JsonRpcMessage::notification` of `rmcp`, which puts a notification
/// into a message. The message is a function of the notification; what it holds
/// is not stated, because its type is opaque.
#[verifier::external_body]
pub(crate) fn notification_message(notification: ClientNotification) -> (message:
    ClientJsonRpcMessage)
    ensures
        message == client_notification_message(notification),
{
    ClientJsonRpcMessage::notification(notification)
}

/// The JSON text of a server's message.
pub fn serialize_server_message(message: &ServerJsonRpcMessage) -> (result: Option<String>)
    ensures
        crate::logs::text_of(result) == server_message_json(*message),
        result matches Some(text) ==> closes_object(text@),
{
    match server_message_to_string(message) {
        Ok(text) => Some(text),
        Err(_) => None,
    }
}

/// A JSON text of a client's message.
pub fn serialize_client_message(message: &ClientJsonRpcMessage) -> (result: Option<String>)
    ensures
        client_message_jsons(*message).contains(crate::logs::text_of(result)),
        result matches Some(text) ==> closes_object(text@),
{
    match client_message_to_string(message) {
        Ok(text) => Some(text),
        Err(_) => None,
    }
}

/// The JSON text of the message that carries a client's notification.
pub fn serialize_client_notification(notification: &ClientNotification) -> (result: Option<
    String,
>)
    ensures
        crate::logs::text_of(result) == client_notification_json(*notification),
        result matches Some(text) ==> closes_object(text@),
{
    match client_notification_to_string(notification) {
        Ok(text) => Some(text),
        Err(_) => None,
    }
}

} // verus!
