//! From WebSocket messages to payloads.

use crate::json;
use crate::json::{parse_json, Json};
use crate::text;
use crate::text::{parse_u64, same_text};
use vstd::prelude::*;
use vstd::utf8::*;

verus! {

/// A WebSocket message. `Other` stands for the control frames.
pub enum WsMessage {
    Text(String),
    Binary(Vec<u8>),
    Other,
}

/// The bytes that a message carries, where it is a text or a binary one.
pub open spec fn raw_bytes(message: WsMessage) -> Option<Seq<u8>> {
    match message {
        WsMessage::Text(text) => Some(encode_utf8(text@)),
        WsMessage::Binary(bytes) => Some(bytes@),
        WsMessage::Other => None,
    }
}

/// Takes the bytes out of a text or binary message.
pub fn message_to_raw_bytes(message: WsMessage) -> (r: Option<Vec<u8>>)
    ensures
        match r {
            Some(bytes) => raw_bytes(message) == Some(bytes@),
            None => raw_bytes(message) is None,
        },
{
    match message {
        WsMessage::Text(text) => Some(text.as_str().as_bytes_vec()),
        WsMessage::Binary(bytes) => Some(bytes),
        WsMessage::Other => None,
    }
}

/// The payload in a document: on the combined endpoint the member `data`, elsewhere the whole
/// document if it is an object.
pub open spec fn payload_in(document: json::JsonModel, endpoint_name: Seq<char>) -> Option<
    json::JsonModel,
> {
    if endpoint_name == "stream"@ {
        json::member(document, "data"@)
    } else if document is Object {
        Some(document)
    } else {
        None
    }
}

/// Picks the payload out of a document.
pub fn select_payload(document: Json, endpoint_name: &str) -> (r: Option<Json>)
    ensures
        match r {
            Some(payload) => payload_in(document@, endpoint_name@) == Some(payload@),
            None => payload_in(document@, endpoint_name@) is None,
        },
{
    if same_text(endpoint_name, "stream") {
        document.into_member("data")
    } else {
        match document {
            Json::Object(members) => Some(Json::Object(members)),
            _ => None,
        }
    }
}

/// The payload in a byte string.
pub open spec fn decoded(raw: Seq<u8>, endpoint_name: Seq<char>) -> Option<json::JsonModel> {
    match json::parsed_json(raw) {
        Some(document) => payload_in(document, endpoint_name),
        None => None,
    }
}

/// Reads a byte string as JSON and picks the payload.
pub fn decode_payload(raw: &[u8], endpoint_name: &str) -> (r: Option<Json>)
    ensures
        match r {
            Some(payload) => decoded(raw@, endpoint_name@) == Some(payload@),
            None => decoded(raw@, endpoint_name@) is None,
        },
{
    match parse_json(raw) {
        Some(document) => select_payload(document, endpoint_name),
        None => None,
    }
}

/// The update id in a document: the member `u`, of the member `data` on a combined endpoint, as
/// an unsigned number or a text that writes one.
pub open spec fn update_id_in(document: json::JsonModel, combined: bool) -> Option<u64> {
    let book = if combined {
        json::member(document, "data"@)
    } else {
        Some(document)
    };
    match book {
        Some(book) => match json::member(book, "u"@) {
            Some(json::JsonModel::Number { unsigned, .. }) => unsigned,
            Some(json::JsonModel::Text(digits)) => text::parsed_u64(digits),
            _ => None,
        },
        None => None,
    }
}

/// Finds the update id in a document.
pub fn find_update_id(document: &Json, combined: bool) -> (r: Option<u64>)
    ensures
        r == update_id_in(document@, combined),
{
    let book = if combined {
        match document.get("data") {
            Some(data) => data,
            None => return None,
        }
    } else {
        document
    };
    match book.get("u") {
        Some(Json::Number { unsigned, .. }) => *unsigned,
        Some(Json::Text(digits)) => parse_u64(digits.as_str()),
        _ => None,
    }
}

/// The update id in a message.
pub open spec fn message_update_id(message: WsMessage, combined: bool) -> Option<u64> {
    match raw_bytes(message) {
        Some(raw) => match json::parsed_json(raw) {
            Some(document) => update_id_in(document, combined),
            None => None,
        },
        None => None,
    }
}

/// Finds the update id in a message.
pub fn extract_update_id(message: WsMessage, combined: bool) -> (r: Option<u64>)
    ensures
        r == message_update_id(message, combined),
{
    let raw = match message_to_raw_bytes(message) {
        Some(raw) => raw,
        None => return None,
    };
    match parse_json(raw.as_slice()) {
        Some(document) => find_update_id(&document, combined),
        None => None,
    }
}

/// A text message carries its UTF-8 bytes, a binary one its own, and no other carries any.
pub proof fn law_messages_carry_their_bytes(text: String, bytes: Vec<u8>)
    ensures
        raw_bytes(WsMessage::Text(text)) == Some(encode_utf8(text@)),
        raw_bytes(WsMessage::Binary(bytes)) == Some(bytes@),
        raw_bytes(WsMessage::Other) is None,
{
}

/// Bytes that are no JSON hold no payload. On the combined endpoint the payload is the member
/// `data`, whatever it is; on every other endpoint it is the whole document, where that is an
/// object.
pub proof fn law_payload_is_picked_by_endpoint(
    raw: Seq<u8>,
    document: json::JsonModel,
    endpoint_name: Seq<char>,
)
    ensures
        json::parsed_json(raw) is None ==> decoded(raw, endpoint_name) is None,
        json::parsed_json(raw) == Some(document) ==> {
            &&& endpoint_name == "stream"@ ==> decoded(raw, endpoint_name) == json::member(
                document,
                "data"@,
            )
            &&& endpoint_name != "stream"@ && document is Object ==> decoded(raw, endpoint_name)
                == Some(document)
            &&& endpoint_name != "stream"@ && !(document is Object) ==> decoded(
                raw,
                endpoint_name,
            ) is None
        },
{
}

/// The update id of a book ticker is its member `u`: every unsigned number as it is, and every
/// decimal text as the number that it writes. On a combined endpoint the ticker stands in `data`.
pub proof fn law_update_id_is_the_member_u(
    book: json::JsonModel,
    document: json::JsonModel,
    u: u64,
    signed: Option<i64>,
    float_bits: Option<u64>,
)
    ensures
        json::member(book, "u"@) == Some(
            json::JsonModel::Number { unsigned: Some(u), signed, float_bits },
        ) ==> update_id_in(book, false) == Some(u),
        json::member(book, "u"@) == Some(
            json::JsonModel::Number { unsigned: None, signed, float_bits },
        ) ==> update_id_in(book, false) is None,
        json::member(book, "u"@) == Some(json::JsonModel::Text(text::decimal(u as nat)))
            ==> update_id_in(book, false) == Some(u),
        json::member(book, "u"@) is None ==> update_id_in(book, false) is None,
        json::member(document, "data"@) == Some(book) ==> update_id_in(document, true)
            == update_id_in(book, false),
        json::member(document, "data"@) is None ==> update_id_in(document, true) is None,
{
    text::law_decimal_round_trip(u);
}

/// A text under `u` gives the update id that it writes, and what is neither number nor text gives
/// none.
pub proof fn law_update_id_is_number_or_text(book: json::JsonModel, digits: Seq<char>)
    ensures
        json::member(book, "u"@) == Some(json::JsonModel::Text(digits)) ==> update_id_in(
            book,
            false,
        ) == text::parsed_u64(digits),
        (json::member(book, "u"@) matches Some(value) && !(value is Number) && !(value is Text))
            ==> update_id_in(book, false) is None,
{
}

/// The update id of a message is that of the document that its bytes are, be it a text or a binary
/// one; without bytes, or without a document, there is none.
pub proof fn law_update_id_of_a_message(
    message: WsMessage,
    raw: Seq<u8>,
    document: json::JsonModel,
    combined: bool,
)
    ensures
        ((message matches WsMessage::Text(text) && encode_utf8(text@) == raw) || (
        message matches WsMessage::Binary(bytes) && bytes@ == raw)) ==> {
            &&& json::parsed_json(raw) == Some(document) ==> message_update_id(message, combined)
                == update_id_in(document, combined)
            &&& json::parsed_json(raw) is None ==> message_update_id(message, combined) is None
        },
        message is Other ==> message_update_id(message, combined) is None,
{
}

} // verus!
