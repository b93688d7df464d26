//! The web bridge's decisions: what a browser asks for over its WebSocket,
//! how a published message is shown to the browsers, and what topic list is
//! handed back to them.

use vstd::prelude::*;
use vstd::utf8::{decode_utf8, valid_utf8};

verus! {

/// Whether `serde_json` reads `text` as one JSON document.
pub uninterp spec fn is_json_document(text: Seq<char>) -> bool;

/// Whether `serde_json::from_str` reads `text` into a `serde_json::Value`.
#[verifier::external_body]
fn is_json_text(text: &str) -> (res: bool)
    ensures
        res == is_json_document(text@),
{
    serde_json::from_str::<serde_json::Value>(text).is_ok()
}

/// The string member `key` of the JSON object `text`, as `serde_json` reads
/// it; nothing when `text` is not JSON, not an object, or its member `key`
/// is missing or not a string.
pub uninterp spec fn json_string_member_of(text: Seq<char>, key: Seq<char>) -> Option<Seq<char>>;

/// The JSON text of the member `key` of the JSON document `text`, as
/// `serde_json` reads and writes it (`null` when `text` is not an object or
/// has no such member); nothing when `text` is not JSON.
pub uninterp spec fn json_member_text_of(text: Seq<char>, key: Seq<char>) -> Option<Seq<char>>;

/// The text that `String::from_utf8_lossy` makes of `bytes`.
pub uninterp spec fn utf8_lossy(bytes: Seq<u8>) -> Seq<char>;

/// The views of an optional string.
pub open spec fn opt_view(s: Option<String>) -> Option<Seq<char>> {
    match s {
        Some(s) => Some(s@),
        None => None,
    }
}

/// `serde_json::from_str` into a `serde_json::Value`, then
/// `serde_json::Value::get` with the key `key`: the member when it is a JSON
/// string, nothing otherwise.
#[verifier::external_body]
fn json_string_member(text: &str, key: &str) -> (res: Option<String>)
    ensures
        opt_view(res) == json_string_member_of(text@, key@),
{
    match serde_json::from_str::<serde_json::Value>(text) {
        Ok(value) => match value.get(key) {
            Some(serde_json::Value::String(s)) => Some(s.clone()),
            _ => None,
        },
        Err(_) => None,
    }
}

/// `serde_json::from_str` into a `serde_json::Value`, then indexing by `key`
/// (which gives `null` for a non-object or a missing member) written back by
/// the value's `Display` impl; nothing when `text` is not JSON.
#[verifier::external_body]
fn json_member_text(text: &str, key: &str) -> (res: Option<String>)
    ensures
        opt_view(res) == json_member_text_of(text@, key@),
{
    match serde_json::from_str::<serde_json::Value>(text) {
        Ok(value) => Some(value[key].to_string()),
        Err(_) => None,
    }
}

/// `String::from_utf8_lossy`: the text of `bytes`, with each invalid UTF-8
/// sequence replaced by U+FFFD; the decoded text itself when `bytes` is valid
/// UTF-8.
#[verifier::external_body]
fn utf8_lossy_text(bytes: &Vec<u8>) -> (res: String)
    ensures
        res@ == utf8_lossy(bytes@),
        valid_utf8(bytes@) ==> res@ == decode_utf8(bytes@),
{
    String::from_utf8_lossy(bytes).into_owned()
}

/// `std::str::from_utf8`: the decoded text when `bytes` is valid UTF-8,
/// nothing otherwise.
#[verifier::external_body]
fn utf8_text(bytes: &Vec<u8>) -> (res: Option<String>)
    ensures
        res is Some <==> valid_utf8(bytes@),
        res matches Some(s) ==> s@ == decode_utf8(bytes@),
{
    match std::str::from_utf8(bytes) {
        Ok(s) => Some(s.to_string()),
        Err(_) => None,
    }
}

/// What a browser asks of the bridge.
#[derive(Debug, PartialEq, Eq)]
pub enum BrowserCommand {
    /// Send the broker's topic list back to this browser.
    GetTopics,
    /// Publish `message` on the namespaced `topic`.
    Publish { topic: String, message: String },
}

/// `res` is the command of a browser message whose `action`, `topic` and
/// `message` members are the strings given (`None` where a member is
/// missing or not a string).
pub open spec fn is_command_for(
    res: Option<BrowserCommand>,
    action: Option<Seq<char>>,
    topic: Option<Seq<char>>,
    message: Option<Seq<char>>,
) -> bool {
    if action == Some("get_topics"@) {
        res == Some(BrowserCommand::GetTopics)
    } else if action == Some("publish"@) && topic is Some && message is Some {
        &&& res matches Some(BrowserCommand::Publish { topic: t, message: m })
        &&& t@ == topic->0
        &&& m@ == message->0
    } else {
        res is None
    }
}

/// Whether `s` holds `expected`.
fn is_text(s: &Option<String>, expected: &str) -> (res: bool)
    ensures
        res == (opt_view(*s) == Some(expected@)),
{
    match s {
        Some(s) => *s == String::from_str(expected),
        None => false,
    }
}

/// The command of a browser message with the given `action`, `topic` and
/// `message` members.
pub fn browser_command(action: Option<String>, topic: Option<String>, message: Option<String>) -> (res: Option<BrowserCommand>)
    ensures
        is_command_for(res, opt_view(action), opt_view(topic), opt_view(message)),
{
    if is_text(&action, "get_topics") {
        return Some(BrowserCommand::GetTopics);
    }
    if is_text(&action, "publish") {
        match (topic, message) {
            (Some(topic), Some(message)) => {
                return Some(BrowserCommand::Publish { topic, message });
            },
            _ => {},
        }
    }
    None
}

/// The command in a text message of a browser. Text that is not JSON is no
/// command; otherwise the command is that of the message's `action`, `topic`
/// and `message` string members.
pub fn decode_browser_command(text: &str) -> (res: Option<BrowserCommand>)
    ensures
        !is_json_document(text@) ==> res is None,
        is_json_document(text@) ==> is_command_for(
            res,
            json_string_member_of(text@, "action"@),
            json_string_member_of(text@, "topic"@),
            json_string_member_of(text@, "message"@),
        ),
{
    if !is_json_text(text) {
        return None;
    }
    let action = json_string_member(text, "action");
    let topic = json_string_member(text, "topic");
    let message = json_string_member(text, "message");
    browser_command(action, topic, message)
}

/// The payload of a published message, as the browsers are shown it.
#[derive(Debug, PartialEq, Eq)]
pub enum FeedData {
    /// The payload is a JSON document, shown as JSON.
    Json(String),
    /// The payload is not JSON, shown as a JSON string of its text.
    Text(String),
}

/// A published message as the browsers are shown it.
#[derive(Debug, PartialEq, Eq)]
pub struct FeedEntry {
    pub topic: String,
    pub data: FeedData,
}

/// The text of a payload, whichever way it is shown.
pub open spec fn feed_data_text(data: FeedData) -> Seq<char> {
    match data {
        FeedData::Json(t) => t@,
        FeedData::Text(t) => t@,
    }
}

/// The entry for the browsers of a published message of `frames`: a message
/// of a topic frame and a payload frame is shown, with both read as UTF-8
/// (invalid sequences replaced) and the payload as JSON when it is JSON;
/// messages of any other number of frames are not shown.
pub fn feed_entry(frames: &Vec<Vec<u8>>) -> (res: Option<FeedEntry>)
    ensures
        frames@.len() == 2 <==> res is Some,
        res matches Some(e) ==> {
            &&& e.topic@ == utf8_lossy(frames@[0]@)
            &&& feed_data_text(e.data) == utf8_lossy(frames@[1]@)
            &&& (e.data is Json <==> is_json_document(utf8_lossy(frames@[1]@)))
        },
{
    if frames.len() != 2 {
        return None;
    }
    let topic = utf8_lossy_text(&frames[0]);
    let text = utf8_lossy_text(&frames[1]);
    let data = if is_json_text(text.as_str()) {
        FeedData::Json(text)
    } else {
        FeedData::Text(text)
    };
    Some(FeedEntry { topic, data })
}

/// The JSON text of the topic list handed to a browser for the broker's
/// `reply`: the reply's `topics` member when the reply is UTF-8 JSON, and the
/// empty list `[]` when there is no reply, it is not UTF-8, or not JSON.
pub open spec fn topics_reply_text(reply: Option<Seq<u8>>) -> Seq<char> {
    match reply {
        None => "[]"@,
        Some(bytes) => if !valid_utf8(bytes) {
            "[]"@
        } else {
            match json_member_text_of(decode_utf8(bytes), "topics"@) {
                Some(t) => t,
                None => "[]"@,
            }
        },
    }
}

/// The views of optional bytes.
pub open spec fn opt_bytes(b: Option<Vec<u8>>) -> Option<Seq<u8>> {
    match b {
        Some(b) => Some(b@),
        None => None,
    }
}

/// The JSON text of the topic list handed to a browser for the broker's
/// `reply` (`None` when no reply came).
pub fn topics_reply(reply: Option<Vec<u8>>) -> (res: String)
    ensures
        res@ == topics_reply_text(opt_bytes(reply)),
{
    match reply {
        None => String::from_str("[]"),
        Some(bytes) => match utf8_text(&bytes) {
            None => String::from_str("[]"),
            Some(text) => match json_member_text(text.as_str(), "topics") {
                Some(t) => t,
                None => String::from_str("[]"),
            },
        },
    }
}

} // verus!
