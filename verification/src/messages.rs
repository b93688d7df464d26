//! The messages of the broker protocol. Each carries an `action` that names
//! its kind; the constructors fill it in.

use vstd::prelude::*;

verus! {

/// The action of a registration.
pub open spec fn register_action() -> Seq<char> {
    "register"@
}

/// The action of a keepalive request sent by the broker.
pub open spec fn ping_action() -> Seq<char> {
    "ping"@
}

/// The action of a keepalive answer sent by a publisher.
pub open spec fn pong_action() -> Seq<char> {
    "pong"@
}

/// The action of a topic discovery request.
pub open spec fn get_topics_action() -> Seq<char> {
    "get_topics"@
}

/// The action of a topic discovery answer.
pub open spec fn topic_list_response_action() -> Seq<char> {
    "topic_list_response"@
}

/// A publisher announces itself and its topics.
#[derive(Clone, Debug, PartialEq, Eq)]
pub struct RegisterMessage {
    pub action: String,
    pub publisher_id: String,
    pub topics: Vec<String>,
}

/// The broker asks a publisher whether it is still alive.
#[derive(Debug, PartialEq, Eq)]
pub struct PingMessage {
    pub action: String,
    pub publisher_id: String,
}

/// A publisher answers a ping.
#[derive(Debug, PartialEq, Eq)]
pub struct PongMessage {
    pub action: String,
    pub publisher_id: String,
}

/// A subscriber asks for the topics that can be subscribed to.
#[derive(Debug, PartialEq, Eq)]
pub struct TopicListRequest {
    pub action: String,
}

/// The broker answers a topic discovery request.
#[derive(Debug, PartialEq, Eq)]
pub struct TopicListResponse {
    pub action: String,
    pub topics: Vec<String>,
}

/// Whether `s` holds the same characters as `expected`.
fn has_text(s: &String, expected: &str) -> (res: bool)
    ensures
        res == (s@ == expected@),
{
    let e = String::from_str(expected);
    *s == e
}

impl RegisterMessage {
    /// The registration of `publisher_id` with `topics`.
    pub fn register(publisher_id: String, topics: Vec<String>) -> (res: Self)
        ensures
            res.action@ == register_action(),
            res.publisher_id == publisher_id,
            res.topics == topics,
    {
        RegisterMessage { action: String::from_str("register"), publisher_id, topics }
    }

    /// Whether the action is `register`.
    pub fn is_register(&self) -> (res: bool)
        ensures
            res == (self.action@ == register_action()),
    {
        has_text(&self.action, "register")
    }
}

impl PingMessage {
    /// The ping addressed to `publisher_id`.
    pub fn ping(publisher_id: String) -> (res: Self)
        ensures
            res.action@ == ping_action(),
            res.publisher_id == publisher_id,
    {
        PingMessage { action: String::from_str("ping"), publisher_id }
    }

    /// Whether the action is `ping`.
    pub fn is_ping(&self) -> (res: bool)
        ensures
            res == (self.action@ == ping_action()),
    {
        has_text(&self.action, "ping")
    }
}

impl PongMessage {
    /// The pong sent by `publisher_id`.
    pub fn pong(publisher_id: String) -> (res: Self)
        ensures
            res.action@ == pong_action(),
            res.publisher_id == publisher_id,
    {
        PongMessage { action: String::from_str("pong"), publisher_id }
    }

    /// Whether the action is `pong`.
    pub fn is_pong(&self) -> (res: bool)
        ensures
            res == (self.action@ == pong_action()),
    {
        has_text(&self.action, "pong")
    }
}

impl TopicListRequest {
    /// The topic discovery request.
    pub fn get_topics() -> (res: Self)
        ensures
            res.action@ == get_topics_action(),
    {
        TopicListRequest { action: String::from_str("get_topics") }
    }
}

impl TopicListResponse {
    /// The answer that lists `topics`.
    pub fn new(topics: Vec<String>) -> (res: Self)
        ensures
            res.action@ == topic_list_response_action(),
            res.topics == topics,
    {
        TopicListResponse { action: String::from_str("topic_list_response"), topics }
    }
}

} // verus!
