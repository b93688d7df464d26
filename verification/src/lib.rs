//! A small pub/sub broker: the publisher registry, the topic discovery
//! protocol, the keepalive rules and the routing decisions of the broker,
//! its publishers, its subscribers and its web bridge.

pub mod messages;
pub mod text;
pub mod broker;
pub mod subscriber;
pub mod publisher;
pub mod web;
pub mod laws;
