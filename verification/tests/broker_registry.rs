use zmq_broker::broker::{
    accepts_ping_reply, elapsed_nanos, is_subscription_change, multipart_frames, ping_due, Broker,
    PingTimer, PublisherTraffic, PING_INTERVAL_NANOS, PUBLISHER_TIMEOUT_NANOS,
};
use zmq_broker::messages::{PongMessage, RegisterMessage};

fn s(x: &str) -> String {
    x.to_string()
}

fn registration(id: &str, topics: &[&str]) -> RegisterMessage {
    RegisterMessage::register(s(id), topics.iter().map(|t| s(t)).collect())
}

#[test]
fn empty_broker_lists_no_topics() {
    let broker = Broker::new();
    let response = broker.handle_topic_list_request();
    assert_eq!(response.action, "topic_list_response");
    assert!(response.topics.is_empty());
    assert_eq!(broker.len(), 0);
}

#[test]
fn registered_topics_are_listed_namespaced() {
    let mut broker = Broker::new();
    broker.handle_register(registration("abc", &["news", "weather"]), 0);
    broker.handle_register(registration("def", &["sports"]), 5);
    let response = broker.handle_topic_list_request();
    assert_eq!(response.topics, vec![s("abc:news"), s("abc:weather"), s("def:sports")]);
    assert_eq!(broker.len(), 2);
}

#[test]
fn registering_again_replaces_topics() {
    let mut broker = Broker::new();
    broker.handle_register(registration("abc", &["news", "weather"]), 0);
    broker.handle_register(registration("def", &["sports"]), 0);
    broker.handle_register(registration("abc", &["finance"]), 10);
    assert_eq!(broker.len(), 2);
    let response = broker.handle_topic_list_request();
    assert_eq!(response.topics, vec![s("abc:finance"), s("def:sports")]);
}

#[test]
fn eviction_boundary_is_the_timeout() {
    let mut broker = Broker::new();
    broker.handle_register(registration("old", &["a"]), 0);
    broker.handle_register(registration("young", &["b"]), 1);
    // "old" has been silent for exactly the timeout, "young" for one nanosecond less.
    broker.remove_inactive_publishers(PUBLISHER_TIMEOUT_NANOS);
    assert_eq!(broker.handle_topic_list_request().topics, vec![s("young:b")]);
    broker.remove_inactive_publishers(PUBLISHER_TIMEOUT_NANOS + 1);
    assert_eq!(broker.len(), 0);
}

#[test]
fn pong_renews_liveness() {
    let mut broker = Broker::new();
    broker.handle_register(registration("p1", &["a"]), 0);
    broker.handle_register(registration("p2", &["b"]), 0);
    broker.record_pong(&s("p1"), 50_000_000_000);
    broker.record_pong(&s("unknown"), 50_000_000_000);
    broker.remove_inactive_publishers(70_000_000_000);
    assert_eq!(broker.handle_topic_list_request().topics, vec![s("p1:a")]);
}

#[test]
fn clock_going_back_counts_as_no_time() {
    assert_eq!(elapsed_nanos(10, 4), 0);
    assert_eq!(elapsed_nanos(4, 10), 6);
    let mut broker = Broker::new();
    broker.handle_register(registration("p", &["a"]), 100);
    broker.remove_inactive_publishers(0);
    assert_eq!(broker.len(), 1);
}

#[test]
fn one_ping_per_publisher() {
    let mut broker = Broker::new();
    broker.handle_register(registration("p1", &["a"]), 0);
    broker.handle_register(registration("p2", &[]), 0);
    let pings = broker.ping_messages();
    assert_eq!(pings.len(), 2);
    assert_eq!(pings[0].action, "ping");
    assert_eq!(pings[0].publisher_id, "p1");
    assert_eq!(pings[1].action, "ping");
    assert_eq!(pings[1].publisher_id, "p2");
}

#[test]
fn ping_is_due_after_more_than_the_interval() {
    assert!(!ping_due(0, PING_INTERVAL_NANOS));
    assert!(ping_due(0, PING_INTERVAL_NANOS + 1));
    assert!(!ping_due(100, 50));
}

#[test]
fn pong_reply_needs_two_frames_and_pong_action() {
    let pong = Some(PongMessage::pong(s("p1")));
    assert!(accepts_ping_reply(2, &pong));
    assert!(!accepts_ping_reply(1, &pong));
    assert!(!accepts_ping_reply(3, &pong));
    assert!(!accepts_ping_reply(2, &None));
    let not_pong = Some(PongMessage { action: s("ping"), publisher_id: s("p1") });
    assert!(!accepts_ping_reply(2, &not_pong));
}

#[test]
fn single_frame_registration_registers() {
    let mut broker = Broker::new();
    let frames = vec![b"{...}".to_vec()];
    match broker.handle_publisher_frames(frames, Some(registration("p1", &["news"])), 3) {
        traffic @ PublisherTraffic::Registered(_) => {
            assert!(traffic.ends_pass());
            if let PublisherTraffic::Registered(id) = traffic {
                assert_eq!(id, "p1");
            }
        },
        PublisherTraffic::Forward(_) => panic!("expected a registration"),
    }
    assert_eq!(broker.handle_topic_list_request().topics, vec![s("p1:news")]);
}

#[test]
fn other_actions_are_forwarded() {
    let mut broker = Broker::new();
    let msg = RegisterMessage { action: s("hello"), publisher_id: s("p1"), topics: vec![] };
    match broker.handle_publisher_frames(vec![b"x".to_vec()], Some(msg), 3) {
        PublisherTraffic::Forward(out) => {
            assert_eq!(out.len(), 1);
            assert_eq!(out[0].data, b"x".to_vec());
            assert!(!out[0].more);
        },
        PublisherTraffic::Registered(_) => panic!("expected forwarding"),
    }
    assert_eq!(broker.len(), 0);
}

#[test]
fn multipart_messages_are_forwarded_even_if_they_parse() {
    let mut broker = Broker::new();
    let frames = vec![b"p1:news".to_vec(), b"{\"message\":\"hi\"}".to_vec()];
    match broker.handle_publisher_frames(frames, Some(registration("p1", &["news"])), 3) {
        PublisherTraffic::Forward(out) => {
            assert_eq!(out.len(), 2);
            assert_eq!(out[0].data, b"p1:news".to_vec());
            assert!(out[0].more);
            assert_eq!(out[1].data, b"{\"message\":\"hi\"}".to_vec());
            assert!(!out[1].more);
        },
        PublisherTraffic::Registered(_) => panic!("expected forwarding"),
    }
    assert_eq!(broker.len(), 0);
}

#[test]
fn unparsed_single_frame_is_forwarded() {
    let mut broker = Broker::new();
    let traffic = broker.handle_publisher_frames(vec![b"raw".to_vec()], None, 0);
    assert!(!traffic.ends_pass());
    match traffic {
        PublisherTraffic::Forward(out) => {
            assert_eq!(out.len(), 1);
            assert!(!out[0].more);
        },
        PublisherTraffic::Registered(_) => panic!("expected forwarding"),
    }
}

#[test]
fn multipart_flags_mark_all_but_last() {
    let out = multipart_frames(vec![vec![1], vec![2], vec![3]]);
    let flags: Vec<bool> = out.iter().map(|f| f.more).collect();
    assert_eq!(flags, vec![true, true, false]);
    let data: Vec<Vec<u8>> = out.into_iter().map(|f| f.data).collect();
    assert_eq!(data, vec![vec![1], vec![2], vec![3]]);
    assert!(multipart_frames(vec![]).is_empty());
}

#[test]
fn subscription_changes_start_with_zero_or_one() {
    assert!(is_subscription_change(&vec![1, b'a']));
    assert!(is_subscription_change(&vec![0]));
    assert!(!is_subscription_change(&vec![2, b'a']));
    assert!(!is_subscription_change(&vec![]));
}

#[test]
fn ping_rounds_are_spaced_by_more_than_the_interval() {
    let mut timer = PingTimer::new(1_000);
    assert!(!timer.tick(1_000 + PING_INTERVAL_NANOS));
    assert!(timer.tick(1_001 + PING_INTERVAL_NANOS));
    let first = 1_001 + PING_INTERVAL_NANOS;
    assert!(!timer.tick(first + 5));
    assert!(!timer.tick(first + PING_INTERVAL_NANOS));
    assert!(timer.tick(first + PING_INTERVAL_NANOS + 1));
}

#[test]
fn answering_publisher_survives_a_long_run() {
    let mut broker = Broker::new();
    broker.handle_register(registration("steady", &["a"]), 0);
    broker.handle_register(registration("silent", &["b"]), 0);
    let step = 30_000_000_000u64;
    for k in 1..10u64 {
        broker.record_pong(&s("steady"), k * step);
        broker.remove_inactive_publishers(k * step + step - 1);
    }
    assert_eq!(broker.handle_topic_list_request().topics, vec![s("steady:a")]);
    broker.handle_register(registration("steady", &["c", "d"]), 10 * step);
    broker.remove_inactive_publishers(10 * step + step);
    assert_eq!(broker.handle_topic_list_request().topics, vec![s("steady:c"), s("steady:d")]);
}
