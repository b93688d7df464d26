use zmq_broker::messages::{PingMessage, RegisterMessage, TopicListRequest, TopicListResponse};
use zmq_broker::publisher::{decimal_text, message_text, PublisherError, PublisherSession};
use zmq_broker::subscriber::{matching_topics, topic_matches, Subscriptions, TOPIC_REFRESH_NANOS};
use zmq_broker::text::{ends_with, namespaced_topic};
use zmq_broker::web::{
    browser_command, decode_browser_command, feed_entry, topics_reply, BrowserCommand, FeedData,
    FeedEntry,
};

fn s(x: &str) -> String {
    x.to_string()
}

#[test]
fn message_constructors_fill_in_actions() {
    let r = RegisterMessage::register(s("id"), vec![s("a")]);
    assert_eq!(r.action, "register");
    assert!(r.is_register());
    assert_eq!(PingMessage::ping(s("id")).action, "ping");
    assert!(PingMessage::ping(s("id")).is_ping());
    assert_eq!(TopicListRequest::get_topics().action, "get_topics");
    let resp = TopicListResponse::new(vec![s("x:y")]);
    assert_eq!(resp.action, "topic_list_response");
    assert_eq!(resp.topics, vec![s("x:y")]);
}

#[test]
fn namespacing_and_suffixes() {
    assert_eq!(namespaced_topic(&s("abc"), &s("news")), "abc:news");
    assert!(ends_with("abc:news", ":news"));
    assert!(ends_with("abc", ""));
    assert!(!ends_with("ws", ":news"));
    assert!(ends_with("héllo", "llo"));
    assert!(topic_matches(&s("abc:news"), &s("news")));
    assert!(!topic_matches(&s("abc:badnews"), &s("news")));
    assert!(!topic_matches(&s("abc:news"), &s("new")));
}

#[test]
fn no_filter_takes_every_topic() {
    let all = vec![s("a:x"), s("b:y")];
    assert_eq!(matching_topics(all.clone(), &vec![]), all);
}

#[test]
fn filters_select_topic_names() {
    let all = vec![s("a:sports"), s("b:news"), s("c:sports"), s("d:finance")];
    let filters = vec![s("sports"), s("finance")];
    assert_eq!(
        matching_topics(all, &filters),
        vec![s("a:sports"), s("c:sports"), s("d:finance")]
    );
    assert!(matching_topics(vec![s("a:news")], &vec![s("sports")]).is_empty());
}

#[test]
fn subscriptions_are_recorded_once() {
    let mut subs = Subscriptions::new();
    assert!(subs.refresh_due(0));
    subs.mark_refreshed(100);
    assert!(!subs.refresh_due(100 + TOPIC_REFRESH_NANOS));
    assert!(subs.refresh_due(101 + TOPIC_REFRESH_NANOS));
    assert!(subs.needs_subscription(&s("a:x")));
    subs.record_subscription(s("a:x"));
    assert!(!subs.needs_subscription(&s("a:x")));
    subs.record_subscription(s("a:x"));
    assert!(subs.needs_subscription(&s("b:x")));
}

#[test]
fn publisher_needs_a_topic() {
    assert!(matches!(PublisherSession::start(vec![]), Err(PublisherError::NoTopics)));
}

#[test]
fn publisher_id_is_a_hyphenated_uuid() {
    let a = PublisherSession::start(vec![s("news")]).unwrap();
    let b = PublisherSession::start(vec![s("news")]).unwrap();
    let id = a.publisher_id().clone();
    assert_eq!(id.len(), 36);
    for (i, c) in id.chars().enumerate() {
        if i == 8 || i == 13 || i == 18 || i == 23 {
            assert_eq!(c, '-');
        } else {
            assert!(c.is_ascii_hexdigit() && !c.is_ascii_uppercase());
        }
    }
    assert_eq!(id.chars().nth(14), Some('4'));
    assert!(matches!(id.chars().nth(19), Some('8' | '9' | 'a' | 'b')));
    assert_ne!(id, *b.publisher_id());
}

#[test]
fn publisher_frames_and_registration() {
    let p = PublisherSession::start(vec![s("news"), s("weather")]).unwrap();
    let id = p.publisher_id().clone();
    let reg = p.register_message();
    assert_eq!(reg.action, "register");
    assert_eq!(reg.publisher_id, id);
    assert_eq!(reg.topics, vec![s("news"), s("weather")]);
    assert_eq!(p.topics_list(), &vec![s("news"), s("weather")]);
    assert_eq!(p.topic_frame(&s("news")), format!("{}:news", id));
}

#[test]
fn publisher_message_text() {
    assert_eq!(message_text(42, &s("news")), "Message 42 for news");
    assert_eq!(message_text(0, &s("x")), "Message 0 for x");
    assert_eq!(decimal_text(0), "0");
    assert_eq!(decimal_text(1234567890), "1234567890");
    assert_eq!(decimal_text(u64::MAX), u64::MAX.to_string());
}

#[test]
fn publisher_answers_only_its_own_pings() {
    let p = PublisherSession::start(vec![s("news")]).unwrap();
    let id = p.publisher_id().clone();
    let pong = p.pong_for(&PingMessage::ping(id.clone())).unwrap();
    assert_eq!(pong.action, "pong");
    assert_eq!(pong.publisher_id, id);
    assert!(p.pong_for(&PingMessage::ping(s("someone-else"))).is_none());
    let wrong = PingMessage { action: s("pong"), publisher_id: id };
    assert!(p.pong_for(&wrong).is_none());
}

#[test]
fn browser_commands_from_members() {
    assert_eq!(browser_command(Some(s("get_topics")), None, None), Some(BrowserCommand::GetTopics));
    assert_eq!(
        browser_command(Some(s("publish")), Some(s("a:b")), Some(s("hi"))),
        Some(BrowserCommand::Publish { topic: s("a:b"), message: s("hi") })
    );
    assert_eq!(browser_command(Some(s("publish")), Some(s("a:b")), None), None);
    assert_eq!(browser_command(Some(s("other")), None, None), None);
    assert_eq!(browser_command(None, Some(s("t")), Some(s("m"))), None);
}

#[test]
fn browser_commands_from_json_text() {
    assert_eq!(decode_browser_command("{\"action\":\"get_topics\"}"), Some(BrowserCommand::GetTopics));
    assert_eq!(
        decode_browser_command("{\"action\":\"publish\",\"topic\":\"id:news\",\"message\":\"hello \\\"you\\\"\"}"),
        Some(BrowserCommand::Publish { topic: s("id:news"), message: s("hello \"you\"") })
    );
    assert_eq!(decode_browser_command("{\"action\":\"publish\",\"topic\":\"id:news\",\"message\":5}"), None);
    assert_eq!(decode_browser_command("{\"action\":1}"), None);
    assert_eq!(decode_browser_command("[\"get_topics\"]"), None);
    assert_eq!(decode_browser_command("not json"), None);
}

#[test]
fn filter_selects_a_publisher_topic_by_name() {
    let p = PublisherSession::start(vec![s("sports"), s("news")]).unwrap();
    let all = vec![p.topic_frame(&s("sports")), p.topic_frame(&s("news"))];
    let selected = matching_topics(all.clone(), &vec![s("news")]);
    assert_eq!(selected, vec![all[1].clone()]);
    assert!(matching_topics(all, &vec![s("ews")]).is_empty());
}

#[test]
fn feed_shows_two_frame_messages() {
    let json = vec![b"id:news".to_vec(), b"{\"message\":\"hi\"}".to_vec()];
    assert_eq!(
        feed_entry(&json),
        Some(FeedEntry { topic: s("id:news"), data: FeedData::Json(s("{\"message\":\"hi\"}")) })
    );
    let text = vec![b"id:news".to_vec(), b"plain words".to_vec()];
    assert_eq!(
        feed_entry(&text),
        Some(FeedEntry { topic: s("id:news"), data: FeedData::Text(s("plain words")) })
    );
    let invalid = vec![vec![b'a', 0xff], vec![b'1']];
    assert_eq!(
        feed_entry(&invalid),
        Some(FeedEntry { topic: s("a\u{FFFD}"), data: FeedData::Json(s("1")) })
    );
    assert_eq!(feed_entry(&vec![b"id:news".to_vec()]), None);
    assert_eq!(feed_entry(&vec![vec![], vec![], vec![]]), None);
}

#[test]
fn topic_list_reply_for_browsers() {
    assert_eq!(topics_reply(None), "[]");
    assert_eq!(topics_reply(Some(vec![0xff, 0xfe])), "[]");
    assert_eq!(topics_reply(Some(b"not json".to_vec())), "[]");
    assert_eq!(
        topics_reply(Some(b"{\"action\":\"topic_list_response\",\"topics\":[\"a:b\", \"c:d\"]}".to_vec())),
        "[\"a:b\",\"c:d\"]"
    );
    assert_eq!(topics_reply(Some(b"{\"action\":\"x\"}".to_vec())), "null");
    assert_eq!(topics_reply(Some(b"[1,2]".to_vec())), "null");
}

#[test]
fn publisher_id_is_made_of_the_random_bytes() {
    let zero = PublisherSession::from_random_bytes([0u8; 16], vec![s("news")]).unwrap();
    assert_eq!(zero.publisher_id(), "00000000-0000-4000-8000-000000000000");
    let ones = PublisherSession::from_random_bytes([0xffu8; 16], vec![s("news")]).unwrap();
    assert_eq!(ones.publisher_id(), "ffffffff-ffff-4fff-bfff-ffffffffffff");
    let bytes = [
        0x67, 0xe5, 0x50, 0x44, 0x10, 0xb1, 0x42, 0x6f, 0x92, 0x47, 0xbb, 0x68, 0x0e, 0x5f, 0xe0,
        0xc8,
    ];
    let p = PublisherSession::from_random_bytes(bytes, vec![s("a"), s("b")]).unwrap();
    assert_eq!(p.publisher_id(), "67e55044-10b1-426f-9247-bb680e5fe0c8");
    assert_eq!(p.topics_list(), &vec![s("a"), s("b")]);
    assert!(matches!(
        PublisherSession::from_random_bytes(bytes, vec![]),
        Err(PublisherError::NoTopics)
    ));
}
