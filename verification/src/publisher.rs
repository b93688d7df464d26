//! The publisher's side of the protocol: its identity, its registration,
//! the frames it publishes and its answers to the broker's pings.

use vstd::prelude::*;

use crate::messages::{ping_action, PingMessage, PongMessage, RegisterMessage};
use crate::text::{namespaced, namespaced_topic};

verus! {

/// `c` is a lower-case hexadecimal digit.
pub open spec fn is_lower_hex_digit(c: char) -> bool {
    ('0' <= c && c <= '9') || ('a' <= c && c <= 'f')
}

/// `s` is a random UUID in hyphenated lower-case form, such as
/// `67e55044-10b1-426f-9247-bb680e5fe0c8`, whose version digit is 4 and
/// whose variant digit is one of `8`, `9`, `a`, `b`.
pub open spec fn is_hyphenated_uuid(s: Seq<char>) -> bool {
    &&& s.len() == 36
    &&& forall|i: int|
        0 <= i < 36 ==> if i == 8 || i == 13 || i == 18 || i == 23 {
            #[trigger] s[i] == '-'
        } else {
            is_lower_hex_digit(s[i])
        }
    &&& s[14] == '4'
    &&& (s[19] == '8' || s[19] == '9' || s[19] == 'a' || s[19] == 'b')
}

/// Sixteen bytes from `getrandom::fill`, the operating system's random
/// source; nothing when that source fails. Which bytes come is left open.
#[verifier::external_body]
fn random_bytes() -> (res: Option<[u8; 16]>) {
    let mut bytes = [0u8; 16];
    match getrandom::fill(&mut bytes) {
        Ok(()) => Some(bytes),
        Err(_) => None,
    }
}

/// The lower-case hexadecimal digit of `n` (below 16).
pub open spec fn hex_digit(n: u8) -> char {
    if n == 0 {
        '0'
    } else if n == 1 {
        '1'
    } else if n == 2 {
        '2'
    } else if n == 3 {
        '3'
    } else if n == 4 {
        '4'
    } else if n == 5 {
        '5'
    } else if n == 6 {
        '6'
    } else if n == 7 {
        '7'
    } else if n == 8 {
        '8'
    } else if n == 9 {
        '9'
    } else if n == 10 {
        'a'
    } else if n == 11 {
        'b'
    } else if n == 12 {
        'c'
    } else if n == 13 {
        'd'
    } else if n == 14 {
        'e'
    } else {
        'f'
    }
}

/// `bytes` in lower-case hexadecimal, two digits per byte, high digit first.
pub open spec fn hex_text(bytes: Seq<u8>) -> Seq<char>
    decreases bytes.len(),
{
    if bytes.len() == 0 {
        seq![]
    } else {
        hex_text(bytes.drop_last()) + seq![
            hex_digit(bytes.last() / 16),
            hex_digit(bytes.last() % 16),
        ]
    }
}

/// The bytes of a random (version 4, RFC 4122 variant) UUID made of
/// `bytes`: the high four bits of byte 6 become `0100`, the high two bits of
/// byte 8 become `10`.
pub open spec fn uuid_v4_bytes(bytes: Seq<u8>) -> Seq<u8> {
    bytes.update(6, (bytes[6] % 16 + 0x40) as u8).update(8, (bytes[8] % 64 + 0x80) as u8)
}

/// The hyphenated form of 32 hexadecimal digits: groups of 8, 4, 4, 4 and 12
/// joined by `-`.
pub open spec fn hyphenated(h: Seq<char>) -> Seq<char> {
    h.subrange(0, 8) + seq!['-'] + h.subrange(8, 12) + seq!['-'] + h.subrange(12, 16) + seq![
        '-',
    ] + h.subrange(16, 20) + seq!['-'] + h.subrange(20, 32)
}

/// The text of the random UUID made of `bytes`.
pub open spec fn uuid_v4_text(bytes: Seq<u8>) -> Seq<char> {
    hyphenated(hex_text(uuid_v4_bytes(bytes)))
}

/// `uuid::Builder::from_random_bytes(bytes).into_uuid()`, written by its
/// `Display` impl: the crate sets the version bits of byte 6 to 4 and the
/// variant bits of byte 8 to `10`, and writes the sixteen bytes as lower-case
/// hexadecimal digits in groups of 8, 4, 4, 4 and 12 joined by `-`.
#[verifier::external_body]
fn uuid_text_from_random_bytes(bytes: [u8; 16]) -> (res: String)
    ensures
        res@ == uuid_v4_text(bytes@),
{
    uuid::Builder::from_random_bytes(bytes).into_uuid().to_string()
}

/// The digits of `hex_text(bytes)`: byte `i` gives digits `2 i` and `2 i + 1`.
proof fn lemma_hex_text(bytes: Seq<u8>)
    ensures
        hex_text(bytes).len() == 2 * bytes.len(),
        forall|i: int|
            0 <= i < bytes.len() ==> hex_text(bytes)[2 * i] == hex_digit(#[trigger] bytes[i] / 16)
                && hex_text(bytes)[2 * i + 1] == hex_digit(bytes[i] % 16),
    decreases bytes.len(),
{
    if bytes.len() > 0 {
        let rest = bytes.drop_last();
        lemma_hex_text(rest);
        assert forall|i: int| 0 <= i < bytes.len() implies hex_text(bytes)[2 * i] == hex_digit(
            #[trigger] bytes[i] / 16,
        ) && hex_text(bytes)[2 * i + 1] == hex_digit(bytes[i] % 16) by {
            if i < rest.len() {
                assert(rest[i] == bytes[i]);
            }
        }
    }
}

/// The text of a random UUID has the hyphenated version-4 form.
proof fn lemma_uuid_v4_text_form(bytes: Seq<u8>)
    requires
        bytes.len() == 16,
    ensures
        is_hyphenated_uuid(uuid_v4_text(bytes)),
{
    let v = uuid_v4_bytes(bytes);
    let h = hex_text(v);
    lemma_hex_text(v);
    let t = uuid_v4_text(bytes);
    assert(t.len() == 36);
    assert forall|i: int| 0 <= i < 32 implies is_lower_hex_digit(#[trigger] h[i]) by {
        let k = i / 2;
        assert(0 <= k < 16);
        if i % 2 == 0 {
            assert(i == 2 * k);
            assert(h[2 * k] == hex_digit(v[k] / 16));
        } else {
            assert(i == 2 * k + 1);
            assert(h[2 * k + 1] == hex_digit(v[k] % 16));
        }
    }
    assert forall|i: int|
        0 <= i < 36 implies if i == 8 || i == 13 || i == 18 || i == 23 {
        #[trigger] t[i] == '-'
    } else {
        is_lower_hex_digit(t[i])
    } by {
        if i < 8 {
            assert(t[i] == h[i]);
        } else if 8 < i < 13 {
            assert(t[i] == h[i - 1]);
        } else if 13 < i < 18 {
            assert(t[i] == h[i - 2]);
        } else if 18 < i < 23 {
            assert(t[i] == h[i - 3]);
        } else if 23 < i {
            assert(t[i] == h[i - 4]);
        }
    }
    assert(t[14] == h[12]);
    assert(h[2 * 6int] == hex_digit(v[6] / 16));
    assert(v[6] == (bytes[6] % 16 + 0x40) as u8);
    assert(t[19] == h[16]);
    assert(h[2 * 8int] == hex_digit(v[8] / 16));
    assert(v[8] == (bytes[8] % 64 + 0x80) as u8);
}

/// The digit `d` as a character.
pub open spec fn digit_char(d: nat) -> char {
    if d == 0 {
        '0'
    } else if d == 1 {
        '1'
    } else if d == 2 {
        '2'
    } else if d == 3 {
        '3'
    } else if d == 4 {
        '4'
    } else if d == 5 {
        '5'
    } else if d == 6 {
        '6'
    } else if d == 7 {
        '7'
    } else if d == 8 {
        '8'
    } else {
        '9'
    }
}

/// `n` in decimal, without leading zeros.
pub open spec fn decimal(n: nat) -> Seq<char>
    decreases n,
{
    if n < 10 {
        seq![digit_char(n)]
    } else {
        decimal(n / 10).push(digit_char(n % 10))
    }
}

/// The one-character text of the digit `d`.
fn digit_text(d: u64) -> (res: &'static str)
    requires
        d < 10,
    ensures
        res@ == seq![digit_char(d as nat)],
{
    proof {
        reveal_strlit("0");
        reveal_strlit("1");
        reveal_strlit("2");
        reveal_strlit("3");
        reveal_strlit("4");
        reveal_strlit("5");
        reveal_strlit("6");
        reveal_strlit("7");
        reveal_strlit("8");
        reveal_strlit("9");
    }
    match d {
        0 => "0",
        1 => "1",
        2 => "2",
        3 => "3",
        4 => "4",
        5 => "5",
        6 => "6",
        7 => "7",
        8 => "8",
        _ => "9",
    }
}

/// `n` written in decimal.
pub fn decimal_text(n: u64) -> (res: String)
    ensures
        res@ == decimal(n as nat),
    decreases n,
{
    if n < 10 {
        String::from_str(digit_text(n))
    } else {
        let mut res = decimal_text(n / 10);
        res.append(digit_text(n % 10));
        res
    }
}

/// The text `Message <counter> for <topic>` that a publisher sends on
/// `topic` in its round `counter`.
pub open spec fn message_text_spec(counter: u64, topic: Seq<char>) -> Seq<char> {
    "Message "@ + decimal(counter as nat) + " for "@ + topic
}

/// The text a publisher sends on `topic` in its round `counter`.
pub fn message_text(counter: u64, topic: &String) -> (res: String)
    ensures
        res@ == message_text_spec(counter, topic@),
{
    let mut res = String::from_str("Message ");
    let digits = decimal_text(counter);
    res.append(digits.as_str());
    res.append(" for ");
    res.append(topic.as_str());
    res
}

/// Why a publisher cannot start.
#[derive(Debug, PartialEq, Eq)]
pub enum PublisherError {
    /// It was given no topic to publish on.
    NoTopics,
    /// The operating system's random source gave no bytes for its id.
    NoRandomSource,
}

/// A running publisher: its id and the topics it publishes on.
pub struct PublisherSession {
    publisher_id: String,
    topics: Vec<String>,
}

/// The copy of `v`, element for element.
fn clone_strings(v: &Vec<String>) -> (res: Vec<String>)
    ensures
        res.deep_view() == v.deep_view(),
{
    let mut res: Vec<String> = Vec::new();
    let mut i: usize = 0;
    while i < v.len()
        invariant
            i <= v@.len(),
            res.deep_view() == v.deep_view().take(i as int),
        decreases v@.len() - i,
    {
        let ghost prev = res.deep_view();
        res.push(v[i].clone());
        assert(res.deep_view() =~= prev.push(v.deep_view()[i as int]));
        assert(v.deep_view().take(i + 1) =~= v.deep_view().take(i as int).push(
            v.deep_view()[i as int],
        ));
        i += 1;
    }
    assert(v.deep_view().take(i as int) =~= v.deep_view());
    res
}

impl PublisherSession {
    /// The publisher's id.
    pub closed spec fn id(&self) -> Seq<char> {
        self.publisher_id@
    }

    /// The topics the publisher publishes on.
    pub closed spec fn topics(&self) -> Seq<Seq<char>> {
        self.topics.deep_view()
    }

    /// A publisher on `topics` whose id is the random UUID made of `bytes`.
    /// Without a topic there is nothing to publish.
    pub fn from_random_bytes(bytes: [u8; 16], topics: Vec<String>) -> (res: Result<
        PublisherSession,
        PublisherError,
    >)
        ensures
            topics@.len() == 0 <==> res is Err,
            res matches Err(e) ==> e == PublisherError::NoTopics,
            res matches Ok(session) ==> {
                &&& session.id() == uuid_v4_text(bytes@)
                &&& session.topics() == topics.deep_view()
                &&& is_hyphenated_uuid(session.id())
            },
    {
        if topics.len() == 0 {
            return Err(PublisherError::NoTopics);
        }
        let publisher_id = uuid_text_from_random_bytes(bytes);
        proof {
            lemma_uuid_v4_text_form(bytes@);
        }
        Ok(PublisherSession { publisher_id, topics })
    }

    /// Starts a publisher on `topics` under a fresh random id, made by
    /// `from_random_bytes` of sixteen bytes from the operating system. Without
    /// a topic there is nothing to publish, and no bytes are drawn; when the
    /// operating system gives no random bytes there is no id.
    pub fn start(topics: Vec<String>) -> (res: Result<PublisherSession, PublisherError>)
        ensures
            topics@.len() == 0 <==> res == Err::<PublisherSession, PublisherError>(
                PublisherError::NoTopics,
            ),
            res matches Err(e) ==> (e == PublisherError::NoTopics || e
                == PublisherError::NoRandomSource),
            res matches Ok(session) ==> {
                &&& session.topics() == topics.deep_view()
                &&& is_hyphenated_uuid(session.id())
                &&& exists|bytes: Seq<u8>|
                    bytes.len() == 16 && session.id() == uuid_v4_text(bytes)
            },
    {
        if topics.len() == 0 {
            return Err(PublisherError::NoTopics);
        }
        match random_bytes() {
            Some(bytes) => {
                let res = PublisherSession::from_random_bytes(bytes, topics);
                assert(bytes@.len() == 16);
                res
            },
            None => Err(PublisherError::NoRandomSource),
        }
    }

    /// The publisher's id.
    pub fn publisher_id(&self) -> (res: &String)
        ensures
            res@ == self.id(),
    {
        &self.publisher_id
    }

    /// The topics the publisher publishes on.
    pub fn topics_list(&self) -> (res: &Vec<String>)
        ensures
            res.deep_view() == self.topics(),
    {
        &self.topics
    }

    /// The registration that announces this publisher and its topics.
    pub fn register_message(&self) -> (res: RegisterMessage)
        ensures
            res.action@ == crate::messages::register_action(),
            res.publisher_id@ == self.id(),
            res.topics.deep_view() == self.topics(),
    {
        RegisterMessage::register(self.publisher_id.clone(), clone_strings(&self.topics))
    }

    /// The first frame of a publication on `topic`: `<publisher_id>:<topic>`.
    pub fn topic_frame(&self, topic: &String) -> (res: String)
        ensures
            res@ == namespaced(self.id(), topic@),
    {
        namespaced_topic(&self.publisher_id, topic)
    }

    /// The answer to `ping`: a pong carrying this publisher's id when `ping`
    /// is a ping addressed to this publisher, nothing otherwise.
    pub fn pong_for(&self, ping: &PingMessage) -> (res: Option<PongMessage>)
        ensures
            (ping.action@ == ping_action() && ping.publisher_id@ == self.id()) <==> res is Some,
            res matches Some(pong) ==> {
                &&& pong.action@ == crate::messages::pong_action()
                &&& pong.publisher_id@ == self.id()
            },
    {
        if ping.is_ping() && ping.publisher_id == self.publisher_id {
            Some(PongMessage::pong(self.publisher_id.clone()))
        } else {
            None
        }
    }
}

} // verus!
