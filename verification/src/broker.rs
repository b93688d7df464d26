//! The broker's registry of publishers: registration, topic discovery,
//! keepalive bookkeeping and eviction. Times are nanoseconds on a monotonic
//! clock chosen by the caller.

use vstd::prelude::*;

use crate::messages::{
    ping_action, pong_action, register_action, PongMessage, topic_list_response_action, PingMessage, RegisterMessage, TopicListResponse,
};
use crate::text::{namespaced, namespaced_topic};

verus! {

/// A publisher that has not answered a ping for this long (60 s) is evicted.
pub const PUBLISHER_TIMEOUT_NANOS: u64 = 60_000_000_000;

/// The broker pings every publisher once this much time (20 s) has passed.
pub const PING_INTERVAL_NANOS: u64 = 20_000_000_000;

/// The time from `since` to `now`; zero when `now` is earlier.
pub open spec fn elapsed(since: u64, now: u64) -> nat {
    if since <= now {
        (now - since) as nat
    } else {
        0
    }
}

/// The time from `since` to `now`, saturating at zero.
pub fn elapsed_nanos(since: u64, now: u64) -> (res: u64)
    ensures
        res == elapsed(since, now),
{
    if since <= now {
        now - since
    } else {
        0
    }
}

/// What the registry knows of one publisher.
pub struct PublisherRecord {
    pub id: Seq<char>,
    pub topics: Seq<Seq<char>>,
    pub last_pong: u64,
}

/// A registered publisher: its id, its topics and when it last answered.
pub struct PublisherInfo {
    publisher_id: String,
    topics: Vec<String>,
    last_pong: u64,
}

impl View for PublisherInfo {
    type V = PublisherRecord;

    closed spec fn view(&self) -> PublisherRecord {
        PublisherRecord {
            id: self.publisher_id@,
            topics: self.topics.deep_view(),
            last_pong: self.last_pong,
        }
    }
}

/// No two records of `s` share an id.
pub open spec fn unique_ids(s: Seq<PublisherRecord>) -> bool {
    forall|i: int, j: int| 0 <= i < j < s.len() ==> s[i].id != s[j].id
}

/// Some record of `s` has the id `id`.
pub open spec fn is_registered(s: Seq<PublisherRecord>, id: Seq<char>) -> bool {
    exists|i: int| 0 <= i < s.len() && s[i].id == id
}

/// The registry after `id` registers `topics` at `now`: an existing record
/// of `id` is replaced where it stands, otherwise a new one is appended.
pub open spec fn after_register(
    s: Seq<PublisherRecord>,
    id: Seq<char>,
    topics: Seq<Seq<char>>,
    now: u64,
) -> Seq<PublisherRecord> {
    let rec = PublisherRecord { id, topics, last_pong: now };
    if is_registered(s, id) {
        s.map_values(|r: PublisherRecord| if r.id == id { rec } else { r })
    } else {
        s.push(rec)
    }
}

/// The registry after a pong of `id` at `now`: only the liveness of `id` changes.
pub open spec fn after_pong(s: Seq<PublisherRecord>, id: Seq<char>, now: u64) -> Seq<
    PublisherRecord,
> {
    s.map_values(
        |r: PublisherRecord|
            if r.id == id {
                PublisherRecord { id: r.id, topics: r.topics, last_pong: now }
            } else {
                r
            },
    )
}

/// A publisher whose last pong is less than the timeout before `now`.
pub open spec fn is_alive(r: PublisherRecord, now: u64) -> bool {
    elapsed(r.last_pong, now) < PUBLISHER_TIMEOUT_NANOS
}

/// The registry after eviction at `now`: the live records, in order.
pub open spec fn after_eviction(s: Seq<PublisherRecord>, now: u64) -> Seq<PublisherRecord> {
    s.filter(|r: PublisherRecord| is_alive(r, now))
}

/// The namespaced topics of one publisher, in the order it registered them.
pub open spec fn namespaced_topics(r: PublisherRecord) -> Seq<Seq<char>> {
    r.topics.map_values(|t: Seq<char>| namespaced(r.id, t))
}

/// Every namespaced topic of the registry, publisher by publisher.
pub open spec fn topic_list(s: Seq<PublisherRecord>) -> Seq<Seq<char>>
    decreases s.len(),
{
    if s.len() == 0 {
        seq![]
    } else {
        topic_list(s.drop_last()) + namespaced_topics(s.last())
    }
}

/// A frame to send, and whether more frames of the same message follow it.
pub struct OutboundFrame {
    pub data: Vec<u8>,
    pub more: bool,
}

/// `out` sends the frames of `frames` in order, each but the last one
/// marked as followed by more.
pub open spec fn forwards(frames: Seq<Vec<u8>>, out: Seq<OutboundFrame>) -> bool {
    &&& out.len() == frames.len()
    &&& forall|i: int|
        0 <= i < out.len() ==> {
            &&& (#[trigger] out[i]).data@ == frames[i]@
            &&& out[i].more == (i + 1 < out.len())
        }
}

/// The frames of one message, to be sent in order as one message.
pub fn multipart_frames(frames: Vec<Vec<u8>>) -> (res: Vec<OutboundFrame>)
    ensures
        forwards(frames@, res@),
{
    let n = frames.len();
    let mut res: Vec<OutboundFrame> = Vec::new();
    for data in it: frames
        invariant
            n == frames@.len(),
            it.seq() == frames@,
            res@.len() == it.index(),
            forall|i: int|
                0 <= i < res@.len() ==> {
                    &&& (#[trigger] res@[i]).data@ == frames@[i]@
                    &&& res@[i].more == (i + 1 < n)
                },
    {
        let more = res.len() + 1 < n;
        res.push(OutboundFrame { data, more });
    }
    res
}

/// A message from a subscriber's side is a subscription change, to be
/// passed upstream, when its first byte is 1 (subscribe) or 0 (unsubscribe).
pub fn is_subscription_change(msg: &Vec<u8>) -> (res: bool)
    ensures
        res == (msg@.len() > 0 && (msg@[0] == 0 || msg@[0] == 1)),
{
    msg.len() > 0 && (msg[0] == 0 || msg[0] == 1)
}

/// What became of a message from the publishers' side.
pub enum PublisherTraffic {
    /// It registered the publisher with this id.
    Registered(String),
    /// It is to be forwarded to the subscribers as these frames.
    Forward(Vec<OutboundFrame>),
}

impl PublisherTraffic {
    /// Whether this message ends the current pass of the broker's loop: a
    /// registration does, so the topic list answer and the eviction of that
    /// pass wait for the next one; forwarded traffic does not.
    pub fn ends_pass(&self) -> (res: bool)
        ensures
            res == (self is Registered),
    {
        match self {
            PublisherTraffic::Registered(_) => true,
            PublisherTraffic::Forward(_) => false,
        }
    }
}

/// A message of `frame_count` frames whose first frame parsed as
/// `registration` registers a publisher.
pub open spec fn is_registration(frame_count: nat, registration: Option<RegisterMessage>) -> bool {
    &&& frame_count == 1
    &&& registration matches Some(msg)
    &&& msg.action@ == register_action()
}

/// A reply on the keepalive channel of `frame_count` frames (identity and
/// body) whose body parsed as `reply` is a pong.
pub open spec fn is_pong_reply(frame_count: nat, reply: Option<PongMessage>) -> bool {
    &&& frame_count == 2
    &&& reply matches Some(pong)
    &&& pong.action@ == pong_action()
}

/// Whether a reply on the keepalive channel is a pong.
pub fn accepts_ping_reply(frame_count: usize, reply: &Option<PongMessage>) -> (res: bool)
    ensures
        res == is_pong_reply(frame_count as nat, *reply),
{
    match reply {
        Some(pong) => frame_count == 2 && pong.is_pong(),
        None => false,
    }
}

/// Whether the publishers are to be pinged again: more than the ping
/// interval has passed since `last_ping`.
pub fn ping_due(last_ping: u64, now: u64) -> (res: bool)
    ensures
        res == (elapsed(last_ping, now) > PING_INTERVAL_NANOS),
{
    elapsed_nanos(last_ping, now) > PING_INTERVAL_NANOS
}

/// A ping round is due at `now` when more than the ping interval has passed
/// since the last round at `last_ping`.
pub open spec fn ping_round_due(last_ping: u64, now: u64) -> bool {
    elapsed(last_ping, now) > PING_INTERVAL_NANOS
}

/// The time of the last ping round after a check at `now`: it moves to `now`
/// exactly when a round is due.
pub open spec fn after_ping_check(last_ping: u64, now: u64) -> u64 {
    if ping_round_due(last_ping, now) {
        now
    } else {
        last_ping
    }
}

/// When the broker last pinged its publishers.
pub struct PingTimer {
    last_ping: u64,
}

impl PingTimer {
    /// The time of the last ping round (or of the start).
    pub closed spec fn last_ping(&self) -> u64 {
        self.last_ping
    }

    /// A timer started at `now`: the first round comes more than the ping
    /// interval later.
    pub fn new(now: u64) -> (res: Self)
        ensures
            res.last_ping() == now,
    {
        PingTimer { last_ping: now }
    }

    /// Checks the timer at `now`: a round is due when more than the ping
    /// interval has passed since the last one, and it then counts as done
    /// at `now`.
    pub fn tick(&mut self, now: u64) -> (due: bool)
        ensures
            due == ping_round_due(old(self).last_ping(), now),
            final(self).last_ping() == after_ping_check(old(self).last_ping(), now),
    {
        let due = ping_due(self.last_ping, now);
        if due {
            self.last_ping = now;
        }
        due
    }
}

/// The publisher registry of the broker.
pub struct Broker {
    publishers: Vec<PublisherInfo>,
}

impl View for Broker {
    type V = Seq<PublisherRecord>;

    closed spec fn view(&self) -> Seq<PublisherRecord> {
        self.publishers@.map_values(|p: PublisherInfo| p@)
    }
}

impl Broker {
    /// The registry is well formed: each publisher stands in it once.
    pub open spec fn wf(&self) -> bool {
        unique_ids(self@)
    }

    /// An empty registry.
    pub fn new() -> (res: Self)
        ensures
            res.wf(),
            res@ == Seq::<PublisherRecord>::empty(),
    {
        let res = Broker { publishers: Vec::new() };
        assert(res@ =~= Seq::<PublisherRecord>::empty());
        res
    }

    /// The number of registered publishers.
    pub fn len(&self) -> (res: usize)
        ensures
            res == self@.len(),
    {
        self.publishers.len()
    }

    /// Records the registration `msg` at `now`. A publisher that registers
    /// again gets its topics replaced and its liveness renewed.
    pub fn handle_register(&mut self, msg: RegisterMessage, now: u64)
        requires
            old(self).wf(),
        ensures
            final(self).wf(),
            final(self)@ == after_register(
                old(self)@,
                msg.publisher_id@,
                msg.topics.deep_view(),
                now,
            ),
    {
        let ghost id = msg.publisher_id@;
        let ghost topics = msg.topics.deep_view();
        let ghost s = self@;
        let ghost rec = PublisherRecord { id, topics, last_pong: now };
        let mut i: usize = 0;
        while i < self.publishers.len()
            invariant
                self@ == s,
                s == old(self)@,
                id == msg.publisher_id@,
                topics == msg.topics.deep_view(),
                rec == (PublisherRecord { id, topics, last_pong: now }),
                unique_ids(s),
                i <= s.len(),
                self.publishers@.len() == s.len(),
                forall|k: int| 0 <= k < i ==> s[k].id != id,
            decreases s.len() - i,
        {
            assert(s[i as int] == self.publishers@[i as int]@);
            if self.publishers[i].publisher_id == msg.publisher_id {
                let info = PublisherInfo {
                    publisher_id: msg.publisher_id,
                    topics: msg.topics,
                    last_pong: now,
                };
                assert(info@.topics =~= rec.topics);
                self.publishers.set(i, info);
                proof {
                    assert(s[i as int].id == id);
                    assert(is_registered(s, id));
                    assert(self@ =~= after_register(s, id, topics, now));
                }
                return;
            }
            i += 1;
        }
        let info = PublisherInfo { publisher_id: msg.publisher_id, topics: msg.topics, last_pong: now };
        assert(info@.topics =~= rec.topics);
        self.publishers.push(info);
        proof {
            assert(!is_registered(s, id));
            assert(self@ =~= s.push(rec));
        }
    }

    /// The answer to a topic discovery request: every namespaced topic
    /// `<publisher_id>:<topic>` of the registry.
    pub fn handle_topic_list_request(&self) -> (res: TopicListResponse)
        ensures
            res.action@ == topic_list_response_action(),
            res.topics.deep_view() == topic_list(self@),
    {
        let ghost s = self@;
        let mut topics: Vec<String> = Vec::new();
        let mut i: usize = 0;
        while i < self.publishers.len()
            invariant
                s == self@,
                i <= s.len(),
                self.publishers@.len() == s.len(),
                topics.deep_view() == topic_list(s.take(i as int)),
            decreases s.len() - i,
        {
            let info = &self.publishers[i];
            assert(s[i as int] == info@);
            let ghost before = topics.deep_view();
            let mut j: usize = 0;
            while j < info.topics.len()
                invariant
                    info@ == s[i as int],
                    j <= info.topics@.len(),
                    topics.deep_view() == before + namespaced_topics(info@).take(j as int),
                decreases info.topics@.len() - j,
            {
                let t = namespaced_topic(&info.publisher_id, &info.topics[j]);
                let ghost prev = topics.deep_view();
                topics.push(t);
                proof {
                    assert(topics.deep_view() =~= prev.push(t@));
                    assert(namespaced_topics(info@).take(j + 1) =~= namespaced_topics(info@).take(
                        j as int,
                    ).push(t@));
                }
                j += 1;
            }
            proof {
                assert(namespaced_topics(info@).take(j as int) =~= namespaced_topics(info@));
                assert(s.take(i + 1).drop_last() =~= s.take(i as int));
            }
            i += 1;
        }
        assert(s.take(i as int) =~= s);
        TopicListResponse::new(topics)
    }

    /// Evicts every publisher whose last pong is not less than the timeout
    /// before `now`; the others keep their order.
    pub fn remove_inactive_publishers(&mut self, now: u64)
        requires
            old(self).wf(),
        ensures
            final(self).wf(),
            final(self)@ == after_eviction(old(self)@, now),
    {
        let ghost s = self@;
        let mut old_publishers: Vec<PublisherInfo> = Vec::new();
        std::mem::swap(&mut old_publishers, &mut self.publishers);
        assert(old_publishers@.map_values(|p: PublisherInfo| p@) == s);
        let ghost pred = |r: PublisherRecord| is_alive(r, now);
        for info in it: old_publishers
            invariant
                s == old(self)@,
                old_publishers@.map_values(|p: PublisherInfo| p@) == s,
                it.seq() == old_publishers@,
                self@ == s.take(it.index() as int).filter(pred),
                pred == (|r: PublisherRecord| is_alive(r, now)),
        {
            let ghost k = it.index();
            assert(info == old_publishers@[k as int]);
            let ghost prev = self@;
            if elapsed_nanos(info.last_pong, now) < PUBLISHER_TIMEOUT_NANOS {
                self.publishers.push(info);
                assert(self@ =~= prev.push(s[k as int]));
            } else {
                assert(self@ =~= prev);
            }
            proof {
                reveal_with_fuel(Seq::<PublisherRecord>::filter, 1);
                assert(s.take(k + 1).drop_last() =~= s.take(k as int));
            }
        }
        proof {
            assert(s.take(s.len() as int) =~= s);
            lemma_filter_keeps_unique(s, pred);
        }
    }

    /// Records a pong of `publisher_id` at `now`. Nothing changes when that
    /// publisher is not registered.
    pub fn record_pong(&mut self, publisher_id: &String, now: u64)
        requires
            old(self).wf(),
        ensures
            final(self).wf(),
            final(self)@ == after_pong(old(self)@, publisher_id@, now),
    {
        let ghost s = self@;
        let ghost id = publisher_id@;
        let mut i: usize = 0;
        while i < self.publishers.len()
            invariant
                self@ == s,
                s == old(self)@,
                id == publisher_id@,
                unique_ids(s),
                i <= s.len(),
                self.publishers@.len() == s.len(),
                forall|k: int| 0 <= k < i ==> s[k].id != id,
            decreases s.len() - i,
        {
            assert(s[i as int] == self.publishers@[i as int]@);
            if self.publishers[i].publisher_id == *publisher_id {
                self.publishers[i].last_pong = now;
                proof {
                    assert(self@ =~= after_pong(s, id, now));
                }
                return;
            }
            i += 1;
        }
        assert(self@ =~= after_pong(s, id, now));
    }

    /// One ping for each registered publisher, in registry order.
    pub fn ping_messages(&self) -> (res: Vec<PingMessage>)
        ensures
            res@.len() == self@.len(),
            forall|i: int|
                0 <= i < res@.len() ==> {
                    &&& #[trigger] res@[i].action@ == ping_action()
                    &&& res@[i].publisher_id@ == self@[i].id
                },
    {
        let mut res: Vec<PingMessage> = Vec::new();
        let mut i: usize = 0;
        while i < self.publishers.len()
            invariant
                i <= self@.len(),
                self.publishers@.len() == self@.len(),
                res@.len() == i,
                forall|k: int|
                    0 <= k < i ==> {
                        &&& #[trigger] res@[k].action@ == ping_action()
                        &&& res@[k].publisher_id@ == self@[k].id
                    },
            decreases self@.len() - i,
        {
            assert(self@[i as int] == self.publishers@[i as int]@);
            let ping = PingMessage::ping(self.publishers[i].publisher_id.clone());
            res.push(ping);
            i += 1;
        }
        res
    }

    /// Handles one message read from the publishers' side. A single frame
    /// that parsed as a registration (`registration`) whose action is
    /// `register` registers its publisher at `now`; any other message is
    /// forwarded to the subscribers' side frame for frame.
    pub fn handle_publisher_frames(
        &mut self,
        frames: Vec<Vec<u8>>,
        registration: Option<RegisterMessage>,
        now: u64,
    ) -> (res: PublisherTraffic)
        requires
            old(self).wf(),
            frames@.len() >= 1,
        ensures
            final(self).wf(),
            is_registration(frames@.len(), registration) ==> {
                &&& res == PublisherTraffic::Registered(registration->0.publisher_id)
                &&& final(self)@ == after_register(
                    old(self)@,
                    registration->0.publisher_id@,
                    registration->0.topics.deep_view(),
                    now,
                )
            },
            !is_registration(frames@.len(), registration) ==> {
                &&& res matches PublisherTraffic::Forward(out) && forwards(frames@, out@)
                &&& final(self)@ == old(self)@
            },
    {
        let n = frames.len();
        match registration {
            Some(msg) => {
                if n == 1 && msg.is_register() {
                    let id = msg.publisher_id.clone();
                    self.handle_register(msg, now);
                    return PublisherTraffic::Registered(id);
                }
            },
            None => {},
        }
        PublisherTraffic::Forward(multipart_frames(frames))
    }
}

/// Filtering keeps ids unique.
pub proof fn lemma_filter_keeps_unique(s: Seq<PublisherRecord>, pred: spec_fn(PublisherRecord) -> bool)
    requires
        unique_ids(s),
    ensures
        unique_ids(s.filter(pred)),
    decreases s.len(),
{
    reveal_with_fuel(Seq::<PublisherRecord>::filter, 1);
    if s.len() > 0 {
        let rest = s.drop_last();
        lemma_filter_keeps_unique(rest, pred);
        if pred(s.last()) {
            assert forall|i: int| 0 <= i < rest.filter(pred).len() implies rest.filter(pred)[i].id
                != s.last().id by {
                rest.lemma_filter_contains_rev(pred, rest.filter(pred)[i]);
            }
        }
    }
}

} // verus!
