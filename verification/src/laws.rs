//! Properties of the protocol that span several operations.

use vstd::prelude::*;

use crate::broker::{
    after_eviction, after_ping_check, after_pong, after_register, elapsed, is_alive,
    is_registered, lemma_filter_keeps_unique, namespaced_topics, ping_round_due, topic_list,
    unique_ids, PublisherRecord, PING_INTERVAL_NANOS, PUBLISHER_TIMEOUT_NANOS,
};
use crate::broker::is_registration;
use crate::messages::RegisterMessage;
use crate::publisher::{decimal, digit_char, is_hyphenated_uuid, message_text_spec};
use crate::subscriber::{matches_any, matches_name, selected_topics};
use crate::web::{is_command_for, BrowserCommand};
use crate::text::{namespaced, separator};

verus! {

/// A topic is in the topic list exactly when it is `<id>:<topic>` for a
/// registered publisher `id` and one of its topics.
pub proof fn lemma_topic_list_membership(s: Seq<PublisherRecord>, x: Seq<char>)
    ensures
        topic_list(s).contains(x) <==> exists|i: int, j: int|
            0 <= i < s.len() && 0 <= j < s[i].topics.len() && x == namespaced(
                s[i].id,
                #[trigger] s[i].topics[j],
            ),
    decreases s.len(),
{
    if s.len() > 0 {
        let rest = s.drop_last();
        lemma_topic_list_membership(rest, x);
        let last = namespaced_topics(s.last());
        let prefix = topic_list(rest);
        assert(topic_list(s) == prefix + last);
        if topic_list(s).contains(x) {
            let k = choose|k: int| 0 <= k < topic_list(s).len() && topic_list(s)[k] == x;
            if k < prefix.len() {
                assert(prefix[k] == x);
                let (i, j) = choose|i: int, j: int|
                    0 <= i < rest.len() && 0 <= j < rest[i].topics.len() && x == namespaced(
                        rest[i].id,
                        #[trigger] rest[i].topics[j],
                    );
                assert(s[i] == rest[i]);
            } else {
                let j = k - prefix.len();
                assert(last[j] == x);
                assert(x == namespaced(s[s.len() - 1].id, s[s.len() - 1].topics[j]));
            }
        }
        if exists|i: int, j: int|
            0 <= i < s.len() && 0 <= j < s[i].topics.len() && x == namespaced(
                s[i].id,
                #[trigger] s[i].topics[j],
            ) {
            let (i, j) = choose|i: int, j: int|
                0 <= i < s.len() && 0 <= j < s[i].topics.len() && x == namespaced(
                    s[i].id,
                    #[trigger] s[i].topics[j],
                );
            if i < s.len() - 1 {
                assert(rest[i] == s[i]);
                assert(rest[i].topics[j] == s[i].topics[j]);
                let k = choose|k: int| 0 <= k < prefix.len() && prefix[k] == x;
                assert(topic_list(s)[k] == x);
            } else {
                assert(last[j] == x);
                assert(topic_list(s)[prefix.len() + j] == x);
            }
        }
    }
}

/// Registering `topics` for `id` is read back: afterwards the registry
/// holds `id` once, with exactly `topics` and its liveness renewed, the
/// topic list offers each of them as `<id>:<topic>`, and every other
/// publisher stays as it was.
pub proof fn lemma_register_read_back(
    s: Seq<PublisherRecord>,
    id: Seq<char>,
    topics: Seq<Seq<char>>,
    now: u64,
)
    requires
        unique_ids(s),
    ensures
        unique_ids(after_register(s, id, topics, now)),
        after_register(s, id, topics, now).contains(
            PublisherRecord { id, topics, last_pong: now },
        ),
        forall|r: PublisherRecord|
            r.id != id ==> (after_register(s, id, topics, now).contains(r) <==> s.contains(r)),
        forall|j: int|
            0 <= j < topics.len() ==> topic_list(after_register(s, id, topics, now)).contains(
                namespaced(id, #[trigger] topics[j]),
            ),
{
    let s2 = after_register(s, id, topics, now);
    let rec = PublisherRecord { id, topics, last_pong: now };
    let i = if is_registered(s, id) {
        choose|i: int| 0 <= i < s.len() && s[i].id == id
    } else {
        s.len() as int
    };
    assert(s2[i] == rec);
    assert(s2.contains(rec));
    assert forall|a: int, b: int| 0 <= a < b < s2.len() implies s2[a].id != s2[b].id by {
        if is_registered(s, id) {
            if s[a].id == id {
                assert(s[b].id != id);
            }
        }
    }
    assert forall|r: PublisherRecord| r.id != id implies (s2.contains(r) <==> s.contains(r)) by {
        if s2.contains(r) {
            let k = choose|k: int| 0 <= k < s2.len() && s2[k] == r;
            assert(s[k] == r);
        }
        if s.contains(r) {
            let k = choose|k: int| 0 <= k < s.len() && s[k] == r;
            assert(s2[k] == r);
        }
    }
    assert forall|j: int| 0 <= j < topics.len() implies topic_list(s2).contains(
        namespaced(id, #[trigger] topics[j]),
    ) by {
        lemma_topic_list_membership(s2, namespaced(id, topics[j]));
        assert(s2[i].topics[j] == topics[j]);
    }
}

/// After eviction at `now` the registry holds exactly the publishers that
/// were registered and alive at `now`, each still once.
pub proof fn lemma_eviction(s: Seq<PublisherRecord>, now: u64)
    requires
        unique_ids(s),
    ensures
        forall|r: PublisherRecord|
            after_eviction(s, now).contains(r) <==> (s.contains(r) && is_alive(r, now)),
{
    let pred = |r: PublisherRecord| is_alive(r, now);
    assert forall|r: PublisherRecord|
        after_eviction(s, now).contains(r) <==> (s.contains(r) && is_alive(r, now)) by {
        if after_eviction(s, now).contains(r) {
            s.lemma_filter_contains_rev(pred, r);
            let k = choose|k: int| 0 <= k < s.filter(pred).len() && s.filter(pred)[k] == r;
            s.lemma_filter_pred(pred, k);
        }
        if s.contains(r) && is_alive(r, now) {
            let k = choose|k: int| 0 <= k < s.len() && s[k] == r;
            s.lemma_filter_contains(pred, k);
        }
    }
}

/// Two registries with the same ids and topics, record for record, offer
/// the same topic list.
proof fn lemma_topic_list_same_topics(s1: Seq<PublisherRecord>, s2: Seq<PublisherRecord>)
    requires
        s1.len() == s2.len(),
        forall|i: int| 0 <= i < s1.len() ==> s1[i].id == s2[i].id && s1[i].topics == s2[i].topics,
    ensures
        topic_list(s1) == topic_list(s2),
    decreases s1.len(),
{
    if s1.len() > 0 {
        lemma_topic_list_same_topics(s1.drop_last(), s2.drop_last());
        assert(namespaced_topics(s1.last()) =~= namespaced_topics(s2.last()));
    }
}

/// A pong changes only liveness: the registered publishers and the topic
/// list stay the same, and the publisher that answered at `pong_time`
/// survives every eviction less than the timeout later.
pub proof fn lemma_pong_keeps_publisher(
    s: Seq<PublisherRecord>,
    id: Seq<char>,
    pong_time: u64,
    now: u64,
)
    requires
        unique_ids(s),
        is_registered(s, id),
        pong_time <= now,
        now - pong_time < PUBLISHER_TIMEOUT_NANOS,
    ensures
        unique_ids(after_pong(s, id, pong_time)),
        topic_list(after_pong(s, id, pong_time)) == topic_list(s),
        is_registered(after_eviction(after_pong(s, id, pong_time), now), id),
{
    let s2 = after_pong(s, id, pong_time);
    lemma_topic_list_same_topics(s2, s);
    let i = choose|i: int| 0 <= i < s.len() && s[i].id == id;
    assert(s2[i].id == id);
    assert(is_alive(s2[i], now));
    assert(s2.contains(s2[i]));
    lemma_eviction(s2, now);
    assert(after_eviction(s2, now).contains(s2[i]));
    let k = choose|k: int|
        0 <= k < after_eviction(s2, now).len() && after_eviction(s2, now)[k] == s2[i];
    assert(after_eviction(s2, now)[k].id == id);
}

/// A publisher that has not answered for the timeout or longer does not
/// survive an eviction.
pub proof fn lemma_silent_publisher_evicted(s: Seq<PublisherRecord>, r: PublisherRecord, now: u64)
    requires
        unique_ids(s),
        elapsed(r.last_pong, now) >= PUBLISHER_TIMEOUT_NANOS,
    ensures
        !after_eviction(s, now).contains(r),
{
    lemma_eviction(s, now);
}

/// When neither a publisher id nor a topic name holds `:`, the namespaced
/// topic `<id>:<name>` matches the subscriber filter `filter` exactly when
/// the name is the filter.
pub proof fn lemma_filter_selects_by_name(id: Seq<char>, name: Seq<char>, filter: Seq<char>)
    requires
        !id.contains(':'),
        !name.contains(':'),
    ensures
        matches_name(namespaced(id, name), filter) <==> name == filter,
{
    let t = namespaced(id, name);
    let p = separator() + filter;
    assert(t.len() == id.len() + 1 + name.len());
    if name == filter {
        assert(t.subrange(t.len() - p.len(), t.len() as int) =~= p);
    }
    if matches_name(t, filter) {
        let start = t.len() - p.len();
        assert(t.subrange(start, t.len() as int)[0] == ':');
        assert(t[start] == ':');
        if filter.len() < name.len() {
            assert(name[start - id.len() - 1] == ':');
        } else if filter.len() > name.len() {
            assert(id[start] == ':');
        } else {
            assert forall|k: int| 0 <= k < name.len() implies name[k] == filter[k] by {
                assert(t.subrange(start, t.len() as int)[k + 1] == p[k + 1]);
            }
            assert(name =~= filter);
        }
    }
}

/// A publisher id drawn by a publisher holds no `:`, so the namespaced
/// topics of a publisher split back into its id and the topic name.
pub proof fn lemma_publisher_id_has_no_separator(id: Seq<char>)
    requires
        is_hyphenated_uuid(id),
    ensures
        !id.contains(':'),
{
    if id.contains(':') {
        let k = choose|k: int| 0 <= k < id.len() && id[k] == ':';
        assert(id[k] == ':');
    }
}

} // verus!

verus! {

/// The time of the last ping round after checks at `times`, in order, on a
/// timer started (or last fired) at `start`.
pub open spec fn last_round_after(start: u64, times: Seq<u64>) -> u64
    decreases times.len(),
{
    if times.len() == 0 {
        start
    } else {
        after_ping_check(last_round_after(start, times.drop_last()), times.last())
    }
}

/// The times of the ping rounds that checks at `times` start, in order.
pub open spec fn ping_rounds(start: u64, times: Seq<u64>) -> Seq<u64>
    decreases times.len(),
{
    if times.len() == 0 {
        seq![]
    } else {
        let rounds = ping_rounds(start, times.drop_last());
        if ping_round_due(last_round_after(start, times.drop_last()), times.last()) {
            rounds.push(times.last())
        } else {
            rounds
        }
    }
}

/// Ping rounds are spaced by more than the ping interval: the first comes
/// more than the interval after the timer started, and each later one more
/// than the interval after the one before, so no publisher is pinged twice
/// within the interval.
pub proof fn lemma_ping_rounds_spaced(start: u64, times: Seq<u64>)
    ensures
        ping_rounds(start, times).len() > 0 ==> ping_rounds(start, times)[0] > start
            + PING_INTERVAL_NANOS,
        forall|i: int|
            0 <= i < ping_rounds(start, times).len() - 1 ==> #[trigger] ping_rounds(start, times)[i
                + 1] > ping_rounds(start, times)[i] + PING_INTERVAL_NANOS,
        ping_rounds(start, times).len() > 0 ==> last_round_after(start, times) == ping_rounds(
            start,
            times,
        ).last(),
        ping_rounds(start, times).len() == 0 ==> last_round_after(start, times) == start,
    decreases times.len(),
{
    if times.len() > 0 {
        lemma_ping_rounds_spaced(start, times.drop_last());
    }
}

/// A change of the broker's registry.
pub enum RegistryEvent {
    /// A publisher registered `topics` at `now`.
    Register { id: Seq<char>, topics: Seq<Seq<char>>, now: u64 },
    /// A publisher answered a ping at `now`.
    Pong { id: Seq<char>, now: u64 },
    /// Silent publishers were evicted at `now`.
    Evict { now: u64 },
}

/// The registry after one event, as `Broker::handle_register` (or
/// `Broker::handle_publisher_frames` on a registration),
/// `Broker::record_pong` and `Broker::remove_inactive_publishers` change it.
/// Forwarding, topic requests and pings leave the registry as it is.
pub open spec fn apply_event(s: Seq<PublisherRecord>, e: RegistryEvent) -> Seq<PublisherRecord> {
    match e {
        RegistryEvent::Register { id, topics, now } => after_register(s, id, topics, now),
        RegistryEvent::Pong { id, now } => after_pong(s, id, now),
        RegistryEvent::Evict { now } => after_eviction(s, now),
    }
}

/// The registry after `events`, in order.
pub open spec fn apply_events(s: Seq<PublisherRecord>, events: Seq<RegistryEvent>) -> Seq<
    PublisherRecord,
>
    decreases events.len(),
{
    if events.len() == 0 {
        s
    } else {
        apply_event(apply_events(s, events.drop_last()), events.last())
    }
}

/// The topics and last contact of publisher `id` after event `e`, starting
/// from `rec`: a registration of `id` replaces both, a pong of `id` renews
/// the contact.
pub open spec fn contact_after(id: Seq<char>, rec: (Seq<Seq<char>>, u64), e: RegistryEvent) -> (
    Seq<Seq<char>>,
    u64,
) {
    match e {
        RegistryEvent::Register { id: other, topics, now } => if other == id {
            (topics, now)
        } else {
            rec
        },
        RegistryEvent::Pong { id: other, now } => if other == id {
            (rec.0, now)
        } else {
            rec
        },
        RegistryEvent::Evict { .. } => rec,
    }
}

/// The topics and last contact of publisher `id` after `events`.
pub open spec fn contact_after_events(
    id: Seq<char>,
    rec: (Seq<Seq<char>>, u64),
    events: Seq<RegistryEvent>,
) -> (Seq<Seq<char>>, u64)
    decreases events.len(),
{
    if events.len() == 0 {
        rec
    } else {
        contact_after(id, contact_after_events(id, rec, events.drop_last()), events.last())
    }
}

/// Publisher `id` answers in time: every eviction in `events` comes less
/// than the timeout after its last pong or registration before it (a clock
/// read earlier than that contact counts as no time passed).
pub open spec fn answers_in_time(
    id: Seq<char>,
    rec: (Seq<Seq<char>>, u64),
    events: Seq<RegistryEvent>,
) -> bool
    decreases events.len(),
{
    if events.len() == 0 {
        true
    } else {
        &&& answers_in_time(id, rec, events.drop_last())
        &&& match events.last() {
            RegistryEvent::Evict { now } => {
                let last = contact_after_events(id, rec, events.drop_last()).1;
                elapsed(last, now) < PUBLISHER_TIMEOUT_NANOS
            },
            _ => true,
        }
    }
}

/// Every event keeps the ids of the registry unique.
pub proof fn lemma_event_keeps_unique(s: Seq<PublisherRecord>, e: RegistryEvent)
    requires
        unique_ids(s),
    ensures
        unique_ids(apply_event(s, e)),
{
    match e {
        RegistryEvent::Register { id, topics, now } => {
            lemma_register_read_back(s, id, topics, now);
        },
        RegistryEvent::Pong { id, now } => {
            let s2 = after_pong(s, id, now);
            assert forall|a: int, b: int| 0 <= a < b < s2.len() implies s2[a].id != s2[b].id by {
                assert(s2[a].id == s[a].id && s2[b].id == s[b].id);
            }
        },
        RegistryEvent::Evict { now } => {
            let pred = |r: PublisherRecord| is_alive(r, now);
            lemma_filter_keeps_unique(s, pred);
        },
    }
}

/// A publisher that answers in time is never evicted: whatever the other
/// publishers do, after `events` the registry still holds `id`, once, with
/// the topics of its latest registration and its latest contact.
pub proof fn lemma_answering_publisher_stays(
    s: Seq<PublisherRecord>,
    id: Seq<char>,
    topics: Seq<Seq<char>>,
    last: u64,
    events: Seq<RegistryEvent>,
)
    requires
        unique_ids(s),
        s.contains(PublisherRecord { id, topics, last_pong: last }),
        answers_in_time(id, (topics, last), events),
    ensures
        unique_ids(apply_events(s, events)),
        apply_events(s, events).contains(
            PublisherRecord {
                id,
                topics: contact_after_events(id, (topics, last), events).0,
                last_pong: contact_after_events(id, (topics, last), events).1,
            },
        ),
    decreases events.len(),
{
    if events.len() > 0 {
        let prev = events.drop_last();
        lemma_answering_publisher_stays(s, id, topics, last, prev);
        let s1 = apply_events(s, prev);
        let c = contact_after_events(id, (topics, last), prev);
        let r = PublisherRecord { id, topics: c.0, last_pong: c.1 };
        let e = events.last();
        lemma_event_keeps_unique(s1, e);
        let s2 = apply_event(s1, e);
        let c2 = contact_after(id, c, e);
        let r2 = PublisherRecord { id, topics: c2.0, last_pong: c2.1 };
        assert(contact_after_events(id, (topics, last), events) == c2);
        match e {
            RegistryEvent::Register { id: other, topics: t, now } => {
                lemma_register_read_back(s1, other, t, now);
                if other != id {
                    assert(r2 == r);
                }
            },
            RegistryEvent::Pong { id: other, now } => {
                let k = choose|k: int| 0 <= k < s1.len() && s1[k] == r;
                assert(s2[k] == r2);
            },
            RegistryEvent::Evict { now } => {
                assert(r2 == r);
                lemma_eviction(s1, now);
                assert(is_alive(r, now));
            },
        }
    }
}

/// Only registrations add publishers: a publisher registered after
/// `events` was registered before them or registered by one of them.
pub proof fn lemma_only_registrations_add(
    s: Seq<PublisherRecord>,
    events: Seq<RegistryEvent>,
    id: Seq<char>,
)
    requires
        unique_ids(s),
        is_registered(apply_events(s, events), id),
    ensures
        is_registered(s, id) || exists|k: int|
            0 <= k < events.len() && (#[trigger] events[k] matches RegistryEvent::Register {
                id: other,
                ..
            } && other == id),
    decreases events.len(),
{
    if events.len() > 0 {
        let prev = events.drop_last();
        let s1 = apply_events(s, prev);
        let e = events.last();
        let s2 = apply_event(s1, e);
        let i = choose|i: int| 0 <= i < s2.len() && s2[i].id == id;
        let registered_before = is_registered(s1, id);
        match e {
            RegistryEvent::Register { id: other, topics, now } => {
                if other != id {
                    if is_registered(s1, other) {
                        assert(s1[i].id == id);
                    } else {
                        assert(i < s1.len());
                        assert(s1[i].id == id);
                    }
                } else {
                    assert(events[events.len() - 1] == e);
                }
            },
            RegistryEvent::Pong { id: other, now } => {
                assert(s1[i].id == id);
            },
            RegistryEvent::Evict { now } => {
                let pred = |r: PublisherRecord| is_alive(r, now);
                s1.lemma_filter_contains_rev(pred, s2[i]);
                let k = choose|k: int| 0 <= k < s1.len() && s1[k] == s2[i];
                assert(s1[k].id == id);
            },
        }
        if is_registered(s1, id) {
            lemma_only_registrations_add(s, prev, id);
            if !is_registered(s, id) {
                let k = choose|k: int|
                    0 <= k < prev.len() && (#[trigger] prev[k] matches RegistryEvent::Register {
                        id: other,
                        ..
                    } && other == id);
                assert(events[k] == prev[k]);
            }
        }
    }
}

/// The time at which an event happens.
pub open spec fn event_time(e: RegistryEvent) -> u64 {
    match e {
        RegistryEvent::Register { now, .. } => now,
        RegistryEvent::Pong { now, .. } => now,
        RegistryEvent::Evict { now } => now,
    }
}

/// `e` is a pong or a registration of publisher `id`.
pub open spec fn is_contact(id: Seq<char>, e: RegistryEvent) -> bool {
    match e {
        RegistryEvent::Register { id: other, .. } => other == id,
        RegistryEvent::Pong { id: other, .. } => other == id,
        RegistryEvent::Evict { .. } => false,
    }
}

/// Publisher `id` keeps answering: the events come in time order, each of
/// its pongs and registrations comes less than the timeout after the one
/// before (or after its contact `rec` when `events` start), and after every
/// eviction it answers again.
pub open spec fn keeps_answering(
    id: Seq<char>,
    rec: (Seq<Seq<char>>, u64),
    events: Seq<RegistryEvent>,
) -> bool {
    &&& forall|i: int, j: int|
        0 <= i < j < events.len() ==> event_time(#[trigger] events[i]) <= event_time(
            #[trigger] events[j],
        )
    &&& forall|j: int|
        0 <= j < events.len() && is_contact(id, #[trigger] events[j]) ==> event_time(events[j])
            < contact_after_events(id, rec, events.take(j)).1 + PUBLISHER_TIMEOUT_NANOS
    &&& forall|k: int|
        0 <= k < events.len() && (#[trigger] events[k] is Evict) ==> exists|j: int|
            k < j < events.len() && is_contact(id, #[trigger] events[j])
}

/// A run in which every eviction comes less than the timeout after the
/// publisher's last contact before it answers in time.
proof fn lemma_answers_in_time_by_evictions(
    id: Seq<char>,
    rec: (Seq<Seq<char>>, u64),
    events: Seq<RegistryEvent>,
)
    requires
        forall|k: int|
            0 <= k < events.len() && (#[trigger] events[k] is Evict) ==> elapsed(
                contact_after_events(id, rec, events.take(k)).1,
                event_time(events[k]),
            ) < PUBLISHER_TIMEOUT_NANOS,
    ensures
        answers_in_time(id, rec, events),
    decreases events.len(),
{
    if events.len() > 0 {
        let prev = events.drop_last();
        assert forall|k: int|
            0 <= k < prev.len() && (#[trigger] prev[k] is Evict) implies elapsed(
            contact_after_events(id, rec, prev.take(k)).1,
            event_time(prev[k]),
        ) < PUBLISHER_TIMEOUT_NANOS by {
            assert(prev[k] == events[k]);
            assert(prev.take(k) =~= events.take(k));
        }
        lemma_answers_in_time_by_evictions(id, rec, prev);
        let k = events.len() - 1;
        assert(events.take(k) =~= prev);
        if events[k] is Evict {
            assert(events.last() == events[k]);
        }
    }
}

/// Events that are no contact of `id` leave its contact as it was.
proof fn lemma_contact_unchanged(
    id: Seq<char>,
    rec: (Seq<Seq<char>>, u64),
    events: Seq<RegistryEvent>,
    k: int,
    m: int,
)
    requires
        0 <= k <= m <= events.len(),
        forall|i: int| k <= i < m ==> !is_contact(id, #[trigger] events[i]),
    ensures
        contact_after_events(id, rec, events.take(m)) == contact_after_events(
            id,
            rec,
            events.take(k),
        ),
    decreases m - k,
{
    if m > k {
        lemma_contact_unchanged(id, rec, events, k, m - 1);
        let t = events.take(m);
        assert(t.drop_last() =~= events.take(m - 1));
        assert(t.last() == events[m - 1]);
        assert(!is_contact(id, events[m - 1]));
    }
}

/// The first contact of `id` after index `k`, found by scanning from `m`.
proof fn lemma_first_contact(id: Seq<char>, events: Seq<RegistryEvent>, k: int, m: int, j: int) -> (first: int)
    requires
        k < m <= j < events.len(),
        is_contact(id, events[j]),
        forall|i: int| k < i < m ==> !is_contact(id, #[trigger] events[i]),
    ensures
        k < first <= j,
        is_contact(id, events[first]),
        forall|i: int| k < i < first ==> !is_contact(id, #[trigger] events[i]),
    decreases j - m,
{
    if is_contact(id, events[m]) {
        m
    } else {
        lemma_first_contact(id, events, k, m + 1, j)
    }
}

/// A publisher that keeps answering answers in time: no eviction comes as
/// late as the timeout after its last contact.
pub proof fn lemma_keeps_answering_answers_in_time(
    id: Seq<char>,
    rec: (Seq<Seq<char>>, u64),
    events: Seq<RegistryEvent>,
)
    requires
        keeps_answering(id, rec, events),
    ensures
        answers_in_time(id, rec, events),
{
    assert forall|k: int|
        0 <= k < events.len() && (#[trigger] events[k] is Evict) implies elapsed(
        contact_after_events(id, rec, events.take(k)).1,
        event_time(events[k]),
    ) < PUBLISHER_TIMEOUT_NANOS by {
        let j = choose|j: int| k < j < events.len() && is_contact(id, #[trigger] events[j]);
        let first = lemma_first_contact(id, events, k, k + 1, j);
        assert(!is_contact(id, events[k]));
        lemma_contact_unchanged(id, rec, events, k, first);
        assert(event_time(events[k]) <= event_time(events[first]));
    }
    lemma_answers_in_time_by_evictions(id, rec, events);
}

/// A publisher that keeps answering (each pong or registration less than
/// the timeout after the one before, events in time order, an answer after
/// every eviction) is never evicted: after `events` the registry still holds
/// it, once, with the topics of its latest registration and its latest
/// contact.
pub proof fn lemma_publisher_answering_pings_stays(
    s: Seq<PublisherRecord>,
    id: Seq<char>,
    topics: Seq<Seq<char>>,
    last: u64,
    events: Seq<RegistryEvent>,
)
    requires
        unique_ids(s),
        s.contains(PublisherRecord { id, topics, last_pong: last }),
        keeps_answering(id, (topics, last), events),
    ensures
        unique_ids(apply_events(s, events)),
        apply_events(s, events).contains(
            PublisherRecord {
                id,
                topics: contact_after_events(id, (topics, last), events).0,
                last_pong: contact_after_events(id, (topics, last), events).1,
            },
        ),
{
    lemma_keeps_answering_answers_in_time(id, (topics, last), events);
    lemma_answering_publisher_stays(s, id, topics, last, events);
}

} // verus!

verus! {

/// With no filter a subscriber takes every discovered topic; with filters
/// it takes, in discovery order, exactly the topics that end with `:`
/// followed by one of the filter names.
pub proof fn lemma_selected_topics_end_with_a_filter(all: Seq<Seq<char>>, filters: Seq<Seq<char>>)
    ensures
        filters.len() == 0 ==> selected_topics(all, filters) == all,
        filters.len() > 0 ==> selected_topics(all, filters) == all.filter(
            |t: Seq<char>|
                exists|i: int|
                    0 <= i < filters.len() && #[trigger] filters[i].len() < t.len() && t[t.len()
                        - filters[i].len() - 1] == ':' && t.subrange(
                        t.len() - filters[i].len(),
                        t.len() as int,
                    ) == filters[i],
        ),
{
    if filters.len() > 0 {
        let p1 = |t: Seq<char>| matches_any(t, filters);
        let p2 = |t: Seq<char>|
            exists|i: int|
                0 <= i < filters.len() && #[trigger] filters[i].len() < t.len() && t[t.len()
                    - filters[i].len() - 1] == ':' && t.subrange(
                    t.len() - filters[i].len(),
                    t.len() as int,
                ) == filters[i];
        assert forall|t: Seq<char>| #[trigger] p1(t) == p2(t) by {
            if p1(t) {
                let i = choose|i: int| 0 <= i < filters.len() && matches_name(t, #[trigger] filters[i]);
                let f = filters[i];
                let p = separator() + f;
                let start = t.len() - p.len();
                assert(t.subrange(start, t.len() as int) == p);
                assert(t.subrange(start, t.len() as int)[0] == ':');
                assert(t.subrange(t.len() - f.len(), t.len() as int) =~= p.subrange(
                    1,
                    p.len() as int,
                ));
                assert(p.subrange(1, p.len() as int) =~= f);
                assert(f.len() < t.len() && t[t.len() - f.len() - 1] == ':' && t.subrange(
                    t.len() - f.len(),
                    t.len() as int,
                ) == f);
            }
            if p2(t) {
                let i = choose|i: int|
                    0 <= i < filters.len() && #[trigger] filters[i].len() < t.len() && t[t.len()
                        - filters[i].len() - 1] == ':' && t.subrange(
                        t.len() - filters[i].len(),
                        t.len() as int,
                    ) == filters[i];
                let f = filters[i];
                let p = separator() + f;
                let start = t.len() - p.len();
                assert forall|k: int| 0 <= k < p.len() implies t.subrange(
                    start,
                    t.len() as int,
                )[k] == p[k] by {
                    if k > 0 {
                        assert(t.subrange(t.len() - f.len(), t.len() as int)[k - 1] == f[k - 1]);
                    }
                }
                assert(t.subrange(start, t.len() as int) =~= p);
                assert(matches_name(t, filters[i]));
            }
        }
        assert(p1 =~= p2);
    }
}

/// Every single-frame message that parsed as a registration with the action
/// `register` registers its publisher, whatever its id and topics; a message
/// of any other number of frames, one that did not parse, or one with
/// another action registers nobody.
pub proof fn lemma_register_frame_registers(frame_count: nat, registration: Option<RegisterMessage>)
    ensures
        is_registration(frame_count, registration) <==> (frame_count == 1 && registration is Some
            && registration->0.action@ == "register"@),
{
}

/// A ping round is due exactly when the check comes more than 20 s after
/// the last round, and the last round then moves to the check; otherwise
/// it stays. So a check more than 20 s after the last round always starts
/// a round.
pub proof fn lemma_ping_round_due_after_twenty_seconds(last_ping: u64, now: u64)
    ensures
        ping_round_due(last_ping, now) <==> now > last_ping + 20_000_000_000,
        after_ping_check(last_ping, now) == if now > last_ping + 20_000_000_000 {
            now
        } else {
            last_ping
        },
{
}

/// A browser's `publish` with string `topic` and `message` members is
/// exactly a publication of those two texts, whatever characters they hold;
/// `get_topics` asks for the topic list whatever the other members; any other
/// action is no command.
pub proof fn lemma_browser_command_shapes(
    res: Option<BrowserCommand>,
    action: Option<Seq<char>>,
    topic: Seq<char>,
    message: Seq<char>,
)
    ensures
        is_command_for(res, Some("publish"@), Some(topic), Some(message)) <==> (res matches Some(
            BrowserCommand::Publish { topic: t, message: m },
        ) && t@ == topic && m@ == message),
        is_command_for(res, Some("get_topics"@), Some(topic), Some(message)) <==> res == Some(
            BrowserCommand::GetTopics,
        ),
        action != Some("publish"@) && action != Some("get_topics"@) ==> (is_command_for(
            res,
            action,
            Some(topic),
            Some(message),
        ) <==> res is None),
{
    reveal_strlit("publish");
    reveal_strlit("get_topics");
    assert("publish"@.len() != "get_topics"@.len());
}

/// The value of a text of decimal digits, most significant first.
pub open spec fn digits_value(s: Seq<char>) -> int
    decreases s.len(),
{
    if s.len() == 0 {
        0
    } else {
        digits_value(s.drop_last()) * 10 + (s.last() as int - '0' as int)
    }
}

/// Every character of `s` is a decimal digit.
pub open spec fn all_digits(s: Seq<char>) -> bool {
    forall|i: int| 0 <= i < s.len() ==> '0' <= #[trigger] s[i] <= '9'
}

/// The character of a digit is a digit of that value.
proof fn lemma_digit_char(d: nat)
    requires
        d < 10,
    ensures
        '0' <= digit_char(d) <= '9',
        digit_char(d) as int - '0' as int == d,
        d > 0 ==> digit_char(d) != '0',
{
    assert('0' as int == 48);
    assert('1' as int == 49);
    assert('2' as int == 50);
    assert('3' as int == 51);
    assert('4' as int == 52);
    assert('5' as int == 53);
    assert('6' as int == 54);
    assert('7' as int == 55);
    assert('8' as int == 56);
    assert('9' as int == 57);
}

/// The decimal text of `n` is a non-empty run of digits whose value is `n`.
proof fn lemma_decimal_value(n: nat)
    ensures
        decimal(n).len() > 0,
        all_digits(decimal(n)),
        digits_value(decimal(n)) == n,
        n >= 10 ==> decimal(n).len() >= 2,
    decreases n,
{
    if n < 10 {
        lemma_digit_char(n);
        let d = decimal(n);
        assert(d.drop_last().len() == 0);
        assert(digits_value(d.drop_last()) == 0);
        assert(d.last() == digit_char(n));
        assert(digits_value(d) == digits_value(d.drop_last()) * 10 + (d.last() as int - '0' as int));
    } else {
        lemma_digit_char(n % 10);
        lemma_decimal_value(n / 10);
        let d = decimal(n);
        assert(d.drop_last() == decimal(n / 10));
        assert forall|i: int| 0 <= i < d.len() implies '0' <= #[trigger] d[i] <= '9' by {
            if i < d.len() - 1 {
                assert(d[i] == decimal(n / 10)[i]);
            }
        }
        assert(d.last() == digit_char(n % 10));
        assert(digits_value(d) == digits_value(d.drop_last()) * 10 + (d.last() as int - '0' as int));
        assert(n == (n / 10) * 10 + n % 10);
    }
}

/// Two runs of digits with the same value and no leading zero are equal.
proof fn lemma_digits_value_injective(a: Seq<char>, b: Seq<char>)
    requires
        all_digits(a),
        all_digits(b),
        digits_value(a) == digits_value(b),
        a.len() > 0,
        b.len() > 0,
        a.len() == 1 || a[0] != '0',
        b.len() == 1 || b[0] != '0',
    ensures
        a == b,
    decreases a.len() + b.len(),
{
    let ra = a.drop_last();
    let rb = b.drop_last();
    assert(all_digits(ra));
    assert(all_digits(rb));
    lemma_digits_value_nonneg(ra);
    lemma_digits_value_nonneg(rb);
    assert('0' <= a.last() <= '9');
    assert('0' <= b.last() <= '9');
    let la = a.last() as int - '0' as int;
    let lb = b.last() as int - '0' as int;
    assert(digits_value(ra) * 10 + la == digits_value(rb) * 10 + lb);
    assert(la == lb && digits_value(ra) == digits_value(rb)) by (nonlinear_arith)
        requires
            digits_value(ra) * 10 + la == digits_value(rb) * 10 + lb,
            0 <= la < 10,
            0 <= lb < 10,
    ;
    assert(a.last() == b.last());
    if ra.len() == 0 && rb.len() == 0 {
        assert(a =~= b);
    } else if ra.len() == 0 {
        lemma_leading_digit_positive(rb);
        assert(rb[0] == b[0]);
    } else if rb.len() == 0 {
        lemma_leading_digit_positive(ra);
        assert(ra[0] == a[0]);
    } else {
        assert(ra[0] == a[0]);
        assert(rb[0] == b[0]);
        lemma_digits_value_injective(ra, rb);
        assert(a =~= ra.push(a.last()));
        assert(b =~= rb.push(b.last()));
    }
}

/// The value of digits is never negative.
proof fn lemma_digits_value_nonneg(s: Seq<char>)
    requires
        all_digits(s),
    ensures
        digits_value(s) >= 0,
    decreases s.len(),
{
    if s.len() > 0 {
        assert(all_digits(s.drop_last()));
        lemma_digits_value_nonneg(s.drop_last());
        assert('0' <= s.last() <= '9');
    }
}

/// Digits that start with a non-zero digit have a positive value.
proof fn lemma_leading_digit_positive(s: Seq<char>)
    requires
        all_digits(s),
        s.len() > 0,
        s[0] != '0',
    ensures
        digits_value(s) > 0,
    decreases s.len(),
{
    if s.len() == 1 {
        assert(s.drop_last().len() == 0);
        assert(digits_value(s.drop_last()) == 0);
        assert(s.last() == s[0]);
        assert('0' <= s[0] <= '9');
        assert(s[0] as int - '0' as int > 0);
    } else {
        let r = s.drop_last();
        assert(all_digits(r));
        assert(r[0] == s[0]);
        lemma_leading_digit_positive(r);
        assert('0' <= s.last() <= '9');
    }
}

/// The decimal text of a number has no leading zero.
proof fn lemma_decimal_no_leading_zero(n: nat)
    ensures
        decimal(n).len() == 1 || decimal(n)[0] != '0',
    decreases n,
{
    if n >= 10 {
        lemma_decimal_no_leading_zero(n / 10);
        lemma_decimal_value(n / 10);
        assert(decimal(n)[0] == decimal(n / 10)[0]);
        if n / 10 < 10 {
            lemma_digit_char((n / 10) as nat);
            assert(decimal(n / 10) == seq![digit_char((n / 10) as nat)]);
        }
    }
}

/// A publisher's text for round `counter` on `topic` is `Message `, the
/// digits of the full counter (no leading zero), ` for ` and the topic; so
/// two rounds with different counters never send the same text on a topic.
pub proof fn lemma_message_text_carries_counter(counter: u64, other: u64, topic: Seq<char>)
    ensures
        exists|digits: Seq<char>|
            {
                &&& message_text_spec(counter, topic) == "Message "@ + digits + " for "@ + topic
                &&& all_digits(digits)
                &&& digits.len() > 0
                &&& (digits.len() == 1 || digits[0] != '0')
                &&& digits_value(digits) == counter
            },
        message_text_spec(counter, topic) == message_text_spec(other, topic) ==> counter == other,
{
    lemma_decimal_value(counter as nat);
    lemma_decimal_no_leading_zero(counter as nat);
    lemma_decimal_value(other as nat);
    lemma_decimal_no_leading_zero(other as nat);
    let d1 = decimal(counter as nat);
    let d2 = decimal(other as nat);
    if message_text_spec(counter, topic) == message_text_spec(other, topic) {
        let t1 = message_text_spec(counter, topic);
        let t2 = message_text_spec(other, topic);
        let pre = "Message "@;
        let mid = " for "@;
        reveal_strlit("Message ");
        reveal_strlit(" for ");
        assert(t1.len() == t2.len());
        assert(d1.len() == d2.len());
        assert forall|k: int| 0 <= k < d1.len() implies d1[k] == d2[k] by {
            assert(t1[8 + k] == d1[k]);
            assert(t2[8 + k] == d2[k]);
        }
        assert(d1 =~= d2);
    }
}

} // verus!
