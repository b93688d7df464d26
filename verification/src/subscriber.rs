//! The subscriber's decisions: which discovered topics match its filters,
//! which of them still need a subscription, and when to ask again.

use vstd::prelude::*;

use crate::broker::elapsed;
use crate::broker::elapsed_nanos;
use crate::text::{ends_with, is_suffix_of, separator};

verus! {

/// The subscriber asks the broker for topics again once this much time
/// (10 s) has passed.
pub const TOPIC_REFRESH_NANOS: u64 = 10_000_000_000;

/// `topic` ends with `:<name>`.
pub open spec fn matches_name(topic: Seq<char>, name: Seq<char>) -> bool {
    is_suffix_of(separator() + name, topic)
}

/// `topic` matches one of `filters`.
pub open spec fn matches_any(topic: Seq<char>, filters: Seq<Seq<char>>) -> bool {
    exists|i: int| 0 <= i < filters.len() && matches_name(topic, #[trigger] filters[i])
}

/// The topics of `all` that a subscriber with `filters` takes: all of them
/// when there is no filter, else those that match a filter, in order.
pub open spec fn selected_topics(all: Seq<Seq<char>>, filters: Seq<Seq<char>>) -> Seq<Seq<char>> {
    if filters.len() == 0 {
        all
    } else {
        all.filter(|t: Seq<char>| matches_any(t, filters))
    }
}

/// Whether `topic` ends with `:<name>`.
pub fn topic_matches(topic: &String, name: &String) -> (res: bool)
    ensures
        res == matches_name(topic@, name@),
{
    let mut pattern = String::from_str(":");
    proof {
        reveal_strlit(":");
    }
    pattern.append(name.as_str());
    assert(pattern@ =~= separator() + name@);
    ends_with(topic.as_str(), pattern.as_str())
}

/// Whether `topic` matches one of `filters`.
fn matches_some_filter(topic: &String, filters: &Vec<String>) -> (res: bool)
    ensures
        res == matches_any(topic@, filters.deep_view()),
{
    let mut i: usize = 0;
    while i < filters.len()
        invariant
            i <= filters@.len(),
            forall|k: int| 0 <= k < i ==> !matches_name(topic@, filters.deep_view()[k]),
        decreases filters@.len() - i,
    {
        if topic_matches(topic, &filters[i]) {
            assert(matches_name(topic@, filters.deep_view()[i as int]));
            return true;
        }
        i += 1;
    }
    false
}

/// The discovered topics that a subscriber with `filters` subscribes to.
pub fn matching_topics(all: Vec<String>, filters: &Vec<String>) -> (res: Vec<String>)
    ensures
        res.deep_view() == selected_topics(all.deep_view(), filters.deep_view()),
{
    if filters.len() == 0 {
        return all;
    }
    let ghost s = all.deep_view();
    let ghost pred = |t: Seq<char>| matches_any(t, filters.deep_view());
    let mut res: Vec<String> = Vec::new();
    let mut i: usize = 0;
    while i < all.len()
        invariant
            s == all.deep_view(),
            i <= s.len(),
            all@.len() == s.len(),
            pred == (|t: Seq<char>| matches_any(t, filters.deep_view())),
            res.deep_view() == s.take(i as int).filter(pred),
        decreases s.len() - i,
    {
        let ghost prev = res.deep_view();
        if matches_some_filter(&all[i], filters) {
            res.push(all[i].clone());
            assert(res.deep_view() =~= prev.push(s[i as int]));
        }
        proof {
            reveal_with_fuel(Seq::<Seq<char>>::filter, 1);
            assert(s.take(i + 1).drop_last() =~= s.take(i as int));
        }
        i += 1;
    }
    assert(s.take(i as int) =~= s);
    res
}

/// What a subscriber keeps between rounds: the topics it subscribed to and
/// when it last asked for topics.
pub struct Subscriptions {
    subscribed: Vec<String>,
    last_refresh: Option<u64>,
}

impl Subscriptions {
    /// The topics subscribed to, in the order of subscription.
    pub closed spec fn subscribed(&self) -> Seq<Seq<char>> {
        self.subscribed.deep_view()
    }

    /// When the topics were last asked for, if ever.
    pub closed spec fn last_refresh(&self) -> Option<u64> {
        self.last_refresh
    }

    /// No topic is subscribed to twice.
    pub open spec fn wf(&self) -> bool {
        self.subscribed().no_duplicates()
    }

    /// No subscriptions yet, and topics not asked for yet.
    pub fn new() -> (res: Self)
        ensures
            res.wf(),
            res.subscribed() == Seq::<Seq<char>>::empty(),
            res.last_refresh() == None::<u64>,
    {
        let res = Subscriptions { subscribed: Vec::new(), last_refresh: None };
        assert(res.subscribed() =~= Seq::<Seq<char>>::empty());
        res
    }

    /// Whether the topics are to be asked for: never asked yet, or more
    /// than the refresh interval ago.
    pub fn refresh_due(&self, now: u64) -> (res: bool)
        ensures
            res == match self.last_refresh() {
                None => true,
                Some(t) => elapsed(t, now) > TOPIC_REFRESH_NANOS,
            },
    {
        match self.last_refresh {
            None => true,
            Some(t) => elapsed_nanos(t, now) > TOPIC_REFRESH_NANOS,
        }
    }

    /// Notes that the topics were asked for at `now`.
    pub fn mark_refreshed(&mut self, now: u64)
        requires
            old(self).wf(),
        ensures
            final(self).wf(),
            final(self).subscribed() == old(self).subscribed(),
            final(self).last_refresh() == Some(now),
    {
        self.last_refresh = Some(now);
    }

    /// Whether `topic` is not subscribed to yet.
    pub fn needs_subscription(&self, topic: &String) -> (res: bool)
        ensures
            res == !self.subscribed().contains(topic@),
    {
        let mut i: usize = 0;
        while i < self.subscribed.len()
            invariant
                i <= self.subscribed@.len(),
                forall|k: int| 0 <= k < i ==> self.subscribed()[k] != topic@,
            decreases self.subscribed@.len() - i,
        {
            if self.subscribed[i] == *topic {
                assert(self.subscribed()[i as int] == topic@);
                return false;
            }
            i += 1;
        }
        true
    }

    /// Notes that `topic` is subscribed to; a topic already subscribed to is
    /// not noted twice.
    pub fn record_subscription(&mut self, topic: String)
        requires
            old(self).wf(),
        ensures
            final(self).wf(),
            final(self).last_refresh() == old(self).last_refresh(),
            final(self).subscribed() == if old(self).subscribed().contains(topic@) {
                old(self).subscribed()
            } else {
                old(self).subscribed().push(topic@)
            },
    {
        if self.needs_subscription(&topic) {
            let ghost prev = self.subscribed();
            self.subscribed.push(topic);
            assert(self.subscribed() =~= prev.push(topic@));
        }
    }
}

} // verus!
