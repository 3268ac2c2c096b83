//! The stabilization-window ("pin") store: a per-topic, time-bounded
//! override of the published state, used to mask cloud-propagation lag
//! after a locally-issued command.

use vstd::prelude::*;

use crate::strutil::str_eq;

verus! {

/// The abstract view of one pin: its topic key, the pinned protocol-level
/// value and the instant (milliseconds) at which the pin lapses.
pub struct PinView {
    pub topic: Seq<char>,
    pub value: u8,
    pub expires_at_ms: u64,
}

pub struct PinEntry {
    pub topic: String,
    pub value: u8,
    pub expires_at_ms: u64,
}

impl View for PinEntry {
    type V = PinView;

    open spec fn view(&self) -> PinView {
        PinView { topic: self.topic@, value: self.value, expires_at_ms: self.expires_at_ms }
    }
}

/// The pin stored under `topic`, if any.
pub open spec fn pin_lookup(s: Seq<PinView>, topic: Seq<char>) -> Option<PinView>
    decreases s.len(),
{
    if s.len() == 0 {
        None
    } else if s[0].topic == topic {
        Some(s[0])
    } else {
        pin_lookup(s.drop_first(), topic)
    }
}

/// The deadline of a pin issued at `now_ms` with time-to-live `ttl_ms`,
/// saturating at the largest representable instant.
pub open spec fn pin_deadline(now_ms: u64, ttl_ms: u64) -> u64 {
    if now_ms + ttl_ms <= u64::MAX {
        (now_ms + ttl_ms) as u64
    } else {
        u64::MAX
    }
}

/// Whether a pin read at `now_ms` is still active.
pub open spec fn pin_active(p: PinView, now_ms: u64) -> bool {
    now_ms < p.expires_at_ms
}

proof fn lemma_pin_lookup_skip(s: Seq<PinView>, topic: Seq<char>, i: int)
    requires
        0 <= i <= s.len(),
        forall|j: int| 0 <= j < i ==> (#[trigger] s[j].topic) != topic,
    ensures
        pin_lookup(s, topic) == pin_lookup(s.skip(i), topic),
    decreases i,
{
    if i > 0 {
        assert(s.skip(i) =~= s.drop_first().skip(i - 1));
        lemma_pin_lookup_skip(s.drop_first(), topic, i - 1);
    } else {
        assert(s.skip(0) =~= s);
    }
}

/// A keyed store of pins, one per topic. Replacement is last-writer-wins:
/// a later pin to the same topic supersedes the earlier one.
pub struct PinStore {
    entries: Vec<PinEntry>,
}

impl View for PinStore {
    type V = Seq<PinView>;

    closed spec fn view(&self) -> Seq<PinView> {
        self.entries@.map_values(|e: PinEntry| e@)
    }
}

impl PinStore {
    /// Each topic key appears at most once.
    pub open spec fn well_formed(&self) -> bool {
        forall|i: int, j: int|
            0 <= i < j < self@.len() ==> (#[trigger] self@[i].topic) != (#[trigger] self@[j].topic)
    }

    /// An empty store: no topic is pinned.
    pub fn new() -> (r: PinStore)
        ensures
            r.well_formed(),
            forall|t: Seq<char>| pin_lookup(r@, t) is None,
    {
        let r = PinStore { entries: Vec::new() };
        proof {
            assert(forall|t: Seq<char>| pin_lookup(r@, t) is None) by {
                assert(r@.len() == 0);
            }
        }
        r
    }

    fn find_index(&self, topic: &str) -> (r: Option<usize>)
        ensures
            match r {
                Some(i) => i < self@.len() && self@[i as int].topic == topic@ && pin_lookup(
                    self@,
                    topic@,
                ) == Some(self@[i as int]),
                None => pin_lookup(self@, topic@) is None,
            },
    {
        let mut i: usize = 0;
        while i < self.entries.len()
            invariant
                0 <= i <= self@.len(),
                self@.len() == self.entries@.len(),
                forall|j: int| 0 <= j < i ==> (#[trigger] self@[j].topic) != topic@,
            decreases self@.len() - i,
        {
            if str_eq(self.entries[i].topic.as_str(), topic) {
                proof {
                    lemma_pin_lookup_skip(self@, topic@, i as int);
                    assert(self@.skip(i as int)[0] == self@[i as int]);
                }
                return Some(i);
            }
            i = i + 1;
        }
        proof {
            lemma_pin_lookup_skip(self@, topic@, i as int);
        }
        None
    }

    /// Unconditionally (over)writes the pin for `topic` with `value` and a
    /// deadline of `now_ms + ttl_ms`. Pins for other topics are untouched.
    pub fn pin(&mut self, topic: &str, value: u8, ttl_ms: u64, now_ms: u64)
        requires
            old(self).well_formed(),
        ensures
            final(self).well_formed(),
            pin_lookup(final(self)@, topic@) == Some(
                PinView { topic: topic@, value, expires_at_ms: pin_deadline(now_ms, ttl_ms) },
            ),
            forall|t: Seq<char>|
                t != topic@ ==> #[trigger] pin_lookup(final(self)@, t) == pin_lookup(old(self)@, t),
    {
        let deadline: u64 = if ttl_ms <= u64::MAX - now_ms {
            now_ms + ttl_ms
        } else {
            u64::MAX
        };
        let found = self.find_index(topic);
        match found {
            Some(i) => {
                let entry = PinEntry { topic: topic.to_owned(), value, expires_at_ms: deadline };
                self.entries.set(i, entry);
                proof {
                    lemma_pin_set_effect(old(self)@, self@, i as int, topic@);
                }
            },
            None => {
                let entry = PinEntry { topic: topic.to_owned(), value, expires_at_ms: deadline };
                self.entries.push(entry);
                proof {
                    lemma_pin_lookup_none(old(self)@, topic@);
                    lemma_pin_push_effect(old(self)@, self@, topic@);
                }
            },
        }
    }

    /// Reads the pin for `topic`: the pinned value together with whether
    /// the pin is still active at `now_ms`. A lapsed pin is still
    /// returned, flagged inactive, so a caller can tell "never pinned"
    /// from "pin lapsed"; lapsed entries are only removed by
    /// [`PinStore::evict_expired`].
    pub fn read_pin(&self, topic: &str, now_ms: u64) -> (r: Option<(u8, bool)>)
        ensures
            match pin_lookup(self@, topic@) {
                Some(p) => r == Some((p.value, pin_active(p, now_ms))),
                None => r is None,
            },
    {
        match self.find_index(topic) {
            Some(i) => {
                let e = &self.entries[i];
                Some((e.value, now_ms < e.expires_at_ms))
            },
            None => None,
        }
    }

    /// Lazily sweeps out every pin that has lapsed by `now_ms`; active
    /// pins survive unchanged.
    pub fn evict_expired(&mut self, now_ms: u64)
        requires
            old(self).well_formed(),
        ensures
            final(self).well_formed(),
            forall|t: Seq<char>|
                #[trigger] pin_lookup(final(self)@, t) == match pin_lookup(old(self)@, t) {
                    Some(p) => if pin_active(p, now_ms) {
                        Some(p)
                    } else {
                        None
                    },
                    None => None::<PinView>,
                },
    {
        let mut kept: Vec<PinEntry> = Vec::new();
        let mut i: usize = 0;
        proof {
            assert(kept@.map_values(|e: PinEntry| e@) =~= old(self)@.take(0).filter(
                |p: PinView| pin_active(p, now_ms),
            )) by {
                assert(old(self)@.take(0) =~= Seq::<PinView>::empty());
                reveal(Seq::filter);
            }
        }
        while i < self.entries.len()
            invariant
                self == old(self),
                0 <= i <= self@.len(),
                self@.len() == self.entries@.len(),
                kept@.map_values(|e: PinEntry| e@) =~= self@.take(i as int).filter(
                    |p: PinView| pin_active(p, now_ms),
                ),
            decreases self@.len() - i,
        {
            proof {
                assert(self@.take(i + 1).drop_last() =~= self@.take(i as int));
                assert(self@.take(i + 1).last() == self@[i as int]);
                reveal(Seq::filter);
            }
            if now_ms < self.entries[i].expires_at_ms {
                let e = &self.entries[i];
                kept.push(
                    PinEntry { topic: e.topic.clone(), value: e.value, expires_at_ms: e.expires_at_ms },
                );
                proof {
                    assert(kept@.map_values(|e: PinEntry| e@) =~= self@.take(i + 1).filter(
                        |p: PinView| pin_active(p, now_ms),
                    ));
                }
            } else {
                proof {
                    assert(kept@.map_values(|e: PinEntry| e@) =~= self@.take(i + 1).filter(
                        |p: PinView| pin_active(p, now_ms),
                    ));
                }
            }
            i = i + 1;
        }
        proof {
            assert(self@.take(self@.len() as int) =~= self@);
        }
        self.entries = kept;
        proof {
            assert(self@ == old(self)@.filter(|p: PinView| pin_active(p, now_ms)));
            lemma_filter_lookup(old(self)@, self@, now_ms);
        }
    }
}

/// Overwriting the entry at the (unique) index of `topic` updates the
/// lookup for `topic` and leaves every other topic's lookup unchanged.
proof fn lemma_pin_set_effect(pre: Seq<PinView>, post: Seq<PinView>, i: int, topic: Seq<char>)
    requires
        0 <= i < pre.len(),
        post.len() == pre.len(),
        forall|a: int, b: int| 0 <= a < b < pre.len() ==> (#[trigger] pre[a].topic) != (#[trigger] pre[b].topic),
        pre[i].topic == topic,
        post[i].topic == topic,
        forall|j: int| 0 <= j < pre.len() && j != i ==> post[j] == pre[j],
    ensures
        forall|a: int, b: int| 0 <= a < b < post.len() ==> (#[trigger] post[a].topic) != (#[trigger] post[b].topic),
        pin_lookup(post, topic) == Some(post[i]),
        forall|t: Seq<char>| t != topic ==> #[trigger] pin_lookup(post, t) == pin_lookup(pre, t),
{
    assert(forall|j: int| 0 <= j < i ==> (#[trigger] post[j].topic) != topic);
    lemma_pin_lookup_skip(post, topic, i);
    assert(post.skip(i)[0] == post[i]);
    assert forall|t: Seq<char>| t != topic implies #[trigger] pin_lookup(post, t) == pin_lookup(
        pre,
        t,
    ) by {
        lemma_pin_lookup_pointwise(pre, post, t);
    }
}

/// A missed lookup means no entry bears the topic.
proof fn lemma_pin_lookup_none(s: Seq<PinView>, topic: Seq<char>)
    requires
        pin_lookup(s, topic) is None,
    ensures
        forall|j: int| 0 <= j < s.len() ==> (#[trigger] s[j].topic) != topic,
    decreases s.len(),
{
    if s.len() > 0 {
        lemma_pin_lookup_none(s.drop_first(), topic);
        assert forall|j: int| 0 <= j < s.len() implies (#[trigger] s[j].topic) != topic by {
            if j > 0 {
                assert(s.drop_first()[j - 1] == s[j]);
            }
        }
    }
}

/// Appending an entry for a topic not yet present makes its lookup find
/// the new entry and leaves every other topic's lookup unchanged.
proof fn lemma_pin_push_effect(pre: Seq<PinView>, post: Seq<PinView>, topic: Seq<char>)
    requires
        post.len() == pre.len() + 1,
        forall|a: int, b: int| 0 <= a < b < pre.len() ==> (#[trigger] pre[a].topic) != (#[trigger] pre[b].topic),
        forall|j: int| 0 <= j < pre.len() ==> (#[trigger] pre[j].topic) != topic,
        forall|j: int| 0 <= j < pre.len() ==> post[j] == pre[j],
        post.last().topic == topic,
    ensures
        forall|a: int, b: int| 0 <= a < b < post.len() ==> (#[trigger] post[a].topic) != (#[trigger] post[b].topic),
        pin_lookup(post, topic) == Some(post.last()),
        forall|t: Seq<char>| t != topic ==> #[trigger] pin_lookup(post, t) == pin_lookup(pre, t),
{
    assert(forall|j: int| 0 <= j < post.len() - 1 ==> (#[trigger] post[j].topic) != topic);
    lemma_pin_lookup_skip(post, topic, post.len() - 1);
    assert(post.skip(post.len() - 1)[0] == post.last());
    assert forall|t: Seq<char>| t != topic implies #[trigger] pin_lookup(post, t) == pin_lookup(
        pre,
        t,
    ) by {
        lemma_pin_lookup_pointwise_push(pre, post, t, topic);
    }
}

/// Two stores equal on a prefix and differing only at one index of a
/// different topic agree on lookups for every other topic.
proof fn lemma_pin_lookup_pointwise(pre: Seq<PinView>, post: Seq<PinView>, t: Seq<char>)
    requires
        post.len() == pre.len(),
        forall|j: int| 0 <= j < pre.len() ==> (post[j] == pre[j] || post[j].topic == pre[j].topic),
        forall|j: int| 0 <= j < pre.len() ==> ((#[trigger] pre[j].topic) == t ==> post[j] == pre[j]),
    ensures
        pin_lookup(post, t) == pin_lookup(pre, t),
    decreases pre.len(),
{
    if pre.len() > 0 {
        assert(post[0].topic == pre[0].topic || post[0] == pre[0]);
        if pre[0].topic == t {
            assert(post[0] == pre[0]);
        } else {
            assert(forall|j: int|
                0 <= j < pre.drop_first().len() ==> (pre.drop_first()[j] == pre[j + 1]
                    && post.drop_first()[j] == post[j + 1]));
            lemma_pin_lookup_pointwise(pre.drop_first(), post.drop_first(), t);
        }
    }
}

proof fn lemma_pin_lookup_pointwise_push(
    pre: Seq<PinView>,
    post: Seq<PinView>,
    t: Seq<char>,
    topic: Seq<char>,
)
    requires
        post.len() == pre.len() + 1,
        forall|j: int| 0 <= j < pre.len() ==> post[j] == pre[j],
        post.last().topic == topic,
        t != topic,
    ensures
        pin_lookup(post, t) == pin_lookup(pre, t),
    decreases pre.len(),
{
    if pre.len() == 0 {
        assert(post[0] == post.last());
        assert(post.drop_first().len() == 0);
        assert(pin_lookup(post.drop_first(), t) is None);
        assert(pin_lookup(post, t) is None);
    } else {
        assert(post[0] == pre[0]);
        if pre[0].topic == t {
            assert(pin_lookup(post, t) == Some(post[0]));
            assert(pin_lookup(pre, t) == Some(pre[0]));
        } else {
            assert(forall|j: int|
                0 <= j < pre.drop_first().len() ==> pre.drop_first()[j] == pre[j + 1]);
            assert(forall|j: int|
                0 <= j < post.drop_first().len() ==> post.drop_first()[j] == post[j + 1]);
            assert(post.drop_first().last() == post.last());
            lemma_pin_lookup_pointwise_push(pre.drop_first(), post.drop_first(), t, topic);
        }
    }
}

/// Filtering a unique-keyed store by pin activity turns each lookup into
/// the activity-gated lookup of the original.
proof fn lemma_filter_lookup(s: Seq<PinView>, f: Seq<PinView>, now_ms: u64)
    requires
        forall|a: int, b: int| 0 <= a < b < s.len() ==> (#[trigger] s[a].topic) != (#[trigger] s[b].topic),
        f == s.filter(|p: PinView| pin_active(p, now_ms)),
    ensures
        forall|a: int, b: int|
            0 <= a < b < f.len() ==> (#[trigger] f[a].topic) != (#[trigger] f[b].topic),
        forall|t: Seq<char>|
            #[trigger] pin_lookup(f, t) == match pin_lookup(s, t) {
                Some(p) => if pin_active(p, now_ms) {
                    Some(p)
                } else {
                    None
                },
                None => None::<PinView>,
            },
    decreases s.len(),
{
    reveal(Seq::filter);
    let pred = |p: PinView| pin_active(p, now_ms);
    if s.len() > 0 {
        let rest = s.drop_first();
        assert(forall|j: int| 0 <= j < rest.len() ==> rest[j] == s[j + 1]);
        lemma_filter_lookup(rest, rest.filter(pred), now_ms);
        assert(s == seq![s[0]] + rest);
        lemma_filter_first(s, pred);
        if pred(s[0]) {
            assert(s.filter(pred) == seq![s[0]] + rest.filter(pred));
            assert forall|t: Seq<char>| true implies #[trigger] pin_lookup(s.filter(pred), t)
                == (match pin_lookup(s, t) {
                Some(p) => if pin_active(p, now_ms) {
                    Some(p)
                } else {
                    None
                },
                None => None::<PinView>,
            }) by {
                let f = s.filter(pred);
                assert(f[0] == s[0]);
                assert(f.drop_first() =~= rest.filter(pred));
                if s[0].topic == t {
                } else {
                    assert(pin_lookup(f, t) == pin_lookup(rest.filter(pred), t));
                }
            }
            lemma_filter_members(rest, pred);
            assert forall|a: int, b: int|
                0 <= a < b < s.filter(pred).len() implies (#[trigger] s.filter(pred)[a].topic)
                != (#[trigger] s.filter(pred)[b].topic) by {
                let f = s.filter(pred);
                if a == 0 {
                    assert(f[b] == rest.filter(pred)[b - 1]);
                    assert(rest.filter(pred).contains(f[b]));
                    let j = choose|j: int| 0 <= j < rest.len() && rest[j] == f[b];
                    assert(s[j + 1] == f[b]);
                    assert(s[0].topic != s[j + 1].topic);
                } else {
                    assert(f[a] == rest.filter(pred)[a - 1]);
                    assert(f[b] == rest.filter(pred)[b - 1]);
                }
            }
        } else {
            assert(s.filter(pred) == rest.filter(pred));
            assert forall|t: Seq<char>| true implies #[trigger] pin_lookup(s.filter(pred), t)
                == (match pin_lookup(s, t) {
                Some(p) => if pin_active(p, now_ms) {
                    Some(p)
                } else {
                    None
                },
                None => None::<PinView>,
            }) by {
                if s[0].topic == t {
                    lemma_filter_no_topic(rest, pred, t);
                } else {
                }
            }
        }
    } else {
        assert(s.filter(pred) =~= Seq::<PinView>::empty());
    }
}

/// Filtering distributes over splitting off the first element.
proof fn lemma_filter_first(s: Seq<PinView>, pred: spec_fn(PinView) -> bool)
    requires
        s.len() > 0,
    ensures
        pred(s[0]) ==> s.filter(pred) == seq![s[0]] + s.drop_first().filter(pred),
        !pred(s[0]) ==> s.filter(pred) == s.drop_first().filter(pred),
    decreases s.len(),
{
    reveal(Seq::filter);
    if s.len() == 1 {
        assert(s.drop_first() =~= Seq::<PinView>::empty());
        assert(s.drop_last() =~= Seq::<PinView>::empty());
        if pred(s[0]) {
            assert(s.filter(pred) =~= seq![s[0]] + s.drop_first().filter(pred));
        }
    } else {
        assert(s.drop_last()[0] == s[0]);
        assert(s.drop_last().len() > 0);
        lemma_filter_first(s.drop_last(), pred);
        assert(s.drop_last().drop_first() =~= s.drop_first().drop_last());
        if pred(s.last()) {
            if pred(s[0]) {
                assert(s.filter(pred) == s.drop_last().filter(pred).push(s.last()));
                assert(s.drop_last().filter(pred) == seq![s[0]] + s.drop_first().drop_last().filter(
                    pred,
                ));
                assert(s.drop_first().filter(pred) == s.drop_first().drop_last().filter(pred).push(
                    s.drop_first().last(),
                ));
                assert(s.drop_first().last() == s.last());
                assert(s.filter(pred) =~= seq![s[0]] + s.drop_first().filter(pred));
            } else {
                assert(s.filter(pred) =~= s.drop_first().filter(pred));
            }
        } else {
            if pred(s[0]) {
                assert(s.filter(pred) =~= seq![s[0]] + s.drop_first().filter(pred));
            } else {
                assert(s.filter(pred) =~= s.drop_first().filter(pred));
            }
        }
    }
}

/// Every element of a filtered sequence is an element of the original.
proof fn lemma_filter_members(s: Seq<PinView>, pred: spec_fn(PinView) -> bool)
    ensures
        forall|a: int|
            0 <= a < s.filter(pred).len() ==> s.contains(#[trigger] s.filter(pred)[a]),
    decreases s.len(),
{
    reveal(Seq::filter);
    if s.len() > 0 {
        lemma_filter_members(s.drop_last(), pred);
        assert forall|a: int|
            0 <= a < s.filter(pred).len() implies s.contains(#[trigger] s.filter(pred)[a]) by {
            if pred(s.last()) && a == s.filter(pred).len() - 1 {
                assert(s[s.len() - 1] == s.filter(pred)[a]);
            } else {
                assert(s.filter(pred)[a] == s.drop_last().filter(pred)[a]);
                assert(s.drop_last().contains(s.filter(pred)[a]));
                let j = choose|j: int|
                    0 <= j < s.drop_last().len() && s.drop_last()[j] == s.filter(pred)[a];
                assert(s[j] == s.filter(pred)[a]);
            }
        }
    }
}

/// If no element of `s` bears topic `t`, the filtered lookup misses too.
proof fn lemma_filter_no_topic(s: Seq<PinView>, pred: spec_fn(PinView) -> bool, t: Seq<char>)
    requires
        forall|j: int| 0 <= j < s.len() ==> (#[trigger] s[j].topic) != t,
    ensures
        pin_lookup(s.filter(pred), t) is None,
{
    lemma_filter_members(s, pred);
    lemma_lookup_none_when_absent(s.filter(pred), s, t);
}

proof fn lemma_lookup_none_when_absent(f: Seq<PinView>, s: Seq<PinView>, t: Seq<char>)
    requires
        forall|a: int| 0 <= a < f.len() ==> s.contains(#[trigger] f[a]),
        forall|j: int| 0 <= j < s.len() ==> (#[trigger] s[j].topic) != t,
    ensures
        pin_lookup(f, t) is None,
    decreases f.len(),
{
    if f.len() > 0 {
        assert(s.contains(f[0]));
        let j = choose|j: int| 0 <= j < s.len() && s[j] == f[0];
        assert(f[0].topic != t);
        assert(forall|a: int| 0 <= a < f.drop_first().len() ==> f.drop_first()[a] == f[a + 1]);
        lemma_lookup_none_when_absent(f.drop_first(), s, t);
    }
}

} // verus!
