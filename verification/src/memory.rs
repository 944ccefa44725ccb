//! The coordinator's event log: a bounded recent window and a filtered
//! long-term history.
//!
//! The recent window is bounded in size and age. The long-term history
//! admits only high-result events and evicts low-result ones, so it never
//! holds an event whose result is at or below the eviction line.

use vstd::prelude::*;
use vstd::multiset::Multiset;
use crate::clock::now_seconds;

verus! {

/// Results strictly above this enter the long-term history.
pub const LONG_KEEP_RESULT: u64 = 800;

/// Results strictly below this trigger an eviction sweep; the sweep keeps
/// only results strictly above it.
pub const LONG_EVICT_RESULT: u64 = 300;

/// The mathematical content of one event.
#[verifier::ext_equal]
pub ghost struct BrainEventView {
    pub timestamp: int,
    pub action: Seq<char>,
    pub context: Seq<char>,
    pub result: nat,
}

/// One coordinator event: when, what, free text, and a milli-unit outcome.
#[derive(Debug)]
pub struct BrainEvent {
    pub timestamp: i64,
    pub action: String,
    pub context: String,
    pub result: u64,
}

impl View for BrainEvent {
    type V = BrainEventView;

    open spec fn view(&self) -> BrainEventView {
        BrainEventView {
            timestamp: self.timestamp as int,
            action: self.action@,
            context: self.context@,
            result: self.result as nat,
        }
    }
}

impl Clone for BrainEvent {
    /// A copy with the same content.
    fn clone(&self) -> (r: Self)
        ensures
            r@ == self@,
    {
        BrainEvent {
            timestamp: self.timestamp,
            action: self.action.clone(),
            context: self.context.clone(),
            result: self.result,
        }
    }
}

impl BrainEvent {
    /// An event stamped with the current wall-clock second.
    pub fn new(action: &str, context: &str, result: u64) -> (e: BrainEvent)
        ensures
            e@.action == action@,
            e@.context == context@,
            e@.result == result as nat,
    {
        BrainEvent {
            timestamp: now_seconds(),
            action: action.to_owned(),
            context: context.to_owned(),
            result,
        }
    }
}

/// The view of the events in a list, in order.
pub open spec fn events_view(s: Seq<BrainEvent>) -> Seq<BrainEventView> {
    s.map_values(|e: BrainEvent| e@)
}

/// The age filter on the recent window: an event survives while it is
/// younger than the retention time.
pub open spec fn fresh_at(now: int, retention: int) -> spec_fn(BrainEventView) -> bool {
    |v: BrainEventView| now - v.timestamp < retention
}

/// The eviction filter on the long-term history.
pub open spec fn above_evict_line() -> spec_fn(BrainEventView) -> bool {
    |v: BrainEventView| v.result > LONG_EVICT_RESULT
}

/// `event` with its timestamp overwritten by `now`.
pub open spec fn stamped_view(event: BrainEventView, now: int) -> BrainEventView {
    BrainEventView { timestamp: now, ..event }
}

/// Bounded recent and long-term event histories.
#[derive(Debug)]
pub struct Memory {
    pub short: Vec<BrainEvent>,
    pub long: Vec<BrainEvent>,
    pub max_short: usize,
    pub max_long: usize,
    pub retention_time: i64,
}

impl Memory {
    /// The content of the recent window.
    pub open spec fn short_view(self) -> Seq<BrainEventView> {
        events_view(self.short@)
    }

    /// The content of the long-term history.
    pub open spec fn long_view(self) -> Seq<BrainEventView> {
        events_view(self.long@)
    }

    /// Both histories respect their size bounds, and the long-term history
    /// holds only high-result events.
    pub open spec fn wf(self) -> bool {
        &&& self.short@.len() <= self.max_short
        &&& self.long@.len() <= self.max_long
        &&& forall|i: int|
            0 <= i < self.long@.len() ==> (#[trigger] self.long@[i]).result > LONG_KEEP_RESULT
    }

    /// Fresh, empty histories with the given bounds.
    pub fn new(max_short: usize, max_long: usize, retention_time: i64) -> (m: Memory)
        ensures
            m.short@ =~= Seq::<BrainEvent>::empty(),
            m.long@ =~= Seq::<BrainEvent>::empty(),
            m.max_short == max_short,
            m.max_long == max_long,
            m.retention_time == retention_time,
            m.wf(),
    {
        Memory { short: Vec::new(), long: Vec::new(), max_short, max_long, retention_time }
    }

    /// Record `event` as of the moment `now`: its timestamp is overwritten
    /// with `now`; the recent window takes it, drops its oldest entries
    /// down to the size bound, and drops everything older than the
    /// retention time; the long-term history takes it only when its result
    /// clears [`LONG_KEEP_RESULT`] (trimming oldest entries to its bound)
    /// and is swept when the result falls below [`LONG_EVICT_RESULT`].
    pub fn add_event_at(&mut self, event: BrainEvent, now: i64)
        ensures
            final(self).max_short == old(self).max_short,
            final(self).max_long == old(self).max_long,
            final(self).retention_time == old(self).retention_time,
            final(self).short_view() =~= ({
                let s1 = old(self).short_view().push(stamped_view(event@, now as int));
                let s2 = if s1.len() > old(self).max_short {
                    s1.skip(s1.len() - old(self).max_short)
                } else {
                    s1
                };
                s2.filter(fresh_at(now as int, old(self).retention_time as int))
            }),
            event.result > LONG_KEEP_RESULT ==> final(self).long_view() =~= ({
                let l1 = old(self).long_view().push(stamped_view(event@, now as int));
                if l1.len() > old(self).max_long {
                    l1.skip(l1.len() - old(self).max_long)
                } else {
                    l1
                }
            }),
            event.result < LONG_EVICT_RESULT ==> final(self).long_view() =~= old(
                self,
            ).long_view().filter(above_evict_line()),
            LONG_EVICT_RESULT <= event.result <= LONG_KEEP_RESULT ==> final(self).long@ == old(
                self,
            ).long@,
            old(self).wf() ==> final(self).wf(),
    {
        let stamped = BrainEvent { timestamp: now, ..event };
        let keeps = stamped.result > LONG_KEEP_RESULT;
        let evicts = stamped.result < LONG_EVICT_RESULT;
        let ghost s0v = self.short_view();
        self.short.push(stamped.clone());
        proof {
            assert(self.short_view() =~= s0v.push(stamped_view(event@, now as int)));
        }
        if self.short.len() > self.max_short {
            let excess = self.short.len() - self.max_short;
            let ghost s1 = self.short@;
            let kept = self.short.split_off(excess);
            self.short = kept;
            proof {
                assert(self.short_view() =~= events_view(s1).skip(excess as int));
            }
        }
        let ghost s2 = self.short@;
        let ghost pred = fresh_at(now as int, self.retention_time as int);
        let mut retained: Vec<BrainEvent> = Vec::new();
        let mut i: usize = 0;
        while i < self.short.len()
            invariant
                i <= self.short@.len(),
                self.short@ == s2,
                pred == fresh_at(now as int, self.retention_time as int),
                retained@.len() <= i,
                events_view(retained@) =~= events_view(s2.take(i as int)).filter(pred),
            decreases self.short@.len() - i,
        {
            let e = &self.short[i];
            let age_ok = (now as i128) - (e.timestamp as i128) < (self.retention_time as i128);
            let ghost r0 = retained@;
            if age_ok {
                retained.push(e.clone());
                proof {
                    assert(events_view(retained@) =~= events_view(r0).push(s2[i as int]@));
                }
            }
            i = i + 1;
            proof {
                let t = events_view(s2.take(i as int));
                assert(t.drop_last() =~= events_view(s2.take(i - 1)));
                assert(t.last() == s2[i - 1]@);
                reveal_with_fuel(Seq::filter, 2);
                assert(events_view(retained@) =~= t.filter(pred));
            }
        }
        proof {
            assert(s2.take(s2.len() as int) =~= s2);
            assert(events_view(s2.take(s2.len() as int)) =~= events_view(s2));
        }
        self.short = retained;
        if keeps {
            let ghost l0v = self.long_view();
            self.long.push(stamped);
            proof {
                assert(self.long_view() =~= l0v.push(stamped_view(event@, now as int)));
            }
            if self.long.len() > self.max_long {
                let excess = self.long.len() - self.max_long;
                let ghost l1 = self.long@;
                let kept_long = self.long.split_off(excess);
                self.long = kept_long;
                proof {
                    assert(self.long_view() =~= events_view(l1).skip(excess as int));
                }
            }
        } else if evicts {
            let ghost l0 = self.long@;
            let mut kept: Vec<BrainEvent> = Vec::new();
            let mut j: usize = 0;
            while j < self.long.len()
                invariant
                    j <= self.long@.len(),
                    self.long@ == l0,
                    kept@.len() <= j,
                    events_view(kept@) =~= events_view(l0.take(j as int)).filter(
                        above_evict_line(),
                    ),
                    forall|k: int|
                        0 <= k < kept@.len() ==> (#[trigger] kept@[k]).result > LONG_KEEP_RESULT
                        || !(forall|m: int|
                            0 <= m < l0.len() ==> (#[trigger] l0[m]).result > LONG_KEEP_RESULT),
                decreases self.long@.len() - j,
            {
                let ghost k0 = kept@;
                if self.long[j].result > LONG_EVICT_RESULT {
                    kept.push(self.long[j].clone());
                    proof {
                        assert(events_view(kept@) =~= events_view(k0).push(l0[j as int]@));
                    }
                }
                j = j + 1;
                proof {
                    let t = events_view(l0.take(j as int));
                    assert(t.drop_last() =~= events_view(l0.take(j - 1)));
                    assert(t.last() == l0[j - 1]@);
                    reveal_with_fuel(Seq::filter, 2);
                    assert(events_view(kept@) =~= t.filter(above_evict_line()));
                }
            }
            proof {
                assert(l0.take(l0.len() as int) =~= l0);
                assert(events_view(l0.take(l0.len() as int)) =~= events_view(l0));
            }
            self.long = kept;
        }
    }

    /// Record `event` as of the current wall-clock second.
    pub fn add_event(&mut self, event: BrainEvent)
        ensures
            final(self).max_short == old(self).max_short,
            final(self).max_long == old(self).max_long,
            final(self).retention_time == old(self).retention_time,
            old(self).wf() ==> final(self).wf(),
            (exists|now: i64| #[trigger] added_at(*old(self), *final(self), event@, now)),
    {
        let now = now_seconds();
        let ghost pre = *self;
        self.add_event_at(event, now);
        proof {
            assert(added_at(pre, *self, event@, now));
        }
    }

    /// Alias for [`Memory::add_event`].
    pub fn record(&mut self, event: BrainEvent)
        ensures
            final(self).max_short == old(self).max_short,
            final(self).max_long == old(self).max_long,
            final(self).retention_time == old(self).retention_time,
            old(self).wf() ==> final(self).wf(),
            (exists|now: i64| #[trigger] added_at(*old(self), *final(self), event@, now)),
    {
        self.add_event(event);
    }
}

/// What recording an event at the moment `now` does to the two histories:
/// exactly the effect [`Memory::add_event_at`] promises.
pub open spec fn added_at(
    before: Memory,
    after: Memory,
    event: BrainEventView,
    now: i64,
) -> bool {
    &&& after.short_view() =~= ({
        let s1 = before.short_view().push(stamped_view(event, now as int));
        let s2 = if s1.len() > before.max_short {
            s1.skip(s1.len() - before.max_short)
        } else {
            s1
        };
        s2.filter(fresh_at(now as int, before.retention_time as int))
    })
    &&& (event.result > LONG_KEEP_RESULT ==> after.long_view() =~= ({
        let l1 = before.long_view().push(stamped_view(event, now as int));
        if l1.len() > before.max_long {
            l1.skip(l1.len() - before.max_long)
        } else {
            l1
        }
    }))
    &&& (event.result < LONG_EVICT_RESULT ==> after.long_view() =~= before.long_view().filter(
        above_evict_line(),
    ))
    &&& (LONG_EVICT_RESULT <= event.result <= LONG_KEEP_RESULT ==> after.long@ == before.long@)
}

/// The last `n` entries of `s`, newest first.
pub open spec fn newest_first(s: Seq<BrainEventView>, n: int) -> Seq<BrainEventView> {
    Seq::new(
        if n < s.len() {
            n as nat
        } else {
            s.len()
        },
        |j: int| s[s.len() - 1 - j],
    )
}

/// Newest-first order on events.
pub open spec fn newer_first(a: BrainEventView, b: BrainEventView) -> bool {
    a.timestamp >= b.timestamp
}

impl Memory {
    /// The last `count` recent events, newest first.
    pub fn get_recent(&self, count: usize) -> (r: Vec<BrainEvent>)
        ensures
            events_view(r@) =~= newest_first(self.short_view(), count as int),
    {
        let mut r: Vec<BrainEvent> = Vec::new();
        let len = self.short.len();
        let n = if count < len {
            count
        } else {
            len
        };
        let mut j: usize = 0;
        while j < n
            invariant
                j <= n,
                len == self.short@.len(),
                n <= len,
                n == if count < self.short@.len() {
                    count as int
                } else {
                    self.short@.len() as int
                },
                events_view(r@) =~= newest_first(self.short_view(), count as int).take(j as int),
            decreases n - j,
        {
            let ghost r0 = r@;
            r.push(self.short[len - 1 - j].clone());
            j = j + 1;
            proof {
                assert(events_view(r@) =~= events_view(r0).push(
                    self.short@[self.short@.len() - j as int]@,
                ));
                assert(events_view(r@) =~= newest_first(self.short_view(), count as int).take(
                    j as int,
                ));
            }
        }
        proof {
            let full = newest_first(self.short_view(), count as int);
            assert(full.take(full.len() as int) =~= full);
        }
        r
    }

    /// The last `count` long-term events, newest first.
    pub fn get_long(&self, count: usize) -> (r: Vec<BrainEvent>)
        ensures
            events_view(r@) =~= newest_first(self.long_view(), count as int),
    {
        let mut r: Vec<BrainEvent> = Vec::new();
        let len = self.long.len();
        let n = if count < len {
            count
        } else {
            len
        };
        let mut j: usize = 0;
        while j < n
            invariant
                j <= n,
                len == self.long@.len(),
                n <= len,
                n == if count < self.long@.len() {
                    count as int
                } else {
                    self.long@.len() as int
                },
                events_view(r@) =~= newest_first(self.long_view(), count as int).take(j as int),
            decreases n - j,
        {
            let ghost r0 = r@;
            r.push(self.long[len - 1 - j].clone());
            j = j + 1;
            proof {
                assert(events_view(r@) =~= events_view(r0).push(
                    self.long@[self.long@.len() - j as int]@,
                ));
                assert(events_view(r@) =~= newest_first(self.long_view(), count as int).take(
                    j as int,
                ));
            }
        }
        proof {
            let full = newest_first(self.long_view(), count as int);
            assert(full.take(full.len() as int) =~= full);
        }
        r
    }

    /// The mean result of the newest `count` recent events, zero when the
    /// window is empty; integer division truncates.
    pub fn average_result(&self, count: usize) -> (avg: u64)
        ensures
            ({
                let lastn = newest_first(self.short_view(), count as int);
                avg == if lastn.len() == 0 {
                    0int
                } else {
                    sum_results(lastn) / lastn.len() as int
                }
            }),
    {
        let len = self.short.len();
        if len == 0 || count == 0 {
            return 0;
        }
        let take_n = if count < len {
            count
        } else {
            len
        };
        let ghost lastn = newest_first(self.short_view(), count as int);
        let mut acc: u128 = 0;
        let mut j: usize = 0;
        while j < take_n
            invariant
                j <= take_n,
                0 < take_n <= self.short@.len(),
                len == self.short@.len(),
                take_n == lastn.len(),
                lastn == newest_first(self.short_view(), count as int),
                acc == sum_results(lastn.take(j as int)),
                acc <= j * (u64::MAX as int),
            decreases take_n - j,
        {
            let e = &self.short[len - 1 - j];
            acc = acc + e.result as u128;
            j = j + 1;
            proof {
                assert(lastn.take(j as int).drop_last() =~= lastn.take(j - 1));
                assert(lastn.take(j as int).last() == lastn[j - 1]);
                assert(lastn[j - 1] == self.short@[self.short@.len() - j as int]@);
                assert(acc == sum_results(lastn.take(j as int)));
            }
        }
        proof {
            assert(lastn.take(take_n as int) =~= lastn);
            assert(acc / (take_n as u128) <= u64::MAX) by (nonlinear_arith)
                requires
                    acc <= take_n * (u64::MAX as int),
                    take_n >= 1,
            ;
        }
        let avg = acc / (take_n as u128);
        avg as u64
    }

    /// Recent and long-term events side by side, newest first: half the
    /// budget from the recent window, the rest from the long-term history,
    /// merged and ordered by timestamp descending.
    pub fn get_combined_memory(&self, count: usize) -> (r: Vec<BrainEvent>)
        ensures
            events_view(r@).to_multiset() == newest_first(
                self.short_view(),
                (count / 2) as int,
            ).to_multiset().add(
                newest_first(self.long_view(), (count - count / 2) as int).to_multiset(),
            ),
            sorted_newest_first(events_view(r@)),
    {
        let half = count / 2;
        let mut combined = self.get_recent(half);
        let mut tail = self.get_long(count - half);
        let ghost a = events_view(combined@);
        let ghost b = events_view(tail@);
        combined.append(&mut tail);
        proof {
            assert(events_view(combined@) =~= a + b);
            lemma_events_multiset_concat(a, b);
        }
        sort_events_newest_first(combined)
    }
}

/// The sum of the results in `s`.
pub open spec fn sum_results(s: Seq<BrainEventView>) -> int
    decreases s.len(),
{
    if s.len() == 0 {
        0
    } else {
        sum_results(s.drop_last()) + s.last().result
    }
}

/// Ordered newest first: every event's timestamp is at least the next one's.
pub open spec fn sorted_newest_first(s: Seq<BrainEventView>) -> bool {
    forall|j: int, k: int| 0 <= j < k < s.len() ==> #[trigger] s[j].timestamp >= #[trigger] s[k].timestamp
}

/// The multiset of a concatenation is the sum of the multisets.
proof fn lemma_events_multiset_concat(a: Seq<BrainEventView>, b: Seq<BrainEventView>)
    ensures
        (a + b).to_multiset() == a.to_multiset().add(b.to_multiset()),
{
    a.to_multiset_ensures();
    b.to_multiset_ensures();
    vstd::seq_lib::lemma_multiset_commutative(a, b);
}

/// Order `events` newest first by repeatedly extracting the newest
/// remaining event. The result holds exactly the same events.
fn sort_events_newest_first(events: Vec<BrainEvent>) -> (r: Vec<BrainEvent>)
    ensures
        events_view(r@).to_multiset() == events_view(events@).to_multiset(),
        sorted_newest_first(events_view(r@)),
{
    let mut src = events;
    let mut out: Vec<BrainEvent> = Vec::new();
    let ghost orig = events_view(src@);
    proof {
        broadcast use vstd::seq_lib::group_to_multiset_ensures;

        assert(events_view(out@).to_multiset() =~= Multiset::<BrainEventView>::empty());
        assert(events_view(out@).to_multiset().add(events_view(src@).to_multiset())
            =~= orig.to_multiset());
    }
    while src.len() > 0
        invariant
            events_view(out@).to_multiset().add(events_view(src@).to_multiset())
                == orig.to_multiset(),
            sorted_newest_first(events_view(out@)),
            forall|j: int, k: int|
                0 <= j < out@.len() && 0 <= k < src@.len() ==> (#[trigger] out@[j]).timestamp >= (
                #[trigger] src@[k]).timestamp,
        decreases src@.len(),
    {
        proof {
            broadcast use vstd::seq_lib::group_to_multiset_ensures;

        }
        let mut best: usize = 0;
        let mut c: usize = 1;
        while c < src.len()
            invariant
                best < c <= src@.len() || (c <= src@.len() && best == 0),
                best < src@.len(),
                forall|j: int|
                    0 <= j < c ==> src@[best as int].timestamp >= (#[trigger] src@[j]).timestamp,
            decreases src@.len() - c,
        {
            if src[c].timestamp > src[best].timestamp {
                best = c;
            }
            c = c + 1;
        }
        let ghost s_before = events_view(src@);
        let ghost o_before = events_view(out@);
        let picked = src.remove(best);
        out.push(picked);
        proof {
            assert(events_view(src@) =~= s_before.remove(best as int));
            assert(events_view(out@) =~= o_before.push(picked@));
            assert(s_before[best as int] == picked@);
            assert(events_view(src@).to_multiset() == s_before.to_multiset().remove(picked@));
            assert(events_view(out@).to_multiset() == o_before.to_multiset().insert(picked@));
            assert(events_view(out@).to_multiset().add(events_view(src@).to_multiset())
                =~= o_before.to_multiset().add(s_before.to_multiset()));
            assert forall|k: int| 0 <= k < src@.len() implies picked@.timestamp >= (
            #[trigger] src@[k]).timestamp by {
                if k < best {
                    assert(src@[k]@ == s_before[k]);
                } else {
                    assert(src@[k]@ == s_before[k + 1]);
                }
            }
        }
    }
    proof {
        assert(events_view(src@) =~= Seq::<BrainEventView>::empty());
        broadcast use vstd::seq_lib::group_to_multiset_ensures;

        assert(events_view(src@).to_multiset() =~= Multiset::<BrainEventView>::empty());
        assert(events_view(out@).to_multiset() =~= orig.to_multiset());
    }
    out
}

/// The events in `evs` were recorded in order, each at some moment, taking
/// `before` to `after`.
pub open spec fn events_recorded(before: Memory, after: Memory, evs: Seq<BrainEventView>) -> bool
    decreases evs.len(),
{
    if evs.len() == 0 {
        after == before
    } else {
        exists|mid: Memory, now: i64|
            #[trigger] added_at(before, mid, evs[0], now) && events_recorded(
                mid,
                after,
                evs.drop_first(),
            )
    }
}

/// Recording chains compose: one run of events after another is one longer
/// run.
pub proof fn lemma_events_recorded_concat(
    m0: Memory,
    m1: Memory,
    m2: Memory,
    x: Seq<BrainEventView>,
    y: Seq<BrainEventView>,
)
    requires
        events_recorded(m0, m1, x),
        events_recorded(m1, m2, y),
    ensures
        events_recorded(m0, m2, x + y),
    decreases x.len(),
{
    if x.len() == 0 {
        assert(x + y =~= y);
    } else {
        let (mid, now) = choose|mid: Memory, now: i64|
            added_at(m0, mid, x[0], now) && events_recorded(mid, m1, x.drop_first());
        lemma_events_recorded_concat(mid, m1, m2, x.drop_first(), y);
        assert((x + y).drop_first() =~= x.drop_first() + y);
        assert((x + y)[0] == x[0]);
        assert(added_at(m0, mid, (x + y)[0], now) && events_recorded(mid, m2, (x + y).drop_first()));
    }
}

/// A single recording is a one-event chain.
pub proof fn lemma_events_recorded_single(
    m0: Memory,
    m1: Memory,
    ev: BrainEventView,
    now: i64,
)
    requires
        added_at(m0, m1, ev, now),
    ensures
        events_recorded(m0, m1, seq![ev]),
{
    assert(seq![ev].drop_first() =~= Seq::<BrainEventView>::empty());
    assert(added_at(m0, m1, seq![ev][0], now) && events_recorded(m1, m1, seq![ev].drop_first()));
}

} // verus!
