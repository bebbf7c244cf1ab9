//! The animation bookkeeping that the drawing loop consults: which
//! animations are active, when the last repaint happened, and repaint
//! statistics over a circular buffer. All state is owned and passed
//! explicitly; nothing ambient.

use vstd::prelude::*;
use crate::textscan::str_eq;

verus! {

/// The identifiers of the animations currently running, without
/// duplicates, plus repaint throttling state.
pub struct AnimationContext {
    /// Identifiers of the active animations, registration order.
    pub active: Vec<String>,
    /// When the last repaint was requested, in clock milliseconds.
    pub last_repaint_ms: Option<u64>,
    /// How many repaints were requested; sticks at its ceiling.
    pub total_repaints: u64,
}

/// The identifiers of `s` without every occurrence of `id`.
pub open spec fn without_id(s: Seq<Seq<char>>, id: Seq<char>) -> Seq<Seq<char>>
    decreases s.len(),
{
    if s.len() == 0 {
        Seq::empty()
    } else if s[0] == id {
        without_id(s.drop_first(), id)
    } else {
        seq![s[0]] + without_id(s.drop_first(), id)
    }
}

impl AnimationContext {
    /// Whether an animation with this identifier is registered.
    pub open spec fn has_active(self, id: Seq<char>) -> bool {
        exists|k: int| 0 <= k < self.active@.len() && self.active@[k]@ == id
    }

    /// A fresh context: no animations, no repaint yet.
    pub fn init() -> (r: AnimationContext)
        ensures
            r.active@.len() == 0,
            r.last_repaint_ms is None,
            r.total_repaints == 0,
    {
        AnimationContext { active: Vec::new(), last_repaint_ms: None, total_repaints: 0 }
    }

    /// Registers an animation as active; an identifier that is already
    /// registered is not registered twice.
    pub fn register_active_animation(&mut self, id: String)
        ensures
            final(self).active.deep_view() == if old(self).has_active(id@) {
                old(self).active.deep_view()
            } else {
                old(self).active.deep_view().push(id@)
            },
            final(self).has_active(id@),
            final(self).last_repaint_ms == old(self).last_repaint_ms,
            final(self).total_repaints == old(self).total_repaints,
    {
        let n = self.active.len();
        let mut k: usize = 0;
        while k < n
            invariant
                n == self.active@.len(),
                k <= n,
                *self == *old(self),
                forall|j: int| 0 <= j < k ==> self.active@[j]@ != id@,
            decreases n - k,
        {
            if str_eq(self.active[k].as_str(), id.as_str()) {
                assert(self.has_active(id@));
                return ;
            }
            k = k + 1;
        }
        assert(!self.has_active(id@));
        let ghost prev = self.active.deep_view();
        self.active.push(id);
        proof {
            assert(self.active.deep_view() =~= prev.push(id@));
            assert(self.active@[self.active@.len() - 1]@ == id@);
        }
    }

    /// Removes an animation from the active set.
    pub fn unregister_active_animation(&mut self, id: &str)
        ensures
            final(self).active.deep_view() == without_id(old(self).active.deep_view(), id@),
            !final(self).has_active(id@),
            final(self).last_repaint_ms == old(self).last_repaint_ms,
            final(self).total_repaints == old(self).total_repaints,
    {
        let n = self.active.len();
        let mut kept: Vec<String> = Vec::new();
        let mut k: usize = 0;
        proof {
            assert(old(self).active.deep_view().skip(0) =~= old(self).active.deep_view());
            assert(kept.deep_view() =~= Seq::<Seq<char>>::empty());
        }
        while k < n
            invariant
                n == self.active@.len(),
                k <= n,
                *self == *old(self),
                without_id(old(self).active.deep_view(), id@) == kept.deep_view() + without_id(
                    old(self).active.deep_view().skip(k as int),
                    id@,
                ),
                forall|j: int| 0 <= j < kept.deep_view().len() ==> kept.deep_view()[j] != id@,
            decreases n - k,
        {
            proof {
                let ss = old(self).active.deep_view().skip(k as int);
                assert(ss[0] == old(self).active@[k as int]@);
                assert(ss.drop_first() =~= old(self).active.deep_view().skip(k + 1));
            }
            let ghost prev = kept.deep_view();
            if !str_eq(self.active[k].as_str(), id) {
                let item = self.active[k].clone();
                kept.push(item);
                proof {
                    assert(kept.deep_view() =~= prev + seq![old(self).active@[k as int]@]);
                    assert(prev + seq![old(self).active@[k as int]@] + without_id(
                        old(self).active.deep_view().skip(k + 1),
                        id@,
                    ) =~= prev + (seq![old(self).active@[k as int]@] + without_id(
                        old(self).active.deep_view().skip(k + 1),
                        id@,
                    )));
                }
            }
            k = k + 1;
        }
        proof {
            assert(without_id(old(self).active.deep_view().skip(k as int), id@) =~= Seq::<
                Seq<char>,
            >::empty());
            assert(kept.deep_view() =~= kept.deep_view() + Seq::<Seq<char>>::empty());
        }
        self.active = kept;
        proof {
            assert forall|j: int| 0 <= j < self.active@.len() implies self.active@[j]@ != id@ by {
                assert(self.active.deep_view()[j] == self.active@[j]@);
            }
        }
    }

    /// Whether any animation is active.
    pub fn has_active_animations(&self) -> (r: bool)
        ensures
            r == (self.active@.len() > 0),
    {
        self.active.len() > 0
    }

    /// Forgets every active animation, as on a scene change.
    pub fn clear_active_animations(&mut self)
        ensures
            final(self).active@.len() == 0,
            final(self).last_repaint_ms == old(self).last_repaint_ms,
            final(self).total_repaints == old(self).total_repaints,
    {
        self.active = Vec::new();
    }

    /// Requests a repaint unconditionally and records the instant.
    pub fn force_repaint(&mut self, now_ms: u64)
        ensures
            final(self).last_repaint_ms == Some(now_ms),
            final(self).total_repaints == if old(self).total_repaints < u64::MAX {
                old(self).total_repaints + 1
            } else {
                old(self).total_repaints as int
            },
            final(self).active == old(self).active,
    {
        self.last_repaint_ms = Some(now_ms);
        if self.total_repaints < u64::MAX {
            self.total_repaints = self.total_repaints + 1;
        }
    }

    /// Requests a repaint only when at least sixteen milliseconds have
    /// passed since the last one, which caps animation updates near sixty
    /// frames per second; reports whether a repaint was requested.
    pub fn request_optimized_repaint(&mut self, now_ms: u64) -> (r: bool)
        ensures
            r == match old(self).last_repaint_ms {
                None => true,
                Some(t) => now_ms >= t + 16,
            },
            r ==> final(self).last_repaint_ms == Some(now_ms) && final(self).total_repaints == (
            if old(self).total_repaints < u64::MAX {
                old(self).total_repaints + 1
            } else {
                old(self).total_repaints as int
            }),
            !r ==> *final(self) == *old(self),
            final(self).active == old(self).active,
    {
        let due = match self.last_repaint_ms {
            None => true,
            Some(t) => now_ms >= t && now_ms - t >= 16,
        };
        if due {
            self.force_repaint(now_ms);
        }
        due
    }
}

/// A snapshot of the repaint statistics.
#[derive(Clone, Copy, Debug)]
pub struct RepaintStatistics {
    /// Repaints recorded overall.
    pub total_repaints: u64,
    /// Mean interval between recent repaints, in milliseconds.
    pub average_interval_ms: u64,
    /// Animation updates recorded overall.
    pub animation_updates: u64,
}

/// The sum of the first `n` recorded intervals.
pub open spec fn sum_intervals(s: Seq<u64>, n: int) -> int
    decreases n,
{
    if n <= 0 {
        0
    } else {
        sum_intervals(s, n - 1) + s[n - 1]
    }
}

/// Recent repaint intervals in a circular buffer of one hundred slots.
pub struct RepaintStats {
    /// The recorded intervals; the buffer always holds one hundred slots.
    pub intervals_ms: Vec<u64>,
    /// How many slots hold real measurements, up to the buffer size.
    pub count: usize,
    /// The slot the next measurement lands in.
    pub index: usize,
    /// When the last repaint was recorded.
    pub last_repaint_ms: Option<u64>,
}

impl RepaintStats {
    /// The buffer shape: exactly one hundred slots, the counters inside
    /// them.
    pub open spec fn wf(self) -> bool {
        &&& self.intervals_ms@.len() == 100
        &&& self.count <= 100
        &&& self.index < 100
    }

    /// An empty statistics buffer.
    pub fn new() -> (r: RepaintStats)
        ensures
            r.wf(),
            r.count == 0,
            r.index == 0,
            r.last_repaint_ms is None,
    {
        let mut intervals_ms: Vec<u64> = Vec::new();
        let mut k: usize = 0;
        while k < 100
            invariant
                k <= 100,
                intervals_ms@.len() == k,
            decreases 100 - k,
        {
            intervals_ms.push(0);
            k = k + 1;
        }
        RepaintStats { intervals_ms, count: 0, index: 0, last_repaint_ms: None }
    }

    /// Records one repaint at `now`: the first call only sets the
    /// reference instant; every later call writes the interval since the
    /// previous repaint into the next circular slot.
    pub fn record_repaint(&mut self, now_ms: u64)
        requires
            old(self).wf(),
            match old(self).last_repaint_ms {
                Some(t) => t <= now_ms,
                None => true,
            },
        ensures
            final(self).wf(),
            final(self).last_repaint_ms == Some(now_ms),
            old(self).last_repaint_ms is None ==> final(self).intervals_ms == old(
                self,
            ).intervals_ms && final(self).count == old(self).count && final(self).index == old(
                self,
            ).index,
            old(self).last_repaint_ms matches Some(t) ==> {
                &&& final(self).intervals_ms@ == old(self).intervals_ms@.update(
                    old(self).index as int,
                    (now_ms - t) as u64,
                )
                &&& final(self).index == (old(self).index + 1) % 100
                &&& final(self).count == if old(self).count < 100 {
                    old(self).count + 1
                } else {
                    100int
                }
            },
    {
        match self.last_repaint_ms {
            Some(t) => {
                let interval = now_ms - t;
                self.intervals_ms.set(self.index, interval);
                self.index = (self.index + 1) % 100;
                if self.count < 100 {
                    self.count = self.count + 1;
                }
            },
            None => {},
        }
        self.last_repaint_ms = Some(now_ms);
    }

    /// The mean of the recorded intervals, zero while nothing is recorded.
    pub fn average_interval_ms(&self) -> (r: u64)
        requires
            self.wf(),
        ensures
            self.count == 0 ==> r == 0,
            self.count > 0 ==> r == sum_intervals(self.intervals_ms@, self.count as int) / (
            self.count as int),
    {
        if self.count == 0 {
            return 0;
        }
        let n = self.count;
        let mut sum: u128 = 0;
        let mut k: usize = 0;
        while k < n
            invariant
                self.wf(),
                n == self.count,
                k <= n,
                sum == sum_intervals(self.intervals_ms@, k as int),
                sum <= k * 0xffff_ffff_ffff_ffff,
            decreases n - k,
        {
            proof {
                assert(sum + self.intervals_ms@[k as int] <= (k + 1) * 0xffff_ffff_ffff_ffff)
                    by (nonlinear_arith)
                    requires
                        sum <= k * 0xffff_ffff_ffff_ffff,
                        self.intervals_ms@[k as int] <= 0xffff_ffff_ffff_ffff,
                ;
            }
            sum = sum + (self.intervals_ms[k] as u128);
            k = k + 1;
        }
        let avg: u128 = sum / (n as u128);
        proof {
            assert(avg * n <= sum) by {
                vstd::arithmetic::div_mod::lemma_fundamental_div_mod(sum as int, n as int);
                vstd::arithmetic::div_mod::lemma_mod_bound(sum as int, n as int);
            }
            assert(avg <= 0xffff_ffff_ffff_ffff) by (nonlinear_arith)
                requires
                    avg * n <= sum,
                    sum <= n * 0xffff_ffff_ffff_ffff,
                    1 <= n,
            ;
        }
        avg as u64
    }
}

impl RepaintStats {
    /// A snapshot: the given overall counters beside the mean recorded
    /// interval.
    pub fn get_stats(&self, total_repaints: u64, animation_updates: u64) -> (r: RepaintStatistics)
        requires
            self.wf(),
        ensures
            r.total_repaints == total_repaints,
            r.animation_updates == animation_updates,
            self.count == 0 ==> r.average_interval_ms == 0,
            self.count > 0 ==> r.average_interval_ms == sum_intervals(
                self.intervals_ms@,
                self.count as int,
            ) / (self.count as int),
    {
        RepaintStatistics {
            total_repaints,
            average_interval_ms: self.average_interval_ms(),
            animation_updates,
        }
    }
}

/// The repaint ledger: the circular interval buffer plus the two overall
/// counters, each sticking at its ceiling.
pub struct RepaintManager {
    /// Recent repaint intervals.
    pub stats: RepaintStats,
    /// Repaints recorded overall.
    pub total_repaints: u64,
    /// Animation updates recorded overall.
    pub animation_updates: u64,
}

impl RepaintManager {
    /// A fresh ledger.
    pub fn new() -> (r: RepaintManager)
        ensures
            r.stats.wf(),
            r.stats.count == 0,
            r.total_repaints == 0,
            r.animation_updates == 0,
    {
        RepaintManager { stats: RepaintStats::new(), total_repaints: 0, animation_updates: 0 }
    }

    /// Records one repaint at `now` in the interval buffer and the overall
    /// count.
    pub fn record_repaint(&mut self, now_ms: u64)
        requires
            old(self).stats.wf(),
            match old(self).stats.last_repaint_ms {
                Some(t) => t <= now_ms,
                None => true,
            },
        ensures
            final(self).stats.wf(),
            final(self).stats.last_repaint_ms == Some(now_ms),
            final(self).total_repaints == if old(self).total_repaints < u64::MAX {
                old(self).total_repaints + 1
            } else {
                old(self).total_repaints as int
            },
            final(self).animation_updates == old(self).animation_updates,
    {
        self.stats.record_repaint(now_ms);
        if self.total_repaints < u64::MAX {
            self.total_repaints = self.total_repaints + 1;
        }
    }

    /// Records one animation update.
    pub fn record_animation_update(&mut self)
        ensures
            final(self).animation_updates == if old(self).animation_updates < u64::MAX {
                old(self).animation_updates + 1
            } else {
                old(self).animation_updates as int
            },
            final(self).stats == old(self).stats,
            final(self).total_repaints == old(self).total_repaints,
    {
        if self.animation_updates < u64::MAX {
            self.animation_updates = self.animation_updates + 1;
        }
    }

    /// A snapshot of the counters and the mean repaint interval.
    pub fn get_statistics(&self) -> (r: RepaintStatistics)
        requires
            self.stats.wf(),
        ensures
            r.total_repaints == self.total_repaints,
            r.animation_updates == self.animation_updates,
            self.stats.count == 0 ==> r.average_interval_ms == 0,
            self.stats.count > 0 ==> r.average_interval_ms == sum_intervals(
                self.stats.intervals_ms@,
                self.stats.count as int,
            ) / (self.stats.count as int),
    {
        RepaintStatistics {
            total_repaints: self.total_repaints,
            average_interval_ms: self.stats.average_interval_ms(),
            animation_updates: self.animation_updates,
        }
    }
}

} // verus!
