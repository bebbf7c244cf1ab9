//! Batch scheduling of the paginated crawl: pages are partitioned into
//! fixed-size waves, a wave's tasks are issued together, and the next wave
//! begins only after every task of the current wave has resolved. Results
//! are collected by position, so link order follows page order, never
//! completion order.

use vstd::prelude::*;

verus! {

/// The pages of a listing, in ascending order starting at one.
pub open spec fn page_seq(count: u32) -> Seq<u32> {
    Seq::new(count as nat, |i: int| (i + 1) as u32)
}

/// All elements of the nested sequence, in order.
pub open spec fn concat_all<T>(s: Seq<Seq<T>>) -> Seq<T>
    decreases s.len(),
{
    if s.len() == 0 {
        Seq::empty()
    } else {
        concat_all(s.drop_last()) + s.last()
    }
}

/// Wave shape: every wave is non-empty, no wave exceeds the batch size, and
/// every wave but the last is full.
pub open spec fn well_batched(w: Seq<Seq<u32>>, batch_size: u32) -> bool {
    &&& forall|k: int| 0 <= k < w.len() ==> 0 < #[trigger] w[k].len() <= batch_size
    &&& forall|k: int| 0 <= k < w.len() - 1 ==> #[trigger] w[k].len() == batch_size
}

/// Partitions pages `1..=page_count` into waves of `batch_size` pages: the
/// waves concatenate back to the ascending page list, no wave holds more
/// than `batch_size` pages, and only the last wave may be short.
pub fn plan_batches(page_count: u32, batch_size: u32) -> (r: Vec<Vec<u32>>)
    requires
        batch_size >= 1,
    ensures
        concat_all(r.deep_view()) == page_seq(page_count),
        well_batched(r.deep_view(), batch_size),
{
    let mut waves: Vec<Vec<u32>> = Vec::new();
    let mut wave: Vec<u32> = Vec::new();
    let mut p: u32 = 0;
    proof {
        assert(concat_all(waves.deep_view()) + wave@ =~= page_seq(0));
    }
    while p < page_count
        invariant
            batch_size >= 1,
            p <= page_count,
            wave@.len() < batch_size,
            concat_all(waves.deep_view()) + wave@ =~= page_seq(p),
            forall|k: int|
                0 <= k < waves.deep_view().len() ==> #[trigger] waves.deep_view()[k].len()
                    == batch_size,
        decreases page_count - p,
    {
        let ghost waves0 = waves.deep_view();
        let ghost wave0 = wave@;
        let ghost p0 = p as int;
        p = p + 1;
        wave.push(p);
        proof {
            assert(page_seq(p) =~= page_seq(p0 as u32).push(p as u32));
            assert((concat_all(waves0) + wave0).push(p as u32) =~= concat_all(waves0)
                + wave0.push(p as u32));
            assert(concat_all(waves.deep_view()) + wave@ =~= page_seq(p));
        }
        if wave.len() == batch_size as usize {
            let full = wave;
            wave = Vec::new();
            waves.push(full);
            proof {
                let w2 = waves.deep_view();
                assert(w2.drop_last() =~= waves0);
                assert(w2.last() == wave0.push(p as u32));
                assert(concat_all(w2) == concat_all(waves0) + wave0.push(p as u32));
                assert(concat_all(w2) + wave@ =~= page_seq(p));
                assert forall|k: int| 0 <= k < w2.len() implies #[trigger] w2[k].len()
                    == batch_size by {
                    if k < w2.len() - 1 {
                        assert(w2[k] == waves0[k]);
                    }
                }
            }
        }
    }
    if wave.len() > 0 {
        let ghost waves0 = waves.deep_view();
        let ghost wave0 = wave@;
        waves.push(wave);
        proof {
            let w2 = waves.deep_view();
            assert(w2.drop_last() =~= waves0);
            assert(w2.last() == wave0);
            assert(concat_all(w2) =~= page_seq(page_count));
            assert forall|k: int| 0 <= k < w2.len() implies 0 < #[trigger] w2[k].len()
                <= batch_size by {
                if k < w2.len() - 1 {
                    assert(w2[k] == waves0[k]);
                }
            }
            assert forall|k: int| 0 <= k < w2.len() - 1 implies #[trigger] w2[k].len()
                == batch_size by {
                assert(w2[k] == waves0[k]);
            }
        }
        return waves;
    }
    proof {
        let w2 = waves.deep_view();
        assert(concat_all(w2) =~= page_seq(page_count));
        assert forall|k: int| 0 <= k < w2.len() implies 0 < #[trigger] w2[k].len()
            <= batch_size by {
            assert(w2[k].len() == batch_size);
        }
    }
    waves
}

/// The crawl of one listing, wave by wave. The next wave is handed out only
/// after the results of the current one have been collected whole, which is
/// the batch barrier: at most one wave is ever in flight, and collected
/// links keep page order, then in-page document order.
pub struct BatchCrawl {
    /// The planned waves of page numbers.
    pub waves: Vec<Vec<u32>>,
    /// Index of the first wave that has not resolved yet.
    pub next_wave: usize,
    /// Links collected from the resolved waves, in order.
    pub links: Vec<String>,
}

impl BatchCrawl {
    /// The scheduler is between waves and its waves are well-formed.
    pub open spec fn wf(self, batch_size: u32) -> bool {
        &&& self.next_wave <= self.waves@.len()
        &&& well_batched(self.waves.deep_view(), batch_size)
    }

    /// Plans the crawl of `page_count` pages in waves of `batch_size`.
    pub fn new(page_count: u32, batch_size: u32) -> (r: BatchCrawl)
        requires
            batch_size >= 1,
        ensures
            r.wf(batch_size),
            concat_all(r.waves.deep_view()) == page_seq(page_count),
            r.next_wave == 0,
            r.links@.len() == 0,
    {
        BatchCrawl { waves: plan_batches(page_count, batch_size), next_wave: 0, links: Vec::new() }
    }

    /// The pages of the wave now in flight, or nothing when the crawl is
    /// done.
    pub fn current_wave(&self) -> (r: Option<Vec<u32>>)
        ensures
            match r {
                Some(pages) => self.next_wave < self.waves@.len() && pages@ == self.waves@[
                    self.next_wave as int
                ]@,
                None => self.next_wave >= self.waves@.len(),
            },
    {
        if self.next_wave >= self.waves.len() {
            return None;
        }
        let src = &self.waves[self.next_wave];
        let n = src.len();
        let mut pages: Vec<u32> = Vec::new();
        let mut i: usize = 0;
        while i < n
            invariant
                n == src@.len(),
                i <= n,
                pages@ == src@.subrange(0, i as int),
            decreases n - i,
        {
            pages.push(src[i]);
            assert(pages@ =~= src@.subrange(0, i + 1 as int));
            i = i + 1;
        }
        assert(pages@ =~= src@);
        Some(pages)
    }

    /// Collects the results of the wave in flight, one result list per page
    /// of the wave in wave order, and only then unlocks the next wave. A
    /// failed page simply contributes an empty list.
    pub fn wave_done(&mut self, results: &Vec<Vec<String>>)
        requires
            old(self).next_wave < old(self).waves@.len(),
            results@.len() == old(self).waves@[old(self).next_wave as int]@.len(),
        ensures
            final(self).waves == old(self).waves,
            final(self).next_wave == old(self).next_wave + 1,
            final(self).links.deep_view() == old(self).links.deep_view() + concat_all(
                results.deep_view(),
            ),
    {
        let n = results.len();
        let mut i: usize = 0;
        proof {
            assert(results.deep_view().subrange(0, 0) =~= Seq::<Seq<Seq<char>>>::empty());
            assert(concat_all(results.deep_view().subrange(0, 0)) =~= Seq::<Seq<char>>::empty());
            assert(self.links.deep_view() + concat_all(results.deep_view().subrange(0, 0))
                =~= self.links.deep_view());
        }
        while i < n
            invariant
                n == results@.len(),
                results.deep_view().len() == n,
                i <= n,
                self.waves == old(self).waves,
                self.next_wave == old(self).next_wave,
                self.links.deep_view() == old(self).links.deep_view() + concat_all(
                    results.deep_view().subrange(0, i as int),
                ),
            decreases n - i,
        {
            let page_links = &results[i];
            let m = page_links.len();
            let mut j: usize = 0;
            while j < m
                invariant
                    m == page_links@.len(),
                    j <= m,
                    page_links@ == results@[i as int]@,
                    self.links.deep_view() == old(self).links.deep_view() + concat_all(
                        results.deep_view().subrange(0, i as int),
                    ) + results.deep_view()[i as int].subrange(0, j as int),
                    i < n,
                    n == results@.len(),
                    results.deep_view().len() == n,
                    self.waves == old(self).waves,
                    self.next_wave == old(self).next_wave,
                decreases m - j,
            {
                let ghost links0 = self.links.deep_view();
                let link = page_links[j].clone();
                self.links.push(link);
                proof {
                    assert(self.links.deep_view() =~= links0 + seq![results.deep_view()[
                        i as int][j as int]]);
                    assert(results.deep_view()[i as int].subrange(0, j + 1) =~= results.deep_view()[
                        i as int].subrange(0, j as int) + seq![results.deep_view()[i as int][
                        j as int]]);
                }
                j = j + 1;
            }
            proof {
                let rs = results.deep_view();
                assert(rs.subrange(0, i + 1).drop_last() =~= rs.subrange(0, i as int));
                assert(rs.subrange(0, i + 1).last() == rs[i as int]);
                assert(rs[i as int].subrange(0, rs[i as int].len() as int) =~= rs[i as int]);
                assert(self.links.deep_view() =~= old(self).links.deep_view() + concat_all(
                    rs.subrange(0, i + 1),
                ));
            }
            i = i + 1;
        }
        proof {
            assert(results.deep_view().subrange(0, n as int) =~= results.deep_view());
        }
        let total = self.waves.len();
        self.next_wave = self.next_wave + 1;
    }
}

/// Crawl health counters: how many pages yielded links, how many were
/// skipped, and how many challenge pages were observed. Each count sticks
/// at its ceiling instead of wrapping.
pub struct CrawlStats {
    pub pages_ok: u64,
    pub pages_failed: u64,
    pub challenges_seen: u64,
}

impl CrawlStats {
    /// Fresh counters.
    pub fn new() -> (r: CrawlStats)
        ensures
            r.pages_ok == 0,
            r.pages_failed == 0,
            r.challenges_seen == 0,
    {
        CrawlStats { pages_ok: 0, pages_failed: 0, challenges_seen: 0 }
    }

    /// Records one page that yielded its links.
    pub fn record_page_ok(&mut self)
        ensures
            final(self).pages_ok == if old(self).pages_ok < u64::MAX {
                old(self).pages_ok + 1
            } else {
                old(self).pages_ok as int
            },
            final(self).pages_failed == old(self).pages_failed,
            final(self).challenges_seen == old(self).challenges_seen,
    {
        if self.pages_ok < u64::MAX {
            self.pages_ok = self.pages_ok + 1;
        }
    }

    /// Records one page that was skipped.
    pub fn record_page_failed(&mut self)
        ensures
            final(self).pages_failed == if old(self).pages_failed < u64::MAX {
                old(self).pages_failed + 1
            } else {
                old(self).pages_failed as int
            },
            final(self).pages_ok == old(self).pages_ok,
            final(self).challenges_seen == old(self).challenges_seen,
    {
        if self.pages_failed < u64::MAX {
            self.pages_failed = self.pages_failed + 1;
        }
    }

    /// Records one observed challenge page.
    pub fn record_challenge(&mut self)
        ensures
            final(self).challenges_seen == if old(self).challenges_seen < u64::MAX {
                old(self).challenges_seen + 1
            } else {
                old(self).challenges_seen as int
            },
            final(self).pages_ok == old(self).pages_ok,
            final(self).pages_failed == old(self).pages_failed,
    {
        if self.challenges_seen < u64::MAX {
            self.challenges_seen = self.challenges_seen + 1;
        }
    }
}

} // verus!
