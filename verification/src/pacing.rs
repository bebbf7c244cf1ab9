//! Randomized inter-request pacing: the delay before a fetch scales with the
//! square root of the estimated crawl size, so large crawls spread their
//! requests without waiting linearly longer.

use vstd::prelude::*;

verus! {

/// Relies on `rand::Rng::random_range` over the inclusive range `lo..=hi`:
/// the sampled value lies in the range, and the range is non-empty so the
/// call does not panic.
#[verifier::external_body]
pub(crate) fn rand_in_range(lo: u64, hi: u64) -> (r: u64)
    requires
        lo <= hi,
    ensures
        lo <= r <= hi,
{
    let mut rng = rand::rng();
    rand::Rng::random_range(&mut rng, lo..=hi)
}

/// Computes inter-request delays: a uniformly random duration between a fixed
/// floor and a ceiling that grows with the square root of the ratio between
/// the estimated crawl size and a reference size.
pub struct PacingPolicy {
    /// Fixed lower bound on every delay, in milliseconds.
    pub min_delay_ms: u64,
    /// Ceiling of the delay for a crawl of exactly `reference_count` items.
    pub base_max_ms: u64,
    /// Crawl size at which the ceiling equals `base_max_ms`.
    pub reference_count: u64,
}

impl PacingPolicy {
    /// Bounds under which the delay arithmetic stays inside `u64`.
    pub open spec fn wf(self) -> bool {
        &&& 1 <= self.reference_count
        &&& self.base_max_ms <= 1_000_000
        &&& self.min_delay_ms <= 86_400_000
    }

    /// Square of the delay ceiling above the floor: `base_max_ms^2 * n /
    /// reference_count`, so that the ceiling itself is the square root of
    /// this budget.
    pub open spec fn sqrt_budget(self, n: u64) -> int {
        (self.base_max_ms * self.base_max_ms * n) as int / self.reference_count as int
    }

    /// The stock pacing parameters: a one second floor, and a three minute
    /// ceiling at thirty items.
    pub fn standard() -> (p: PacingPolicy)
        ensures
            p.wf(),
            p.min_delay_ms == 1_000,
            p.base_max_ms == 180_000,
            p.reference_count == 30,
    {
        PacingPolicy { min_delay_ms: 1_000, base_max_ms: 180_000, reference_count: 30 }
    }

    /// A randomized delay for a crawl of `n` estimated items: at least the
    /// floor, and above the floor by at most the square root of the budget,
    /// i.e. at most `min_delay_ms + base_max_ms * sqrt(n / reference_count)`.
    pub fn delay_ms(&self, n: u64) -> (r: u64)
        requires
            self.wf(),
        ensures
            self.min_delay_ms <= r,
            (r - self.min_delay_ms) * (r - self.min_delay_ms) <= self.sqrt_budget(n),
    {
        let ghost b = self.base_max_ms as int;
        let ghost nn = n as int;
        let ghost rc = self.reference_count as int;
        proof {
            assert(0 <= b * b <= 1_000_000_000_000) by (nonlinear_arith)
                requires
                    0 <= b <= 1_000_000,
            ;
        }
        let squared_base: u128 = (self.base_max_ms as u128) * (self.base_max_ms as u128);
        proof {
            assert(0 <= b * b * nn <= 1_000_000_000_000 * 0xffff_ffff_ffff_ffff)
                by (nonlinear_arith)
                requires
                    0 <= b * b <= 1_000_000_000_000,
                    0 <= nn <= 0xffff_ffff_ffff_ffff,
            ;
        }
        let budget: u128 = squared_base * (n as u128) / (self.reference_count as u128);
        proof {
            vstd::arithmetic::div_mod::lemma_div_basics_5(b * b * nn, rc);
            assert(budget as int == b * b * nn / rc);
            assert(budget as int == self.sqrt_budget(n));
        }
        let ceiling_above_floor = isqrt(budget);
        proof {
            let c = ceiling_above_floor as int;
            assert(c * c <= budget as int);
            assert(c <= 4_300_000_000_000_000) by (nonlinear_arith)
                requires
                    0 <= c,
                    c * c <= budget as int,
                    budget as int <= 1_000_000 * 1_000_000 * 0xffff_ffff_ffff_ffff,
            ;
        }
        let hi: u64 = self.min_delay_ms + (ceiling_above_floor as u64);
        let r = rand_in_range(self.min_delay_ms, hi);
        proof {
            let d = r - self.min_delay_ms;
            let c = ceiling_above_floor as int;
            assert(d * d <= c * c) by (nonlinear_arith)
                requires
                    0 <= d,
                    d <= c,
            ;
        }
        r
    }

    /// The delay envelope never shrinks as the estimated crawl size grows:
    /// the square-root ceiling is monotone in `n`.
    pub proof fn lemma_envelope_monotone(self, n1: u64, n2: u64)
        requires
            self.wf(),
            n1 <= n2,
        ensures
            self.sqrt_budget(n1) <= self.sqrt_budget(n2),
    {
        let b = self.base_max_ms * self.base_max_ms;
        assert(b * n1 <= b * n2) by (nonlinear_arith)
            requires
                0 <= b,
                n1 <= n2,
        ;
        assert((b * n1) as int / self.reference_count as int
            <= (b * n2) as int / self.reference_count as int) by (nonlinear_arith)
            requires
                b * n1 <= b * n2,
                0 <= b * n1,
                1 <= self.reference_count,
        ;
    }
}

/// Integer square root: the greatest `s` with `s * s <= x`.
pub fn isqrt(x: u128) -> (s: u128)
    ensures
        s * s <= x,
        x < (s + 1) * (s + 1),
{
    let mut lo: u128 = 0;
    let mut hi: u128 = 0xffff_ffff_ffff_ffff;
    proof {
        assert((hi + 1) * (hi + 1) > x) by (nonlinear_arith)
            requires
                hi == 0xffff_ffff_ffff_ffffu128,
                x <= 0xffff_ffff_ffff_ffff_ffff_ffff_ffff_ffffu128,
        ;
    }
    while lo < hi
        invariant
            lo <= hi,
            hi <= 0xffff_ffff_ffff_ffff,
            lo * lo <= x,
            x < (hi + 1) * (hi + 1),
        decreases hi - lo,
    {
        let mid = lo + (hi - lo + 1) / 2;
        proof {
            assert(lo < mid <= hi);
            vstd::arithmetic::div_mod::lemma_fundamental_div_mod(x as int, mid as int);
            vstd::arithmetic::div_mod::lemma_mod_bound(x as int, mid as int);
        }
        if mid <= x / mid {
            proof {
                assert(mid * mid <= x) by (nonlinear_arith)
                    requires
                        0 < mid,
                        mid <= x / mid,
                        x as int == (mid as int) * ((x as int) / (mid as int)) + (x as int) % (
                        mid as int),
                        0 <= (x as int) % (mid as int),
                ;
            }
            lo = mid;
        } else {
            proof {
                assert(x < mid * mid) by (nonlinear_arith)
                    requires
                        0 < mid,
                        (x as int) / (mid as int) < mid,
                        x as int == (mid as int) * ((x as int) / (mid as int)) + (x as int) % (
                        mid as int),
                        (x as int) % (mid as int) < mid,
                ;
            }
            hi = mid - 1;
        }
    }
    lo
}

} // verus!
