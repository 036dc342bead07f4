//! Exact means of throughput readings.
//!
//! Throughput is counted in hundredths of a megabit per second, so a reading of
//! `123.45` Mbps is the integer `12345`. A mean is kept as the total of the
//! readings together with their number, which makes every comparison exact.

use vstd::prelude::*;

verus! {

/// The arithmetic mean of `samples` readings whose total is `total` hundredths
/// of a megabit per second.
#[derive(Debug, Clone, Copy, PartialEq, Eq)]
pub struct Mean {
    total: u128,
    samples: usize,
}

impl Mean {
    /// A mean is taken of at least one reading.
    #[verifier::type_invariant]
    pub closed spec fn wf(self) -> bool {
        self.samples > 0
    }

    /// The total of the readings.
    pub closed spec fn spec_total(self) -> nat {
        self.total as nat
    }

    /// The number of readings, never zero.
    pub closed spec fn spec_samples(self) -> nat {
        self.samples as nat
    }

    /// The mean of `samples` readings that add up to `total`.
    pub closed spec fn spec_new(total: nat, samples: nat) -> Mean {
        Mean { total: total as u128, samples: samples as usize }
    }

    /// What a mean is made of is what can be read off it.
    pub proof fn lemma_spec_new(total: nat, samples: nat)
        requires
            total <= u128::MAX,
            0 < samples <= usize::MAX,
        ensures
            Mean::spec_new(total, samples).wf(),
            Mean::spec_new(total, samples).spec_total() == total,
            Mean::spec_new(total, samples).spec_samples() == samples,
    {
    }

    /// The mean of `samples` readings that add up to `total`; `None` when there
    /// is no reading to take a mean of.
    pub fn new(total: u128, samples: usize) -> (mean: Option<Mean>)
        ensures
            mean == if samples == 0 {
                None
            } else {
                Some(Mean::spec_new(total as nat, samples as nat))
            },
            mean matches Some(m) ==> m.wf() && m.spec_total() == total && m.spec_samples()
                == samples,
    {
        if samples == 0 {
            None
        } else {
            Some(Mean { total, samples })
        }
    }

    /// The total of the readings.
    pub fn total(&self) -> (total: u128)
        ensures
            total == self.spec_total(),
    {
        self.total
    }

    /// The number of readings.
    pub fn samples(&self) -> (samples: usize)
        ensures
            samples == self.spec_samples(),
            samples > 0,
    {
        proof {
            use_type_invariant(self);
        }
        self.samples
    }
}

/// Whether the mean `total / samples` lies strictly under `expected` lowered by
/// `threshold` percent, stated without division:
/// `total / samples < expected * (1 - threshold / 100)`.
pub open spec fn mean_is_below(total: nat, samples: nat, expected: nat, threshold: nat) -> bool {
    total * 100 < expected * (100 - threshold) * samples
}

/// Comparing `100 * s` with `q * n` comes down to comparing the quotient of
/// `100 * s` by `n`, taken in two steps that stay small, with `q`.
proof fn lemma_scaled_quotient(s: int, n: int, q: int)
    requires
        s >= 0,
        n > 0,
    ensures
        s * 100 < q * n <==> 100 * (s / n) + (100 * (s % n)) / n < q,
{
    let m = s / n;
    let r = s % n;
    let k = (100 * r) / n;
    let j = (100 * r) % n;
    assert(s == n * m + r && 0 <= r < n) by (nonlinear_arith)
        requires
            n > 0,
            m == s / n,
            r == s % n,
    ;
    assert(100 * r == n * k + j && 0 <= j < n) by (nonlinear_arith)
        requires
            n > 0,
            k == (100 * r) / n,
            j == (100 * r) % n,
    ;
    assert(s * 100 == n * (100 * m + k) + j) by (nonlinear_arith)
        requires
            s == n * m + r,
            100 * r == n * k + j,
    ;
    assert(n * (100 * m + k) + j < q * n <==> 100 * m + k < q) by (nonlinear_arith)
        requires
            n > 0,
            0 <= j < n,
    ;
}

impl Mean {
    /// Whether this mean lies strictly under `expected` lowered by `threshold`
    /// percent.
    pub open spec fn spec_is_below(self, expected: u64, threshold: u8) -> bool {
        mean_is_below(self.spec_total(), self.spec_samples(), expected as nat, threshold as nat)
    }

    /// Tests `self < expected * (1 - threshold / 100)` exactly. A mean equal to
    /// the bound is not below it, and from a threshold of 100 percent on no
    /// mean is.
    pub fn is_below(&self, expected: u64, threshold: u8) -> (below: bool)
        ensures
            below == self.spec_is_below(expected, threshold),
    {
        proof {
            use_type_invariant(self);
        }
        if threshold >= 100 {
            assert(expected * (100 - threshold) * self.samples <= 0) by (nonlinear_arith)
                requires
                    expected >= 0,
                    self.samples >= 0,
                    threshold >= 100,
            ;
            return false;
        }
        let quotient: u128 = self.total / (self.samples as u128);
        let rest: u128 = self.total % (self.samples as u128);
        assert(expected * (100 - threshold) <= u64::MAX * 100) by (nonlinear_arith)
            requires
                0 <= expected <= u64::MAX,
                0 <= threshold < 100,
        ;
        let bound: u128 = (expected as u128) * ((100 - threshold) as u128);
        proof {
            assert((100 * rest) / (self.samples as int) >= 0) by (nonlinear_arith)
                requires
                    rest >= 0,
                    self.samples > 0,
            ;
            lemma_scaled_quotient(self.total as int, self.samples as int, bound as int);
            assert(expected * (100 - threshold) * self.samples == bound * self.samples)
                by (nonlinear_arith)
                requires
                    bound == expected * (100 - threshold),
            ;
        }
        if quotient > u64::MAX as u128 {
            return false;
        }
        100 * quotient + (100 * rest) / (self.samples as u128) < bound
    }
}

/// The quotient `total / samples` rounded to the nearest whole number, a half
/// rounding up.
pub open spec fn rounded_quotient(total: nat, samples: nat) -> nat {
    (2 * total + samples) / (2 * samples)
}

/// Rounding the quotient comes down to the whole quotient and a look at the
/// rest.
proof fn lemma_rounded_quotient(total: int, samples: int)
    requires
        total >= 0,
        samples > 0,
    ensures
        (2 * total + samples) / (2 * samples) == total / samples + if 2 * (total % samples)
            >= samples {
            1int
        } else {
            0int
        },
{
    let q = total / samples;
    let r = total % samples;
    assert(total == samples * q + r && 0 <= r < samples) by (nonlinear_arith)
        requires
            samples > 0,
            q == total / samples,
            r == total % samples,
    ;
    if 2 * r >= samples {
        assert((2 * total + samples) / (2 * samples) == q + 1) by (nonlinear_arith)
            requires
                total == samples * q + r,
                samples > 0,
                samples <= 2 * r < 2 * samples,
        ;
    } else {
        assert((2 * total + samples) / (2 * samples) == q) by (nonlinear_arith)
            requires
                total == samples * q + r,
                samples > 0,
                0 <= 2 * r < samples,
        ;
    }
}

impl Mean {
    /// This mean to the nearest hundredth, a half rounding up.
    pub open spec fn spec_rounded(self) -> nat {
        rounded_quotient(self.spec_total(), self.spec_samples())
    }

    /// The mean of the single reading `value`.
    pub fn of(value: u64) -> (mean: Mean)
        ensures
            mean == Mean::spec_new(value as nat, 1),
            mean.wf(),
            mean.spec_total() == value,
            mean.spec_samples() == 1,
    {
        Mean { total: value as u128, samples: 1 }
    }

    /// This mean to the nearest hundredth of a megabit per second, a half
    /// rounding up.
    pub fn rounded(&self) -> (hundredths: u128)
        ensures
            hundredths == self.spec_rounded(),
    {
        proof {
            use_type_invariant(self);
            lemma_rounded_quotient(self.total as int, self.samples as int);
        }
        let quotient: u128 = self.total / (self.samples as u128);
        let rest: u128 = self.total % (self.samples as u128);
        assert(self.total == self.samples * quotient + rest) by (nonlinear_arith)
            requires
                self.samples > 0,
                quotient == self.total as int / self.samples as int,
                rest == self.total as int % self.samples as int,
        ;
        if 2 * rest >= self.samples as u128 {
            assert(quotient < u128::MAX) by (nonlinear_arith)
                requires
                    self.total == self.samples * quotient + rest,
                    self.samples >= 1,
                    rest >= 1,
                    self.total <= u128::MAX,
            ;
            quotient + 1
        } else {
            quotient
        }
    }
}

} // verus!
