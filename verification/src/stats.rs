//! The samples of a session and what is reported of them: the sample with the
//! least delay, and the jitter of the offsets around it.

use crate::time::Duration;
use vstd::arithmetic::div_mod::{lemma_fundamental_div_mod, lemma_mod_bound};
use vstd::prelude::*;
use vstd::seq_lib::{to_multiset_contains, to_multiset_len, to_multiset_remove};

verus! {

/// `i` is the place of the first sample among those with the least delay.
pub open spec fn is_best(samples: Seq<(int, int)>, i: int) -> bool {
    &&& 0 <= i < samples.len()
    &&& forall|j: int| 0 <= j < samples.len() ==> samples[i].1 <= (#[trigger] samples[j]).1
    &&& forall|j: int| 0 <= j < i ==> samples[i].1 < (#[trigger] samples[j]).1
}

/// The place of the sample that is selected: the first among those with the
/// least delay. Zero for no samples.
pub open spec fn best_index(samples: Seq<(int, int)>) -> int
    decreases samples.len(),
{
    if samples.len() <= 1 {
        0
    } else {
        let before = best_index(samples.drop_last());
        if samples.last().1 < samples[before].1 {
            samples.len() - 1
        } else {
            before
        }
    }
}

/// The offset that is reported, in nanoseconds: that of the selected sample,
/// and zero for no samples.
pub open spec fn min_offset_nanos(samples: Seq<(int, int)>) -> int {
    if samples.len() == 0 {
        0
    } else {
        samples[best_index(samples)].0
    }
}

/// The delay that is reported, in nanoseconds: that of the selected sample,
/// and zero for no samples.
pub open spec fn min_delay_nanos(samples: Seq<(int, int)>) -> int {
    if samples.len() == 0 {
        0
    } else {
        samples[best_index(samples)].1
    }
}

/// The sum, over all samples, of the square of the distance in nanoseconds
/// between the sample's offset and `center`.
pub open spec fn squared_deviations(samples: Seq<(int, int)>, center: int) -> int
    decreases samples.len(),
{
    if samples.len() == 0 {
        0
    } else {
        squared_deviations(samples.drop_last(), center) + (samples.last().0 - center) * (
        samples.last().0 - center)
    }
}

/// The sum of squares under the root of the jitter: the squared distances of
/// all offsets from the offset that is reported.
pub open spec fn jitter_sum(samples: Seq<(int, int)>) -> int {
    squared_deviations(samples, min_offset_nanos(samples))
}

/// `j` is the root of `sum / count` rounded up to a whole number: the least
/// whole number whose square, taken `count` times, is no less than `sum`.
pub open spec fn is_ceiling_root_of_mean(sum: int, count: int, j: int) -> bool {
    &&& 0 <= j
    &&& sum <= j * j * count
    &&& j > 0 ==> (j - 1) * (j - 1) * count < sum
}

/// The distance of every offset from the offset that is reported fits in 64
/// bits of nanoseconds.
pub open spec fn deviations_fit(samples: Seq<(int, int)>) -> bool {
    forall|i: int|
        0 <= i < samples.len() ==> i64::MIN <= (#[trigger] samples[i]).0 - min_offset_nanos(
            samples,
        ) <= i64::MAX
}

/// `j` is the jitter of the samples in nanoseconds, rounded up to a whole
/// number: zero for no samples and for one, and else the root of the mean of
/// the squared distances, the mean taken over one less than the number of
/// samples.
pub open spec fn is_jitter(samples: Seq<(int, int)>, j: int) -> bool {
    if samples.len() <= 1 {
        j == 0
    } else {
        is_ceiling_root_of_mean(jitter_sum(samples), samples.len() - 1, j)
    }
}

/// All samples have one offset.
pub open spec fn offsets_agree(samples: Seq<(int, int)>) -> bool {
    forall|i: int, j: int|
        0 <= i < samples.len() && 0 <= j < samples.len() ==> (#[trigger] samples[i]).0 == (
        #[trigger] samples[j]).0
}

/// One sample alone has the least delay.
pub open spec fn has_unique_least_delay(samples: Seq<(int, int)>) -> bool {
    forall|j: int|
        0 <= j < samples.len() && j != best_index(samples) ==> samples[best_index(samples)].1 < (
        #[trigger] samples[j]).1
}

/// The selected sample has the least delay, and is the first that has it.
pub proof fn lemma_best_index(samples: Seq<(int, int)>)
    requires
        samples.len() > 0,
    ensures
        is_best(samples, best_index(samples)),
    decreases samples.len(),
{
    if samples.len() > 1 {
        let front = samples.drop_last();
        lemma_best_index(front);
        let before = best_index(front);
        let best = best_index(samples);
        assert(front[before] == samples[before]);
        assert forall|j: int| 0 <= j < samples.len() implies samples[best].1 <= (
        #[trigger] samples[j]).1 by {
            if j < front.len() {
                assert(front[j] == samples[j]);
            }
        }
        assert forall|j: int| 0 <= j < best implies samples[best].1 < (#[trigger] samples[j]).1 by {
            assert(front[j] == samples[j]);
        }
    }
}

/// No other place is that of the first sample with the least delay.
pub proof fn lemma_best_is_unique(samples: Seq<(int, int)>, i: int, j: int)
    requires
        is_best(samples, i),
        is_best(samples, j),
    ensures
        i == j,
{
    if i < j {
        assert(samples[j].1 < samples[i].1);
    } else if j < i {
        assert(samples[i].1 < samples[j].1);
    }
}

/// A sum of squares is not negative, and does not shrink as samples are added.
pub proof fn lemma_squared_deviations_grow(
    samples: Seq<(int, int)>,
    center: int,
    k: int,
)
    requires
        0 <= k <= samples.len(),
    ensures
        0 <= squared_deviations(samples.take(k), center) <= squared_deviations(samples, center),
    decreases samples.len(),
{
    let d = if samples.len() > 0 {
        samples.last().0 - center
    } else {
        0
    };
    assert(d * d >= 0) by (nonlinear_arith);
    if k == samples.len() {
        assert(samples.take(k) =~= samples);
        if samples.len() > 0 {
            lemma_squared_deviations_grow(samples.drop_last(), center, k - 1);
            assert(samples.drop_last().take(k - 1) =~= samples.take(k - 1));
        }
    } else {
        lemma_squared_deviations_grow(samples.drop_last(), center, k);
        assert(samples.drop_last().take(k) =~= samples.take(k));
    }
}

/// Where all offsets agree, every offset is the reported one and the sum of
/// squares is zero.
pub proof fn lemma_agreeing_offsets_sum_to_zero(samples: Seq<(int, int)>, center: int)
    requires
        forall|i: int| 0 <= i < samples.len() ==> (#[trigger] samples[i]).0 == center,
    ensures
        squared_deviations(samples, center) == 0,
    decreases samples.len(),
{
    if samples.len() > 0 {
        let front = samples.drop_last();
        assert forall|i: int| 0 <= i < front.len() implies (#[trigger] front[i]).0 == center by {
            assert(front[i] == samples[i]);
        }
        lemma_agreeing_offsets_sum_to_zero(front, center);
        let d = samples[samples.len() - 1].0 - center;
        assert(d * d == 0) by (nonlinear_arith)
            requires
                d == 0,
        ;
    }
}

/// Where all offsets agree, the sum of squares under the root of the jitter is
/// zero, whatever the delays are.
pub proof fn lemma_agreeing_offsets_have_no_jitter(samples: Seq<(int, int)>)
    requires
        offsets_agree(samples),
    ensures
        jitter_sum(samples) == 0,
{
    if samples.len() > 0 {
        lemma_best_index(samples);
        let center = min_offset_nanos(samples);
        assert forall|k: int| 0 <= k < samples.len() implies (#[trigger] samples[k]).0
            == center by {
            assert(samples[k].0 == samples[best_index(samples)].0);
        }
        lemma_agreeing_offsets_sum_to_zero(samples, center);
    }
}

/// Where the sum of squares is zero, every offset is at the center.
pub proof fn lemma_zero_sum_means_agreement(samples: Seq<(int, int)>, center: int)
    requires
        squared_deviations(samples, center) == 0,
    ensures
        forall|i: int| 0 <= i < samples.len() ==> (#[trigger] samples[i]).0 == center,
    decreases samples.len(),
{
    if samples.len() > 0 {
        let front = samples.drop_last();
        let d = samples.last().0 - center;
        lemma_squared_deviations_grow(front, center, front.len() as int);
        assert(front.take(front.len() as int) =~= front);
        assert(d * d >= 0 && (d * d == 0 ==> d == 0)) by (nonlinear_arith);
        lemma_zero_sum_means_agreement(front, center);
        assert forall|i: int| 0 <= i < samples.len() implies (#[trigger] samples[i]).0
            == center by {
            if i < front.len() {
                assert(front[i] == samples[i]);
            }
        }
    }
}

/// The jitter is zero exactly where all offsets agree: the sum of squares
/// under its root is zero where every sample has the offset that is
/// reported, and nowhere else.
pub proof fn lemma_no_jitter_is_agreement(samples: Seq<(int, int)>)
    ensures
        jitter_sum(samples) == 0 <==> offsets_agree(samples),
        jitter_sum(samples) >= 0,
        jitter_sum(samples) == 0 ==> deviations_fit(samples),
{
    lemma_squared_deviations_grow(samples, min_offset_nanos(samples), samples.len() as int);
    if offsets_agree(samples) {
        lemma_agreeing_offsets_have_no_jitter(samples);
    }
    if jitter_sum(samples) == 0 {
        lemma_zero_sum_means_agreement(samples, min_offset_nanos(samples));
    }
}

/// Taking one sample out takes its square out of the sum.
proof fn lemma_squared_deviations_remove(samples: Seq<(int, int)>, center: int, i: int)
    requires
        0 <= i < samples.len(),
    ensures
        squared_deviations(samples, center) == squared_deviations(samples.remove(i), center) + (
        samples[i].0 - center) * (samples[i].0 - center),
    decreases samples.len(),
{
    if i == samples.len() - 1 {
        assert(samples.remove(i) =~= samples.drop_last());
    } else {
        let front = samples.drop_last();
        lemma_squared_deviations_remove(front, center, i);
        assert(front.remove(i) =~= samples.remove(i).drop_last());
        assert(samples.remove(i).last() == samples.last());
        assert(front[i] == samples[i]);
    }
}

/// The sum of squares around a center is that of the same samples in any
/// other order.
pub proof fn lemma_squared_deviations_of_reordered(
    a: Seq<(int, int)>,
    b: Seq<(int, int)>,
    center: int,
)
    requires
        a.to_multiset() == b.to_multiset(),
    ensures
        a.len() == b.len(),
        squared_deviations(a, center) == squared_deviations(b, center),
    decreases a.len(),
{
    to_multiset_len(a);
    to_multiset_len(b);
    if a.len() > 0 {
        let x = a.last();
        assert(a[a.len() - 1] == x);
        to_multiset_contains(a, x);
        to_multiset_contains(b, x);
        let i = choose|i: int| 0 <= i < b.len() && b[i] == x;
        to_multiset_remove(a, a.len() - 1);
        to_multiset_remove(b, i);
        assert(a.remove(a.len() - 1) =~= a.drop_last());
        lemma_squared_deviations_of_reordered(a.drop_last(), b.remove(i), center);
        lemma_squared_deviations_remove(b, center, i);
    }
}

/// What is reported of the samples does not go by their order, where one
/// sample alone has the least delay: the same samples in another order give
/// the same offset, the same delay and the same jitter.
pub proof fn lemma_order_does_not_matter(a: Seq<(int, int)>, b: Seq<(int, int)>)
    requires
        a.to_multiset() == b.to_multiset(),
        has_unique_least_delay(a),
    ensures
        a.len() == b.len(),
        min_offset_nanos(a) == min_offset_nanos(b),
        min_delay_nanos(a) == min_delay_nanos(b),
        jitter_sum(a) == jitter_sum(b),
        deviations_fit(a) <==> deviations_fit(b),
        forall|j: int| is_jitter(a, j) <==> is_jitter(b, j),
{
    to_multiset_len(a);
    to_multiset_len(b);
    if a.len() > 0 {
        lemma_best_index(a);
        lemma_best_index(b);
        let x = a[best_index(a)];
        let y = b[best_index(b)];
        to_multiset_contains(a, x);
        to_multiset_contains(b, x);
        to_multiset_contains(a, y);
        to_multiset_contains(b, y);
        let i = choose|i: int| 0 <= i < a.len() && a[i] == y;
        let k = choose|k: int| 0 <= k < b.len() && b[k] == x;
        assert(x.1 <= a[i].1);
        assert(y.1 <= b[k].1);
        assert(i == best_index(a));
        let center = min_offset_nanos(a);
        lemma_squared_deviations_of_reordered(a, b, center);
        assert forall|m: int| 0 <= m < b.len() && deviations_fit(a) implies i64::MIN <= (
        #[trigger] b[m]).0 - center <= i64::MAX by {
            to_multiset_contains(a, b[m]);
            to_multiset_contains(b, b[m]);
            let n = choose|n: int| 0 <= n < a.len() && a[n] == b[m];
            assert(i64::MIN <= a[n].0 - center <= i64::MAX);
        }
        assert forall|m: int| 0 <= m < a.len() && deviations_fit(b) implies i64::MIN <= (
        #[trigger] a[m]).0 - center <= i64::MAX by {
            to_multiset_contains(a, a[m]);
            to_multiset_contains(b, a[m]);
            let n = choose|n: int| 0 <= n < b.len() && b[n] == a[m];
            assert(i64::MIN <= b[n].0 - center <= i64::MAX);
        }
    }
}

/// Only one number is the root of `sum / count` rounded up.
pub proof fn lemma_ceiling_root_of_mean_is_unique(sum: int, count: int, j1: int, j2: int)
    requires
        count > 0,
        is_ceiling_root_of_mean(sum, count, j1),
        is_ceiling_root_of_mean(sum, count, j2),
    ensures
        j1 == j2,
{
    if j1 < j2 {
        lemma_scaled_square_grows(j1, j2 - 1, count);
    } else if j2 < j1 {
        lemma_scaled_square_grows(j2, j1 - 1, count);
    }
}

proof fn lemma_scaled_square_grows(a: int, b: int, count: int)
    requires
        0 <= a <= b,
        count >= 0,
    ensures
        a * a * count <= b * b * count,
{
    assert(a * a <= b * b) by (nonlinear_arith)
        requires
            0 <= a <= b,
    ;
    assert(a * a * count <= b * b * count) by (nonlinear_arith)
        requires
            a * a <= b * b,
            count >= 0,
    ;
}

/// The root of `sum / count` rounded up, from the quotient and the rest of
/// `sum` by `count` and the root of the quotient rounded up.
proof fn lemma_ceiling_root_of_mean(sum: int, count: int, quotient: int, rest: int, j: int)
    requires
        count > 0,
        sum == count * quotient + rest,
        0 <= rest < count,
        0 <= quotient,
        0 <= j,
        ({
            let mean = if rest > 0 {
                quotient + 1
            } else {
                quotient
            };
            mean <= j * j && (j > 0 ==> (j - 1) * (j - 1) < mean)
        }),
    ensures
        is_ceiling_root_of_mean(sum, count, j),
{
    let mean = if rest > 0 {
        quotient + 1
    } else {
        quotient
    };
    assert(count * (mean - 1) < sum <= count * mean) by (nonlinear_arith)
        requires
            sum == count * quotient + rest,
            0 <= rest < count,
            mean == if rest > 0 {
                quotient + 1
            } else {
                quotient
            },
    ;
    assert(count * mean <= j * j * count) by (nonlinear_arith)
        requires
            mean <= j * j,
            count > 0,
    ;
    if j > 0 {
        assert((j - 1) * (j - 1) * count <= count * (mean - 1)) by (nonlinear_arith)
            requires
                (j - 1) * (j - 1) <= mean - 1,
                count > 0,
        ;
    }
}

/// The whole part of the square root of `n`.
fn isqrt(n: u128) -> (root: u64)
    ensures
        root * root <= n < (root + 1) * (root + 1),
{
    let mut low: u128 = 0;
    let mut high: u128 = 0x1_0000_0000_0000_0000;
    assert(n < high * high) by (nonlinear_arith)
        requires
            high == 0x1_0000_0000_0000_0000,
            n <= u128::MAX,
    ;
    while high - low > 1
        invariant
            low < high <= 0x1_0000_0000_0000_0000,
            low * low <= n < high * high,
        decreases high - low,
    {
        let middle: u128 = low + (high - low) / 2;
        assert(middle * middle <= u128::MAX) by (nonlinear_arith)
            requires
                middle < 0x1_0000_0000_0000_0000,
        ;
        if middle * middle <= n {
            low = middle;
        } else {
            high = middle;
        }
    }
    low as u64
}

/// The samples of a session in the order in which they were gathered, each an
/// offset and a delay. Samples are added at the end and never changed.
///
/// The view is the sequence of the samples as pairs of nanoseconds, the
/// offset first.
#[derive(Debug)]
pub struct NTPResults {
    results: Vec<(Duration, Duration)>,
}

impl View for NTPResults {
    type V = Seq<(int, int)>;

    closed spec fn view(&self) -> Seq<(int, int)> {
        Seq::new(self.results@.len(), |i: int| (self.results@[i].0@, self.results@[i].1@))
    }
}

impl NTPResults {
    pub fn new() -> (results: NTPResults)
        ensures
            results@ == Seq::<(int, int)>::empty(),
    {
        let results = NTPResults { results: Vec::new() };
        assert(results@ =~= Seq::<(int, int)>::empty());
        results
    }

    /// Adds a sample after those that are there.
    pub fn push(&mut self, offset: Duration, delay: Duration)
        ensures
            final(self)@ == old(self)@.push((offset@, delay@)),
    {
        self.results.push((offset, delay));
        assert(self@ =~= old(self)@.push((offset@, delay@)));
    }

    pub fn len(&self) -> (len: usize)
        ensures
            len == self@.len(),
    {
        self.results.len()
    }

    /// The sample at place `i`, counted from zero in the order of arrival.
    pub fn get(&self, i: usize) -> (sample: Option<(Duration, Duration)>)
        ensures
            match sample {
                Some((offset, delay)) => i < self@.len() && self@[i as int] == (offset@, delay@),
                None => i >= self@.len(),
            },
    {
        if i < self.results.len() {
            Some(self.results[i])
        } else {
            None
        }
    }

    /// The place of the selected sample.
    fn best(&self) -> (best: usize)
        requires
            self@.len() > 0,
        ensures
            best == best_index(self@),
            best < self@.len(),
    {
        let mut best: usize = 0;
        let mut i: usize = 1;
        assert(self@.take(1).drop_last() =~= self@.take(0));
        while i < self.results.len()
            invariant
                1 <= i <= self.results.len(),
                self@.len() == self.results@.len(),
                best < i,
                best == best_index(self@.take(i as int)),
            decreases self.results.len() - i,
        {
            assert(self@.take(i + 1).drop_last() =~= self@.take(i as int));
            assert(self@.take(i + 1).last() == self@[i as int]);
            assert(self@.take(i + 1)[best as int] == self@[best as int]);
            if self.results[i].1.total_nanoseconds() < self.results[best].1.total_nanoseconds() {
                best = i;
            }
            i += 1;
        }
        assert(self@.take(i as int) =~= self@);
        best
    }

    /// Theta, the offset that is reported: that of the sample with the least
    /// delay, the first of them where several have it; zero for no samples.
    pub fn min_offset(&self) -> (theta: Duration)
        ensures
            theta@ == min_offset_nanos(self@),
            self@.len() > 0 ==> is_best(self@, best_index(self@)),
    {
        if self.results.len() == 0 {
            Duration::zero()
        } else {
            proof {
                lemma_best_index(self@);
            }
            self.results[self.best()].0
        }
    }

    /// Delta, the delay that is reported: the least delay of all samples; zero
    /// for no samples.
    pub fn min_delay(&self) -> (delta: Duration)
        ensures
            delta@ == min_delay_nanos(self@),
            self@.len() > 0 ==> is_best(self@, best_index(self@)),
    {
        if self.results.len() == 0 {
            Duration::zero()
        } else {
            proof {
                lemma_best_index(self@);
            }
            self.results[self.best()].1
        }
    }

    /// Psi, the jitter of the offsets, in whole nanoseconds: the root of the
    /// mean of the squared distances of all offsets from the offset that is
    /// reported, the mean taken over one less than the number of samples, and
    /// the root rounded up. So the jitter is zero where all offsets agree and
    /// nowhere else.
    ///
    /// Zero for no samples and for one. `None` where an offset lies further
    /// from the reported one than 64 bits of nanoseconds hold.
    pub fn jitter(&self) -> (psi: Option<u64>)
        ensures
            psi is Some <==> deviations_fit(self@),
            psi matches Some(j) ==> is_jitter(self@, j as int),
            psi == Some(0u64) <==> jitter_sum(self@) == 0,
            offsets_agree(self@) ==> psi == Some(0u64),
    {
        let count = self.results.len();
        proof {
            lemma_no_jitter_is_agreement(self@);
        }
        if count <= 1 {
            proof {
                if count == 1 {
                    assert(self@[0].0 == min_offset_nanos(self@));
                    reveal_with_fuel(squared_deviations, 2);
                    assert(self@.drop_last().len() == 0);
                }
            }
            return Some(0);
        }
        let center: i128 = self.min_offset().total_nanoseconds();
        let divisor: u128 = (count - 1) as u128;
        let mut quotient: u128 = 0;
        let mut rest: u128 = 0;
        let mut i: usize = 0;
        while i < count
            invariant
                i <= count,
                count == self.results.len(),
                count == self@.len(),
                count >= 2,
                divisor == count - 1,
                center == min_offset_nanos(self@),
                -crate::time::span_limit() <= center < crate::time::span_limit(),
                forall|m: int|
                    0 <= m < i ==> i64::MIN <= (#[trigger] self@[m]).0 - center <= i64::MAX,
                squared_deviations(self@.take(i as int), center as int) == divisor * quotient
                    + rest,
                squared_deviations(self@.take(i as int), center as int) <= i
                    * 0x4000_0000_0000_0000_0000_0000_0000_0000,
                rest < divisor,
            decreases count - i,
        {
            let deviation: i128 = self.results[i].0.total_nanoseconds() - center;
            if deviation < i64::MIN as i128 || deviation > i64::MAX as i128 {
                proof {
                    lemma_no_jitter_is_agreement(self@);
                    assert(!(i64::MIN <= self@[i as int].0 - min_offset_nanos(self@) <= i64::MAX));
                }
                return None;
            }
            let magnitude: u128 = if deviation < 0 {
                (-deviation) as u128
            } else {
                deviation as u128
            };
            proof {
                assert(self@.take(i + 1).drop_last() =~= self@.take(i as int));
                assert(self@.take(i + 1).last() == self@[i as int]);
                assert(magnitude * magnitude == deviation * deviation && magnitude * magnitude
                    <= 0x4000_0000_0000_0000_0000_0000_0000_0000) by (nonlinear_arith)
                    requires
                        magnitude == deviation || magnitude == -deviation,
                        0 <= magnitude <= 0x8000_0000_0000_0000,
                ;
                assert(quotient <= 0x8000_0000_0000_0000_0000_0000_0000_0000)
                    by (nonlinear_arith)
                    requires
                        divisor * quotient <= i * 0x4000_0000_0000_0000_0000_0000_0000_0000,
                        i <= divisor,
                        divisor >= 1,
                ;
            }
            let square: u128 = magnitude * magnitude;
            let whole: u128 = square / divisor;
            let part: u128 = square % divisor;
            proof {
                lemma_fundamental_div_mod(square as int, divisor as int);
                lemma_mod_bound(square as int, divisor as int);
                assert(whole <= square) by (nonlinear_arith)
                    requires
                        square == divisor * whole + part,
                        divisor >= 1,
                        whole >= 0,
                        part >= 0,
                ;
            }
            let mut carried: u128 = rest + part;
            let mut carry: u128 = 0;
            if carried >= divisor {
                carried = carried - divisor;
                carry = 1;
            }
            proof {
                assert(divisor * (quotient + whole + carry) + carried == (divisor * quotient
                    + rest) + square) by (nonlinear_arith)
                    requires
                        square == divisor * whole + part,
                        carried + divisor * carry == rest + part,
                ;
            }
            quotient = quotient + whole + carry;
            rest = carried;
            i += 1;
        }
        assert(self@.take(i as int) =~= self@);
        let mean: u128 = if rest > 0 {
            proof {
                assert(quotient < 0x8000_0000_0000_0000_0000_0000_0000_0000) by (nonlinear_arith)
                    requires
                        divisor * quotient + rest <= (divisor + 1)
                            * 0x4000_0000_0000_0000_0000_0000_0000_0000,
                        rest > 0,
                        divisor >= 1,
                ;
            }
            quotient + 1
        } else {
            quotient
        };
        proof {
            assert(mean <= 0x8000_0000_0000_0000_0000_0000_0000_0000) by (nonlinear_arith)
                requires
                    divisor * quotient + rest <= (divisor + 1)
                        * 0x4000_0000_0000_0000_0000_0000_0000_0000,
                    mean == if rest > 0 {
                        quotient + 1
                    } else {
                        quotient as int
                    },
                    0 <= rest < divisor,
                    divisor >= 1,
            ;
        }
        let floor = isqrt(mean);
        proof {
            assert(floor < 0xffff_ffff_ffff_ffff) by (nonlinear_arith)
                requires
                    floor * floor <= 0x8000_0000_0000_0000_0000_0000_0000_0000,
                    0 <= floor,
            ;
        }
        let root: u64 = if floor as u128 * floor as u128 == mean {
            floor
        } else {
            floor + 1
        };
        proof {
            assert(mean <= root * root && (root > 0 ==> (root - 1) * (root - 1) < mean))
                by (nonlinear_arith)
                requires
                    floor * floor <= mean < (floor + 1) * (floor + 1),
                    root == if floor * floor == mean {
                        floor as int
                    } else {
                        floor + 1
                    },
                    0 <= floor,
            ;
            lemma_no_jitter_is_agreement(self@);
            lemma_ceiling_root_of_mean(
                jitter_sum(self@),
                divisor as int,
                quotient as int,
                rest as int,
                root as int,
            );
            assert(deviations_fit(self@));
        }
        Some(root)
    }
}

} // verus!
