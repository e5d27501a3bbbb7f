use vstd::prelude::*;
use vstd::arithmetic::div_mod::lemma_fundamental_div_mod;

verus! {

/// The largest number of bins a histogram may be created with.
pub const MAX_BINS: usize = 0x7fff_ffff;

/// An exact position on the value axis: `num / den`, with `den > 0`.
#[derive(Clone, Copy, Debug, PartialEq, Eq, Structural)]
pub struct Ratio {
    pub num: i128,
    pub den: i128,
}

/// What can go wrong when a histogram is reshaped.
#[derive(Clone, Copy, Debug, PartialEq, Eq, Structural)]
pub enum HistogramError {
    /// no bin holds a positive value, so nothing would be left after trimming
    NothingPositive,
}

/// The value stored when `x` does not fit an `i64`: the nearest bound.
pub open spec fn clamp(x: int) -> i64 {
    if x > i64::MAX {
        i64::MAX
    } else if x < i64::MIN {
        i64::MIN
    } else {
        x as i64
    }
}

/// The sum of all accumulators.
pub open spec fn total_of(s: Seq<i64>) -> int
    decreases s.len(),
{
    if s.len() == 0 {
        0
    } else {
        total_of(s.drop_last()) + s.last()
    }
}

/// `lb` and `hb` are the first and the last index of a positive value in `s`.
pub open spec fn positive_span(s: Seq<i64>, lb: int, hb: int) -> bool {
    &&& 0 <= lb <= hb < s.len()
    &&& s[lb] > 0
    &&& s[hb] > 0
    &&& forall|i: int| 0 <= i < lb ==> s[i] <= 0
    &&& forall|i: int| hb < i < s.len() ==> s[i] <= 0
}

/// `after` is `before` with `amount` added to the bin of `v`, or unchanged
/// when `v` lies outside.
pub open spec fn added(before: Histogram, after: Histogram, v: int, amount: int) -> bool {
    &&& after.wf()
    &&& after.same_grid(&before)
    &&& before.in_range(v) ==> after@ == before@.update(
        before.bin_of(v),
        clamp(before@[before.bin_of(v)] + amount),
    )
    &&& !before.in_range(v) ==> after@ == before@
}

/// `after` is `before` with the bins before `lb` and after `hb` removed.
pub open spec fn trimmed_at(before: Histogram, after: Histogram, lb: int, hb: int) -> bool {
    &&& positive_span(before@, lb, hb)
    &&& after@ == before@.subrange(lb, hb + 1)
    &&& after.origin() == before.origin()
    &&& after.width() == before.width()
    &&& after.scale() == before.scale()
    &&& after.first() == before.first() + lb
    &&& after.num_bins() == hb + 1 - lb
}

/// `after` is what trimming makes of `before`.
pub open spec fn trimmed(before: Histogram, after: Histogram) -> bool {
    exists|lb: int, hb: int| trimmed_at(before, after, lb, hb)
}

/// A fixed-resolution accumulator over an integer value axis.
///
/// The bins lie on a grid that is fixed when the histogram is created: the
/// range `(low, high)` split into `bins` equal parts. Every position on the
/// axis is a fraction with the grid's bin count (`scale`) as denominator, so
/// all bin borders are exact. Trimming keeps a contiguous part of that grid.
/// A value `v` is inside when `low < v < high` (both borders excluded), and
/// then belongs to bin `floor((v - low) * bins / (high - low))`.
#[derive(Clone, Debug)]
pub struct Histogram {
    /// lower border of the grid at creation
    origin: i128,
    /// width of the whole grid at creation, which is the width of one bin
    /// measured in units of `1 / scale`
    span: i128,
    /// number of bins of the grid at creation
    total: usize,
    /// grid index of the first bin that is kept
    first: usize,
    /// number of bins that are kept
    bins: usize,
    /// one accumulator per kept bin
    histogram: Vec<i64>,
}

impl View for Histogram {
    type V = Seq<i64>;

    closed spec fn view(&self) -> Seq<i64> {
        self.histogram@
    }
}

impl Histogram {
    /// Lower border of the grid as created.
    pub closed spec fn origin(&self) -> int {
        self.origin as int
    }

    /// Width of one bin, in units of `1 / scale()`.
    pub closed spec fn width(&self) -> int {
        self.span as int
    }

    /// Denominator of every position: the bin count at creation.
    pub closed spec fn scale(&self) -> int {
        self.total as int
    }

    /// Grid index of the first bin that is kept.
    pub closed spec fn first(&self) -> int {
        self.first as int
    }

    /// Number of bins.
    pub closed spec fn num_bins(&self) -> int {
        self.bins as int
    }

    /// The invariant: a positive width, a grid of at most `MAX_BINS` bins
    /// that holds the kept ones, and one accumulator per kept bin.
    pub open spec fn wf(&self) -> bool {
        &&& i64::MIN <= self.origin() <= i64::MAX
        &&& 0 < self.width() <= u64::MAX
        &&& 0 < self.scale() <= MAX_BINS
        &&& 0 < self.num_bins()
        &&& 0 <= self.first()
        &&& self.first() + self.num_bins() <= self.scale()
        &&& self@.len() == self.num_bins()
    }

    /// Numerator of the lower bound (over `scale()`).
    pub open spec fn lower(&self) -> int {
        self.origin() * self.scale() + self.first() * self.width()
    }

    /// Numerator of the upper bound (over `scale()`).
    pub open spec fn upper(&self) -> int {
        self.lower() + self.num_bins() * self.width()
    }

    /// Numerator of the left border of bin `k` (over `scale()`).
    pub open spec fn border(&self, k: int) -> int {
        self.lower() + k * self.width()
    }

    /// `v` lies strictly between the bounds.
    pub open spec fn in_range(&self, v: int) -> bool {
        self.lower() < v * self.scale() < self.upper()
    }

    /// The bin that holds `v`.
    pub open spec fn bin_of(&self, v: int) -> int {
        (v * self.scale() - self.lower()) / self.width()
    }

    /// Both histograms lie on the same grid and keep the same bins.
    pub open spec fn same_grid(&self, o: &Histogram) -> bool {
        &&& self.origin() == o.origin()
        &&& self.width() == o.width()
        &&& self.scale() == o.scale()
        &&& self.first() == o.first()
        &&& self.num_bins() == o.num_bins()
    }

    /// A histogram over `(low, high)` with `bins` bins, all zero.
    pub fn new(low: i64, high: i64, bins: usize) -> (r: Histogram)
        requires
            low < high,
            0 < bins <= MAX_BINS,
        ensures
            r.wf(),
            r@ == Seq::new(bins as nat, |i: int| 0i64),
            r.scale() == bins,
            r.width() == high - low,
            r.origin() == low,
            r.first() == 0,
            r.num_bins() == bins,
            r.lower() == low * bins,
            r.upper() == high * bins,
    {
        let mut histogram: Vec<i64> = Vec::new();
        while histogram.len() < bins
            invariant
                histogram.len() <= bins,
                forall|i: int| 0 <= i < histogram.len() ==> histogram@[i] == 0,
            decreases bins - histogram.len(),
        {
            histogram.push(0);
        }
        let r = Histogram {
            origin: low as i128,
            span: high as i128 - low as i128,
            total: bins,
            first: 0,
            bins,
            histogram,
        };
        assert(r@ =~= Seq::new(bins as nat, |i: int| 0i64));
        assert(r.upper() == high * bins) by (nonlinear_arith)
            requires
                r.upper() == low * bins + bins * (high - low),
        ;
        r
    }

    /// The bin of `value`, if it lies inside.
    fn locate(&self, value: i64) -> (r: Option<usize>)
        requires
            self.wf(),
        ensures
            r.is_some() == self.in_range(value as int),
            r.is_some() ==> r.unwrap() == self.bin_of(value as int) && r.unwrap() < self.num_bins(),
    {
        let ghost sc = self.scale();
        let ghost w = self.width();
        let d: i128 = value as i128 - self.origin;
        assert(-0x1_0000_0000_0000_0000 <= d <= 0x1_0000_0000_0000_0000);
        let total = self.total as i128;
        proof {
            assert(-0x1_0000_0000_0000_0000 * 0x1_0000_0000 <= d * total <= 0x1_0000_0000_0000_0000
                * 0x1_0000_0000) by (nonlinear_arith)
                requires
                    -0x1_0000_0000_0000_0000 <= d <= 0x1_0000_0000_0000_0000,
                    0 < total <= 0x1_0000_0000,
            ;
            assert(0 <= self.first * self.span <= 0x1_0000_0000 * 0x1_0000_0000_0000_0000)
                by (nonlinear_arith)
                requires
                    0 <= self.first <= 0x1_0000_0000,
                    0 < self.span <= 0x1_0000_0000_0000_0000,
            ;
            assert(0 <= self.bins * self.span <= 0x1_0000_0000 * 0x1_0000_0000_0000_0000)
                by (nonlinear_arith)
                requires
                    0 <= self.bins <= 0x1_0000_0000,
                    0 < self.span <= 0x1_0000_0000_0000_0000,
            ;
        }
        let s: i128 = d * total - (self.first as i128) * self.span;
        let n: i128 = (self.bins as i128) * self.span;
        assert(s == value * sc - self.lower()) by (nonlinear_arith)
            requires
                s == d * total - self.first * self.span,
                d == value - self.origin,
                total == sc,
                self.lower() == self.origin * sc + self.first * self.span,
        ;
        if 0 < s && s < n {
            let k = s / self.span;
            proof {
                lemma_fundamental_div_mod(s as int, w);
                let q = s as int / w;
                let m = s as int % w;
                assert(0 <= q < self.bins) by (nonlinear_arith)
                    requires
                        s == w * q + m,
                        0 <= m < w,
                        0 < s < self.bins * w,
                ;
            }
            Some(k as usize)
        } else {
            None
        }
    }

    /// Adds `amount` to the bin of `value`; values outside are ignored. A sum
    /// beyond the range of `i64` stays at the nearest bound.
    pub fn add(&mut self, value: i64, amount: i64)
        requires
            old(self).wf(),
        ensures
            added(*old(self), *final(self), value as int, amount as int),
    {
        match self.locate(value) {
            Some(i) => {
                let cur = self.histogram[i];
                let next: i64 = if amount > 0 && cur > i64::MAX - amount {
                    i64::MAX
                } else if amount < 0 && cur < i64::MIN - amount {
                    i64::MIN
                } else {
                    cur + amount
                };
                self.histogram.set(i, next);
            },
            None => {},
        }
    }

    /// Adds one to the bin of `value`; values outside are ignored.
    pub fn count(&mut self, value: i64)
        requires
            old(self).wf(),
        ensures
            added(*old(self), *final(self), value as int, 1),
    {
        self.add(value, 1);
    }

    /// The smallest accumulator.
    pub fn min(&self) -> (r: i64)
        requires
            self.wf(),
        ensures
            exists|i: int| 0 <= i < self@.len() && self@[i] == r,
            forall|i: int| 0 <= i < self@.len() ==> r <= self@[i],
    {
        let mut m = self.histogram[0];
        let mut i: usize = 1;
        while i < self.histogram.len()
            invariant
                self.wf(),
                1 <= i <= self@.len(),
                exists|j: int| 0 <= j < i && self@[j] == m,
                forall|j: int| 0 <= j < i ==> m <= self@[j],
            decreases self@.len() - i,
        {
            if self.histogram[i] < m {
                m = self.histogram[i];
            }
            i += 1;
        }
        m
    }

    /// The accumulator of the bin of `value`, or `None` when it lies outside.
    pub fn at(&self, value: i64) -> (r: Option<i64>)
        requires
            self.wf(),
        ensures
            r.is_some() == self.in_range(value as int),
            r.is_some() ==> 0 <= self.bin_of(value as int) < self@.len()
                && r.unwrap() == self@[self.bin_of(value as int)],
    {
        match self.locate(value) {
            Some(i) => Some(self.histogram[i]),
            None => None,
        }
    }

    /// The accumulator of bin `idx`.
    pub fn idx(&self, idx: usize) -> (r: i64)
        requires
            self.wf(),
            idx < self@.len(),
        ensures
            r == self@[idx as int],
    {
        self.histogram[idx]
    }

    /// Overwrites the accumulator of bin `idx`.
    pub fn set_idx(&mut self, idx: usize, value: i64)
        requires
            old(self).wf(),
            idx < old(self)@.len(),
        ensures
            final(self).wf(),
            final(self).same_grid(old(self)),
            final(self)@ == old(self)@.update(idx as int, value),
    {
        self.histogram.set(idx, value);
    }

    /// Sets every accumulator to zero.
    pub fn reset(&mut self)
        requires
            old(self).wf(),
        ensures
            final(self).wf(),
            final(self).same_grid(old(self)),
            final(self)@ == Seq::new(old(self)@.len(), |i: int| 0i64),
    {
        let mut i: usize = 0;
        while i < self.histogram.len()
            invariant
                self.wf(),
                self.same_grid(old(self)),
                0 <= i <= self@.len(),
                forall|j: int| 0 <= j < i ==> self@[j] == 0,
            decreases self@.len() - i,
        {
            self.histogram.set(i, 0);
            i += 1;
        }
        assert(self@ =~= Seq::new(old(self)@.len(), |i: int| 0i64));
    }

    /// Number of bins.
    pub fn bins(&self) -> (r: usize)
        requires
            self.wf(),
        ensures
            r == self.num_bins(),
    {
        self.bins
    }

    /// The sum of all accumulators.
    pub fn sum(&self) -> (r: i128)
        requires
            self.wf(),
        ensures
            r == total_of(self@),
    {
        let mut s: i128 = 0;
        let mut i: usize = 0;
        while i < self.histogram.len()
            invariant
                self.wf(),
                0 <= i <= self@.len(),
                s == total_of(self@.subrange(0, i as int)),
                -(i as int) * 0x8000_0000_0000_0000 <= s <= (i as int) * 0x8000_0000_0000_0000,
            decreases self@.len() - i,
        {
            proof {
                assert(self@.subrange(0, i + 1).drop_last() =~= self@.subrange(0, i as int));
            }
            s = s + self.histogram[i] as i128;
            i += 1;
        }
        assert(self@.subrange(0, self@.len() as int) =~= self@);
        s
    }

    /// The mean accumulator, exactly: the sum over the number of bins.
    pub fn mean(&self) -> (r: Ratio)
        requires
            self.wf(),
        ensures
            r.num == total_of(self@),
            r.den == self.num_bins(),
    {
        Ratio { num: self.sum(), den: self.bins as i128 }
    }

    /// Left border of bin `k`.
    fn left_border(&self, k: usize) -> (r: Ratio)
        requires
            self.wf(),
            k <= self.num_bins(),
        ensures
            r.num == self.border(k as int),
            r.den == self.scale(),
            -0x4_0000_0000_0000_0000_0000_0000 <= r.num <= 0x4_0000_0000_0000_0000_0000_0000,
    {
        proof {
            assert(-0x8000_0000_0000_0000 * 0x1_0000_0000 <= self.origin * self.total
                <= 0x8000_0000_0000_0000 * 0x1_0000_0000) by (nonlinear_arith)
                requires
                    i64::MIN <= self.origin <= i64::MAX,
                    0 < self.total <= 0x1_0000_0000,
            ;
            assert(0 <= (self.first + k) * self.span <= 0x2_0000_0000 * 0x1_0000_0000_0000_0000)
                by (nonlinear_arith)
                requires
                    0 <= self.first + k <= 0x2_0000_0000,
                    0 < self.span <= 0x1_0000_0000_0000_0000,
            ;
            assert(self.border(k as int) == self.origin * self.total + (self.first + k)
                * self.span) by (nonlinear_arith)
                requires
                    self.border(k as int) == self.origin * self.total + self.first * self.span + k
                        * self.span,
            ;
        }
        let num = self.origin * (self.total as i128) + ((self.first + k) as i128) * self.span;
        Ratio { num, den: self.total as i128 }
    }

    /// The bounds `(low, high)`.
    pub fn bounds(&self) -> (r: (Ratio, Ratio))
        requires
            self.wf(),
        ensures
            r.0.num == self.lower(),
            r.1.num == self.upper(),
            r.0.den == self.scale(),
            r.1.den == self.scale(),
    {
        (self.left_border(0), self.left_border(self.bins))
    }

    /// The borders of all bins, from the lower bound to the upper one.
    pub fn borders(&self) -> (r: Vec<Ratio>)
        requires
            self.wf(),
        ensures
            r@.len() == self.num_bins() + 1,
            forall|k: int|
                0 <= k < r@.len() ==> r@[k].num == self.border(k) && r@[k].den == self.scale(),
    {
        let mut r: Vec<Ratio> = Vec::new();
        let mut k: usize = 0;
        while k <= self.bins
            invariant
                self.wf(),
                self.num_bins() <= MAX_BINS,
                k <= self.num_bins() + 1,
                r@.len() == k,
                forall|j: int|
                    0 <= j < k ==> r@[j].num == self.border(j) && r@[j].den == self.scale(),
            decreases self.num_bins() + 1 - k,
        {
            r.push(self.left_border(k));
            k += 1;
        }
        r
    }

    /// The center of every bin.
    pub fn centers(&self) -> (r: Vec<Ratio>)
        requires
            self.wf(),
        ensures
            r@.len() == self.num_bins(),
            forall|k: int|
                0 <= k < r@.len() ==> r@[k].num == self.border(k) + self.border(k + 1) && r@[k].den
                    == 2 * self.scale(),
    {
        let mut r: Vec<Ratio> = Vec::new();
        let mut k: usize = 0;
        while k < self.bins
            invariant
                self.wf(),
                k <= self.num_bins(),
                r@.len() == k,
                forall|j: int|
                    0 <= j < k ==> r@[j].num == self.border(j) + self.border(j + 1) && r@[j].den
                        == 2 * self.scale(),
            decreases self.num_bins() - k,
        {
            let a = self.left_border(k);
            let b = self.left_border(k + 1);
            r.push(Ratio { num: a.num + b.num, den: 2 * a.den });
            k += 1;
        }
        r
    }

    /// Every bin as a pair of its left border and its accumulator.
    pub fn hist(&self) -> (r: Vec<(Ratio, i64)>)
        requires
            self.wf(),
        ensures
            r@.len() == self.num_bins(),
            forall|k: int|
                0 <= k < r@.len() ==> r@[k].0.num == self.border(k) && r@[k].0.den == self.scale()
                    && r@[k].1 == self@[k],
    {
        let mut r: Vec<(Ratio, i64)> = Vec::new();
        let mut k: usize = 0;
        while k < self.bins
            invariant
                self.wf(),
                k <= self.num_bins(),
                r@.len() == k,
                forall|j: int|
                    0 <= j < k ==> r@[j].0.num == self.border(j) && r@[j].0.den == self.scale()
                        && r@[j].1 == self@[j],
            decreases self.num_bins() - k,
        {
            let b = self.left_border(k);
            let v = self.histogram[k];
            r.push((b, v));
            assert(r@[k as int].1 == self@[k as int]);
            k += 1;
        }
        r
    }

    /// The first and the last index of a positive accumulator, if any.
    pub fn positive_bounds(&self) -> (r: Option<(usize, usize)>)
        requires
            self.wf(),
        ensures
            r.is_some() == (exists|i: int| 0 <= i < self@.len() && self@[i] > 0),
            r.is_some() ==> positive_span(self@, r.unwrap().0 as int, r.unwrap().1 as int),
    {
        let n = self.histogram.len();
        let mut lb: usize = 0;
        while lb < n && self.histogram[lb] <= 0
            invariant
                self.wf(),
                n == self@.len(),
                lb <= n,
                forall|i: int| 0 <= i < lb ==> self@[i] <= 0,
            decreases n - lb,
        {
            lb += 1;
        }
        if lb == n {
            return None;
        }
        let mut hb: usize = n - 1;
        while self.histogram[hb] <= 0
            invariant
                self.wf(),
                n == self@.len(),
                lb <= hb < n,
                self@[lb as int] > 0,
                forall|i: int| hb < i < n ==> self@[i] <= 0,
            decreases hb,
        {
            hb -= 1;
        }
        Some((lb, hb))
    }

    /// Removes the bins before the first positive accumulator and after the
    /// last one; the bounds shrink by the removed bins. Fails, and leaves the
    /// histogram as it was, when no accumulator is positive.
    pub fn trim(&mut self) -> (r: Result<(), HistogramError>)
        requires
            old(self).wf(),
        ensures
            final(self).wf(),
            r.is_ok() == (exists|i: int| 0 <= i < old(self)@.len() && old(self)@[i] > 0),
            r.is_ok() ==> trimmed(*old(self), *final(self)),
            r.is_err() ==> *final(self) == *old(self),
    {
        let (lb, hb) = match self.positive_bounds() {
            Some(p) => p,
            None => {
                return Err(HistogramError::NothingPositive);
            },
        };
        let mut kept: Vec<i64> = Vec::new();
        let mut i: usize = lb;
        while i <= hb
            invariant
                self.wf(),
                *self == *old(self),
                positive_span(self@, lb as int, hb as int),
                lb <= i <= hb + 1,
                kept@ == self@.subrange(lb as int, i as int),
            decreases hb + 1 - i,
        {
            kept.push(self.histogram[i]);
            i += 1;
        }
        assert(positive_span(old(self)@, lb as int, hb as int));
        self.first = self.first + lb;
        self.bins = hb + 1 - lb;
        self.histogram = kept;
        assert(trimmed_at(*old(self), *self, lb as int, hb as int));
        Ok(())
    }

    /// The accumulators, in bin order.
    pub fn data(&self) -> (r: &[i64])
        requires
            self.wf(),
        ensures
            r@ == self@,
    {
        self.histogram.as_slice()
    }
}

/// The sum of a concatenation is the sum of the parts.
proof fn lemma_total_concat(a: Seq<i64>, b: Seq<i64>)
    ensures
        total_of(a + b) == total_of(a) + total_of(b),
    decreases b.len(),
{
    if b.len() > 0 {
        assert((a + b).drop_last() =~= a + b.drop_last());
        lemma_total_concat(a, b.drop_last());
    } else {
        assert(a + b =~= a);
    }
}

/// A sequence of zeros sums to zero.
proof fn lemma_total_zeros(s: Seq<i64>)
    requires
        forall|i: int| 0 <= i < s.len() ==> s[i] == 0,
    ensures
        total_of(s) == 0,
    decreases s.len(),
{
    if s.len() > 0 {
        lemma_total_zeros(s.drop_last());
    }
}

/// The first and the last positive index are unique.
pub proof fn lemma_positive_span_unique(s: Seq<i64>, lb: int, hb: int, lb2: int, hb2: int)
    requires
        positive_span(s, lb, hb),
        positive_span(s, lb2, hb2),
    ensures
        lb == lb2,
        hb == hb2,
{
}

/// A value inside the bounds belongs to one of the bins.
pub proof fn lemma_bin_in_range(h: Histogram, v: int)
    requires
        h.wf(),
        h.in_range(v),
    ensures
        0 <= h.bin_of(v) < h.num_bins(),
{
    let s = v * h.scale() - h.lower();
    let w = h.width();
    lemma_fundamental_div_mod(s, w);
    let q = s / w;
    let m = s % w;
    assert(0 <= q < h.num_bins()) by (nonlinear_arith)
        requires
            s == w * q + m,
            0 <= m < w,
            0 < s < h.num_bins() * w,
    ;
}

/// Accumulation is linear: adding `a` to the bin of `v` and then `-a` gives
/// back the accumulators as they were, as long as no sum leaves the range of
/// `i64`.
pub proof fn lemma_add_then_subtract(
    before: Histogram,
    mid: Histogram,
    after: Histogram,
    v: i64,
    a: i64,
)
    requires
        before.wf(),
        i64::MIN < a,
        before.in_range(v as int) && 0 <= before.bin_of(v as int) < before@.len() ==> i64::MIN
            <= before@[before.bin_of(v as int)] + a <= i64::MAX,
        added(before, mid, v as int, a as int),
        added(mid, after, v as int, -a),
    ensures
        after@ == before@,
        after.same_grid(&before),
{
    if before.in_range(v as int) {
        lemma_bin_in_range(before, v as int);
        assert(after@ =~= before@);
    }
}

/// Trimming a histogram with no negative accumulator loses no mass: the sum
/// is kept, the bin count does not grow, and each bound moves inwards by the
/// width of the bins removed on its side.
pub proof fn lemma_trim_keeps_sum(before: Histogram, after: Histogram)
    requires
        before.wf(),
        forall|i: int| 0 <= i < before@.len() ==> before@[i] >= 0,
        trimmed(before, after),
    ensures
        total_of(after@) == total_of(before@),
        after.num_bins() <= before.num_bins(),
        after.scale() == before.scale(),
        after.width() == before.width(),
        before.first() <= after.first(),
        after.first() + after.num_bins() <= before.first() + before.num_bins(),
        after.lower() == before.lower() + (after.first() - before.first()) * before.width(),
        after.upper() == before.upper() - (before.first() + before.num_bins() - after.first()
            - after.num_bins()) * before.width(),
{
    let (lb, hb) = choose|lb: int, hb: int| trimmed_at(before, after, lb, hb);
    let s = before@;
    let head = s.subrange(0, lb);
    let mid = s.subrange(lb, hb + 1);
    let tail = s.subrange(hb + 1, s.len() as int);
    assert(s =~= head + mid + tail);
    lemma_total_concat(head + mid, tail);
    lemma_total_concat(head, mid);
    lemma_total_zeros(head);
    lemma_total_zeros(tail);
    let right = before.num_bins() - 1 - hb;
    assert(after.lower() == before.lower() + lb * before.width()) by (nonlinear_arith)
        requires
            after.lower() == after.origin() * after.scale() + after.first() * after.width(),
            before.lower() == before.origin() * before.scale() + before.first() * before.width(),
            after.first() == before.first() + lb,
            after.origin() == before.origin(),
            after.width() == before.width(),
            after.scale() == before.scale(),
    ;
    assert(after.upper() == before.upper() - right * before.width()) by (nonlinear_arith)
        requires
            after.upper() == after.lower() + after.num_bins() * after.width(),
            before.upper() == before.lower() + before.num_bins() * before.width(),
            after.lower() == before.lower() + lb * before.width(),
            after.num_bins() == before.num_bins() - lb - right,
            after.width() == before.width(),
    ;
}

/// Trimming a histogram whose first and last accumulators are positive
/// changes nothing.
pub proof fn lemma_trim_positive_ends(before: Histogram, after: Histogram)
    requires
        before.wf(),
        before@[0] > 0,
        before@[before@.len() - 1] > 0,
        trimmed(before, after),
    ensures
        after@ == before@,
        after.same_grid(&before),
        after.lower() == before.lower(),
        after.upper() == before.upper(),
{
    let (lb, hb) = choose|lb: int, hb: int| trimmed_at(before, after, lb, hb);
    assert(lb == 0);
    assert(hb == before@.len() - 1);
    assert(after@ =~= before@);
}

} // verus!
