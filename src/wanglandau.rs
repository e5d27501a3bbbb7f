use vstd::prelude::*;
use vstd::arithmetic::div_mod::{lemma_div_is_ordered_by_denominator, lemma_div_pos_is_pos};

use crate::histogram::{
    added, clamp, lemma_bin_in_range, lemma_positive_span_unique, positive_span, total_of, trimmed, trimmed_at,
    Histogram, Ratio, MAX_BINS,
};

verus! {

/// The refinement parameter is held in units of `1 / LNF_ONE`.
pub const LNF_ONE: i64 = 16777216;

/// Number of sweeps between two flatness checks of the first phase.
pub const BATCH: u64 = 1000;

/// Number of bins of a fresh estimator.
pub const DEFAULT_BINS: usize = 100;

/// Final refinement parameter of a fresh estimator (about `1e-5`).
pub const DEFAULT_LNF_FINAL: i64 = 168;

/// The phases of a Wang-Landau run.
#[derive(Clone, Copy, Debug, PartialEq, Eq, Structural)]
pub enum Phase {
    /// refinement parameter halved each time the visit histogram is flat
    Flatten,
    /// refinement parameter set to `1 / t`
    Decay,
    /// the bias is fixed and only visits are counted
    Entropic,
    /// the bias has been removed; the estimate is ready
    Done,
}

/// Where a run stands in its schedule.
#[derive(Clone, Copy, Debug, PartialEq, Eq, Structural)]
pub struct Schedule {
    pub phase: Phase,
    /// elapsed sweeps
    pub t: u64,
    /// refinement parameter, in units of `1 / LNF_ONE`
    pub lnf: i64,
    /// sweeps done in the current batch (first phase) or in the entropic phase
    pub sweeps: u64,
    /// length of the entropic phase, in sweeps
    pub limit: u64,
}

/// What has to be done to the histograms when a sweep ends.
#[derive(Clone, Copy, Debug, PartialEq, Eq, Structural)]
pub struct SweepAction {
    /// trim both histograms to their populated region first
    pub trim: bool,
    /// then clear the visit histogram
    pub reset_visits: bool,
    /// then remove the bias from the estimate
    pub finalize: bool,
}

/// The decision taken on one proposal while searching for a starting state.
#[derive(Clone, Copy, Debug, PartialEq, Eq, Structural)]
pub struct StartStep {
    /// the proposal moved further away from the window: revert it
    pub undo: bool,
    /// the proposed energy lies inside the window: the search is over
    pub inside: bool,
}

/// `x + 1`, staying at the largest value once there.
pub open spec fn sat_inc(x: u64) -> u64 {
    if x == u64::MAX {
        x
    } else {
        (x + 1) as u64
    }
}

/// The entropic phase, started after `t` sweeps: it lasts `2 t` sweeps.
pub open spec fn entropic_from(t: u64, lnf: i64) -> Schedule {
    Schedule {
        phase: Phase::Entropic,
        t,
        lnf,
        sweeps: 0,
        limit: if 2 * t > u64::MAX {
            u64::MAX
        } else {
            (2 * t) as u64
        },
    }
}

/// What follows the first phase: the decay phase with `lnf = 1 / t` while
/// `lnf` is above its final value, else the entropic phase at once.
pub open spec fn after_flatten(t: u64, lnf: i64, lnf_final: i64) -> Schedule {
    if lnf > lnf_final {
        Schedule { phase: Phase::Decay, t, lnf: (LNF_ONE as int / t as int) as i64, sweeps: 0, limit: 0 }
    } else {
        entropic_from(t, lnf)
    }
}

/// The first phase goes on while `t < 10` or `lnf > 1 / t`.
pub open spec fn keeps_flattening(t: u64, lnf: i64) -> bool {
    t < 10 || lnf * t > LNF_ONE
}

/// Emergency recovery: still at `lnf == 1`, and the final refinement
/// parameter is looser than `0.2 / t`. Both histograms are then trimmed to
/// their populated region, `lnf` is set to its final value and the first
/// phase ends at once; the decay phase has nothing left to do, so entropic
/// sampling starts.
pub open spec fn emergency(s: Schedule, t: u64, lnf_final: i64) -> bool {
    s.lnf == LNF_ONE && 5 * (lnf_final * t) > LNF_ONE
}

/// Nothing to do to the histograms.
pub open spec fn no_action() -> SweepAction {
    SweepAction { trim: false, reset_visits: false, finalize: false }
}

/// The schedule after one more sweep, and what is done to the histograms.
/// `flat` tells whether every bin of the visit histogram has been visited.
pub open spec fn after_sweep(s: Schedule, lnf_final: i64, flat: bool) -> (Schedule, SweepAction) {
    let t = sat_inc(s.t);
    match s.phase {
        Phase::Flatten => {
            if s.sweeps + 1 < BATCH {
                (Schedule { t, sweeps: (s.sweeps + 1) as u64, ..s }, no_action())
            } else if emergency(s, t, lnf_final) {
                (
                    entropic_from(t, lnf_final),
                    SweepAction { trim: true, reset_visits: true, finalize: false },
                )
            } else if flat {
                let lnf = s.lnf / 2;
                let act = SweepAction { trim: false, reset_visits: true, finalize: false };
                if keeps_flattening(t, lnf as i64) {
                    (Schedule { phase: Phase::Flatten, t, lnf: lnf as i64, sweeps: 0, limit: 0 }, act)
                } else {
                    (after_flatten(t, lnf as i64, lnf_final), act)
                }
            } else {
                (Schedule { t, sweeps: 0, ..s }, no_action())
            }
        },
        Phase::Decay => {
            if s.lnf > lnf_final {
                (Schedule { t, lnf: (LNF_ONE as int / t as int) as i64, ..s }, no_action())
            } else {
                (entropic_from(t, s.lnf), no_action())
            }
        },
        Phase::Entropic => {
            if s.sweeps + 1 >= s.limit {
                (
                    Schedule { phase: Phase::Done, t, sweeps: (s.sweeps + 1) as u64, ..s },
                    SweepAction { trim: false, reset_visits: false, finalize: true },
                )
            } else {
                (Schedule { t, sweeps: (s.sweeps + 1) as u64, ..s }, no_action())
            }
        },
        Phase::Done => (s, no_action()),
    }
}

/// What holds of every schedule a run passes through.
pub open spec fn schedule_wf(s: Schedule) -> bool {
    &&& s.lnf >= 0
    &&& s.phase != Phase::Flatten ==> s.t >= 10
    &&& s.phase == Phase::Flatten ==> s.sweeps < BATCH && s.sweeps <= s.t
    &&& s.phase == Phase::Entropic ==> s.sweeps < s.limit
}

/// The proposal from `old_e` to `new_e` is accepted under the bias `g`, for a
/// uniform draw `u` with `log_u >= LNF_ONE * ln(u)`: both energies lie inside
/// and `g(old_e) - g(new_e) >= log_u`, which is `exp(g(old) - g(new)) >= u`.
pub open spec fn accepts(g: Histogram, old_e: int, new_e: int, log_u: int) -> bool {
    &&& g.in_range(old_e)
    &&& g.in_range(new_e)
    &&& g@[g.bin_of(old_e)] - g@[g.bin_of(new_e)] >= log_u
}

/// Every bin of `h` has been visited.
pub open spec fn flat(h: Histogram) -> bool {
    forall|i: int| 0 <= i < h@.len() ==> h@[i] > 0
}

/// `g2` is `g` with the bias measured by `h` removed: each bin gains
/// `h[j] / mean(h)`. With no visits at all, nothing is changed.
pub open spec fn bias_removed(g: Histogram, h: Histogram, g2: Histogram) -> bool {
    &&& g2.wf()
    &&& g2.same_grid(&g)
    &&& total_of(h@) > 0 ==> g2@.len() == g@.len() && forall|j: int|
        0 <= j < g@.len() ==> g2@[j] == clamp(
            g@[j] + (h@[j] * h.num_bins() * LNF_ONE) / total_of(h@),
        )
    &&& total_of(h@) <= 0 ==> g2@ == g@
}

/// `g2` and `h2` are `g` and `h` trimmed, when their populated regions
/// coincide; otherwise both are left as they were.
pub open spec fn jointly_trimmed(g: Histogram, h: Histogram, g2: Histogram, h2: Histogram) -> bool {
    if exists|lb: int, hb: int| positive_span(g@, lb, hb) && positive_span(h@, lb, hb) {
        trimmed(g, g2) && trimmed(h, h2)
    } else {
        g2 == g && h2 == h
    }
}

/// The histograms after one move that ends at energy `e`: the first phase
/// adds `lnf` to the estimate and counts a visit, the decay phase only adds
/// to the estimate, the entropic phase only counts.
pub open spec fn moved(phase: Phase, lnf: i64, g: Histogram, h: Histogram, e: int, g1: Histogram, h1: Histogram) -> bool {
    match phase {
        Phase::Flatten => added(g, g1, e, lnf as int) && added(h, h1, e, 1),
        Phase::Decay => added(g, g1, e, lnf as int) && h1 == h,
        _ => g1 == g && added(h, h1, e, 1),
    }
}

/// The histograms after the end of a sweep has done `act` to them.
pub open spec fn swept(act: SweepAction, g1: Histogram, h1: Histogram, g4: Histogram, h4: Histogram) -> bool {
    exists|g2: Histogram, h2: Histogram|
        #![trigger jointly_trimmed(g1, h1, g2, h2)]
        {
            &&& (if act.trim {
                jointly_trimmed(g1, h1, g2, h2)
            } else {
                g2 == g1 && h2 == h1
            })
            &&& (if act.reset_visits {
                h4.wf() && h4.same_grid(&h2) && forall|i: int| 0 <= i < h4@.len() ==> h4@[i] == 0
            } else {
                h4 == h2
            })
            &&& (if act.finalize {
                bias_removed(g2, h4, g4)
            } else {
                g4 == g2
            })
        }
}

/// Gathers the effects of the end of a sweep into `swept`.
proof fn lemma_swept(
    act: SweepAction,
    g1: Histogram,
    h1: Histogram,
    g2: Histogram,
    h2: Histogram,
    g4: Histogram,
    h4: Histogram,
)
    requires
        act.trim ==> jointly_trimmed(g1, h1, g2, h2),
        !act.trim ==> g2 == g1 && h2 == h1,
        act.reset_visits ==> h4.wf() && h4.same_grid(&h2) && forall|i: int|
            0 <= i < h4@.len() ==> h4@[i] == 0,
        !act.reset_visits ==> h4 == h2,
        act.finalize ==> bias_removed(g2, h4, g4),
        !act.finalize ==> g4 == g2,
    ensures
        swept(act, g1, h1, g4, h4),
{
    let _ = jointly_trimmed(g1, h1, g2, h2);
}

/// Wang-Landau estimator of the density of states over an energy window.
///
/// The estimator does not drive the model itself: the caller proposes moves,
/// hands the energies to `step`, and reverts the move when told to. Energies
/// are integers; the log-density estimate `g` is held in units of
/// `1 / LNF_ONE`.
pub struct WangLandau {
    /// lower bound of the energy window
    low: i64,
    /// upper bound of the energy window
    high: i64,
    /// estimate of the log density of states
    g: Histogram,
    /// visit histogram for the flatness criterion
    h: Histogram,
    /// how many moves make one sweep
    sweep: usize,
    /// final refinement parameter, in units of `1 / LNF_ONE`
    lnf_final: i64,
    /// where the run stands
    schedule: Schedule,
    /// moves done in the current sweep
    moves: usize,
    /// proposals so far
    tries: u64,
    /// proposals after which the energy was the one before
    rejects: u64,
}

impl WangLandau {
    pub closed spec fn low(&self) -> int {
        self.low as int
    }

    pub closed spec fn high(&self) -> int {
        self.high as int
    }

    pub closed spec fn g(&self) -> Histogram {
        self.g
    }

    pub closed spec fn h(&self) -> Histogram {
        self.h
    }

    pub closed spec fn sweep_size(&self) -> int {
        self.sweep as int
    }

    pub closed spec fn final_lnf(&self) -> i64 {
        self.lnf_final
    }

    pub closed spec fn schedule(&self) -> Schedule {
        self.schedule
    }

    pub closed spec fn moves(&self) -> int {
        self.moves as int
    }

    pub closed spec fn tries(&self) -> u64 {
        self.tries
    }

    pub closed spec fn rejects(&self) -> u64 {
        self.rejects
    }

    /// The invariant of an estimator: the two histograms cover the same bins,
    /// visits are never negative, the counters are ordered and the schedule
    /// is consistent.
    pub open spec fn wf(&self) -> bool {
        &&& self.low() < self.high()
        &&& self.g().wf()
        &&& self.h().wf()
        &&& self.g().same_grid(&self.h())
        &&& forall|i: int| 0 <= i < self.h()@.len() ==> self.h()@[i] >= 0
        &&& 0 < self.sweep_size()
        &&& 0 <= self.moves() < self.sweep_size()
        &&& self.final_lnf() > 0
        &&& self.rejects() <= self.tries()
        &&& schedule_wf(self.schedule())
    }

    /// Everything but the two histograms is the same.
    pub open spec fn same_run(&self, o: &WangLandau) -> bool {
        &&& self.same_config(o)
        &&& self.schedule() == o.schedule()
        &&& self.moves() == o.moves()
        &&& self.tries() == o.tries()
        &&& self.rejects() == o.rejects()
    }

    /// `b` is the estimator after one move, from `self`, that ended at
    /// energy `e`.
    pub open spec fn stepped(&self, b: WangLandau, e: int) -> bool {
        exists|g1: Histogram, h1: Histogram|
            #![trigger moved(self.schedule().phase, self.schedule().lnf, self.g(), self.h(), e, g1, h1)]
            {
                &&& moved(self.schedule().phase, self.schedule().lnf, self.g(), self.h(), e, g1, h1)
                &&& if self.moves() + 1 < self.sweep_size() {
                    &&& b.g() == g1
                    &&& b.h() == h1
                    &&& b.schedule() == self.schedule()
                    &&& b.moves() == self.moves() + 1
                } else {
                    let next = after_sweep(self.schedule(), self.final_lnf(), flat(h1));
                    &&& b.schedule() == next.0
                    &&& b.moves() == 0
                    &&& swept(next.1, g1, h1, b.g(), b.h())
                }
            }
    }

    /// The window, the sweep size and the final refinement are the same.
    pub open spec fn same_config(&self, o: &WangLandau) -> bool {
        &&& self.low() == o.low()
        &&& self.high() == o.high()
        &&& self.sweep_size() == o.sweep_size()
        &&& self.final_lnf() == o.final_lnf()
    }

    /// An estimator over the window `(low, high)` with 100 bins, one move per
    /// sweep and a final refinement parameter of about `1e-5`.
    pub fn new(low: i64, high: i64) -> (r: WangLandau)
        requires
            low < high,
        ensures
            r.wf(),
            r.low() == low,
            r.high() == high,
            r.g()@ == Seq::new(DEFAULT_BINS as nat, |i: int| 0i64),
            r.h()@ == Seq::new(DEFAULT_BINS as nat, |i: int| 0i64),
            r.g().scale() == DEFAULT_BINS,
            r.g().origin() == low,
            r.g().width() == high - low,
            r.g().first() == 0,
            r.g().num_bins() == DEFAULT_BINS,
            r.h().same_grid(&r.g()),
            r.g().lower() == low * DEFAULT_BINS,
            r.g().upper() == high * DEFAULT_BINS,
            r.sweep_size() == 1,
            r.final_lnf() == DEFAULT_LNF_FINAL,
            r.schedule() == (Schedule { phase: Phase::Flatten, t: 0, lnf: LNF_ONE, sweeps: 0, limit: 0 }),
            r.moves() == 0,
            r.tries() == 0,
            r.rejects() == 0,
    {
        WangLandau {
            low,
            high,
            g: Histogram::new(low, high, DEFAULT_BINS),
            h: Histogram::new(low, high, DEFAULT_BINS),
            sweep: 1,
            lnf_final: DEFAULT_LNF_FINAL,
            schedule: Schedule { phase: Phase::Flatten, t: 0, lnf: LNF_ONE, sweeps: 0, limit: 0 },
            moves: 0,
            tries: 0,
            rejects: 0,
        }
    }

    /// Sets how many moves make one sweep; it must be positive. A sweep
    /// under way that would already be longer starts over.
    pub fn sweep(&mut self, sweep: usize)
        requires
            old(self).wf(),
            sweep > 0,
        ensures
            final(self).wf(),
            final(self).sweep_size() == sweep,
            final(self).low() == old(self).low(),
            final(self).high() == old(self).high(),
            final(self).final_lnf() == old(self).final_lnf(),
            final(self).g() == old(self).g(),
            final(self).h() == old(self).h(),
            final(self).schedule() == old(self).schedule(),
            final(self).moves() == (if old(self).moves() < sweep {
                old(self).moves()
            } else {
                0
            }),
            final(self).tries() == old(self).tries(),
            final(self).rejects() == old(self).rejects(),
    {
        self.sweep = sweep;
        if self.moves >= sweep {
            self.moves = 0;
        }
    }

    /// Sets the final refinement parameter (in units of `1 / LNF_ONE`); it
    /// must be positive.
    pub fn lnf_final(&mut self, lnf_final: i64)
        requires
            old(self).wf(),
            lnf_final > 0,
        ensures
            final(self).wf(),
            final(self).final_lnf() == lnf_final,
            final(self).low() == old(self).low(),
            final(self).high() == old(self).high(),
            final(self).sweep_size() == old(self).sweep_size(),
            final(self).g() == old(self).g(),
            final(self).h() == old(self).h(),
            final(self).schedule() == old(self).schedule(),
            final(self).moves() == old(self).moves(),
            final(self).tries() == old(self).tries(),
            final(self).rejects() == old(self).rejects(),
    {
        self.lnf_final = lnf_final;
    }

    /// Replaces both histograms by empty ones with `bins` bins over the window.
    pub fn bins(&mut self, bins: usize)
        requires
            old(self).wf(),
            0 < bins <= MAX_BINS,
        ensures
            final(self).wf(),
            final(self).g()@ == Seq::new(bins as nat, |i: int| 0i64),
            final(self).h()@ == Seq::new(bins as nat, |i: int| 0i64),
            final(self).g().scale() == bins,
            final(self).g().origin() == old(self).low(),
            final(self).g().width() == old(self).high() - old(self).low(),
            final(self).g().first() == 0,
            final(self).g().num_bins() == bins,
            final(self).h().same_grid(&final(self).g()),
            final(self).g().lower() == old(self).low() * bins,
            final(self).g().upper() == old(self).high() * bins,
            final(self).same_config(old(self)),
            final(self).schedule() == old(self).schedule(),
            final(self).moves() == old(self).moves(),
            final(self).tries() == old(self).tries(),
            final(self).rejects() == old(self).rejects(),
    {
        self.g = Histogram::new(self.low, self.high, bins);
        self.h = Histogram::new(self.low, self.high, bins);
    }

    /// The configured number of moves per sweep.
    pub fn sweep_len(&self) -> (r: usize)
        ensures
            r == self.sweep_size(),
    {
        self.sweep
    }

    /// The configured final refinement parameter.
    pub fn final_refinement(&self) -> (r: i64)
        ensures
            r == self.final_lnf(),
    {
        self.lnf_final
    }

    /// The estimate of the log density of states.
    pub fn estimate(&self) -> (r: &Histogram)
        ensures
            *r == self.g(),
    {
        &self.g
    }

    /// The visit histogram.
    pub fn visits(&self) -> (r: &Histogram)
        ensures
            *r == self.h(),
    {
        &self.h
    }

    /// Where the run stands.
    pub fn current(&self) -> (r: Schedule)
        ensures
            r == self.schedule(),
    {
        self.schedule
    }

    /// The proposals so far and how many of them left the energy unchanged.
    pub fn counts(&self) -> (r: (u64, u64))
        ensures
            r == (self.tries(), self.rejects()),
    {
        (self.tries, self.rejects)
    }

    /// Trims both histograms to their populated region, when the two
    /// regions coincide; otherwise leaves both as they are.
    fn trim_both(&mut self)
        requires
            old(self).wf(),
        ensures
            final(self).wf(),
            final(self).same_run(old(self)),
            jointly_trimmed(old(self).g(), old(self).h(), final(self).g(), final(self).h()),
    {
        let ghost g0 = self.g;
        let ghost h0 = self.h;
        let pg = self.g.positive_bounds();
        let ph = self.h.positive_bounds();
        let mut done = false;
        if let Some((gl, gh)) = pg {
            if let Some((hl, hh)) = ph {
                if gl == hl && gh == hh {
                    let rg = self.g.trim();
                    let rh = self.h.trim();
                    proof {
                        let (a, b) = choose|a: int, b: int| trimmed_at(g0, self.g, a, b);
                        let (c, d) = choose|c: int, d: int| trimmed_at(h0, self.h, c, d);
                        lemma_positive_span_unique(g0@, a, b, gl as int, gh as int);
                        lemma_positive_span_unique(h0@, c, d, hl as int, hh as int);
                        assert forall|i: int| 0 <= i < self.h@.len() implies self.h@[i] >= 0 by {
                            assert(self.h@[i] == h0@[i + c]);
                        }
                    }
                    done = true;
                }
            }
        }
        proof {
            if !done {
                if exists|lb: int, hb: int| positive_span(g0@, lb, hb) && positive_span(h0@, lb, hb) {
                    let (lb, hb) = choose|lb: int, hb: int|
                        positive_span(g0@, lb, hb) && positive_span(h0@, lb, hb);
                    assert(g0@[lb] > 0);
                    assert(h0@[lb] > 0);
                    let (gl, gh) = pg.unwrap();
                    let (hl, hh) = ph.unwrap();
                    lemma_positive_span_unique(g0@, lb, hb, gl as int, gh as int);
                    lemma_positive_span_unique(h0@, lb, hb, hl as int, hh as int);
                }
            }
        }
    }

    /// Adds to every bin of the estimate its visits over the mean visits,
    /// in units of `1 / LNF_ONE`.
    fn remove_bias(&mut self)
        requires
            old(self).wf(),
        ensures
            final(self).wf(),
            final(self).same_run(old(self)),
            final(self).h() == old(self).h(),
            bias_removed(old(self).g(), old(self).h(), final(self).g()),
    {
        let sum = self.h.sum();
        if sum > 0 {
            let n: i128 = self.h.bins() as i128;
            let mut j: usize = 0;
            while j < self.g.bins()
                invariant
                    self.wf(),
                    self.same_run(old(self)),
                    self.h == old(self).h,
                    self.g.same_grid(&old(self).g),
                    sum == total_of(self.h@),
                    sum > 0,
                    self.g@.len() == old(self).g@.len(),
                    n == self.h.num_bins(),
                    0 < n <= MAX_BINS,
                    0 <= j <= self.g@.len(),
                    forall|k: int|
                        0 <= k < j ==> self.g@[k] == clamp(
                            old(self).g@[k] + (self.h@[k] * n * LNF_ONE) / (sum as int),
                        ),
                    forall|k: int| j <= k < self.g@.len() ==> self.g@[k] == old(self).g@[k],
                decreases self.g@.len() - j,
            {
                let hj = self.h.idx(j);
                assert(0 <= hj * n * LNF_ONE <= 0x8000_0000_0000_0000 * 0x8000_0000 * 0x100_0000)
                    by (nonlinear_arith)
                    requires
                        0 <= hj <= 0x8000_0000_0000_0000,
                        0 < n <= 0x8000_0000,
                ;
                proof {
                    lemma_div_is_ordered_by_denominator(hj * n * LNF_ONE, 1, sum as int);
                    lemma_div_pos_is_pos(hj * n * LNF_ONE, sum as int);
                }
                let c: i128 = (hj as i128) * n * (LNF_ONE as i128) / sum;
                let v: i128 = self.g.idx(j) as i128 + c;
                let nv: i64 = if v > i64::MAX as i128 {
                    i64::MAX
                } else if v < i64::MIN as i128 {
                    i64::MIN
                } else {
                    v as i64
                };
                self.g.set_idx(j, nv);
                j += 1;
            }
        }
    }

    /// One move of the run. `old_e` is the energy before the proposal,
    /// `new_e` the proposed one and `log_u` the logarithm of a uniform draw
    /// from `[0, 1)` in units of `1 / LNF_ONE`, rounded up. Returns whether
    /// the proposal is rejected, in which case the caller reverts it.
    ///
    /// Every proposal counts as a try; it counts as a reject when the energy
    /// after it is the one before. The histograms are updated as the phase
    /// asks, and when a sweep is complete the schedule moves on.
    pub fn step(&mut self, old_e: i64, new_e: i64, log_u: i64) -> (undo: bool)
        requires
            old(self).wf(),
            old(self).schedule().phase != Phase::Done,
        ensures
            final(self).wf(),
            final(self).same_config(old(self)),
            undo == !accepts(old(self).g(), old_e as int, new_e as int, log_u as int),
            final(self).tries() == sat_inc(old(self).tries()),
            final(self).rejects() == (if undo || new_e == old_e {
                sat_inc(old(self).rejects())
            } else {
                old(self).rejects()
            }),
            final(self).tries() >= old(self).tries(),
            final(self).schedule().t >= old(self).schedule().t,
            final(self).sweep_size() == old(self).sweep_size(),
            old(self).moves() + 1 < old(self).sweep_size() ==> final(self).moves() == old(self).moves()
                + 1 && final(self).schedule().t == old(self).schedule().t,
            old(self).moves() + 1 >= old(self).sweep_size() ==> final(self).moves() == 0
                && final(self).schedule().t == sat_inc(old(self).schedule().t),
            old(self).stepped(*final(self), if undo {
                old_e as int
            } else {
                new_e as int
            }),
    {
        let accepted = self.accept(old_e, new_e, log_u);
        let e = if accepted {
            new_e
        } else {
            old_e
        };
        self.tries = if self.tries == u64::MAX {
            self.tries
        } else {
            self.tries + 1
        };
        if e == old_e {
            self.rejects = if self.rejects == u64::MAX {
                self.rejects
            } else {
                self.rejects + 1
            };
        }
        let ghost h0 = self.h;
        match self.schedule.phase {
            Phase::Flatten => {
                self.g.add(e, self.schedule.lnf);
                self.h.count(e);
            },
            Phase::Decay => {
                self.g.add(e, self.schedule.lnf);
            },
            _ => {
                self.h.count(e);
            },
        }
        let ghost g1 = self.g;
        let ghost h1 = self.h;
        proof {
            if h0.in_range(e as int) {
                lemma_bin_in_range(h0, e as int);
            }
            assert forall|i: int| 0 <= i < h1@.len() implies h1@[i] >= 0 by {
                assert(h0@[i] >= 0);
            }
        }
        if self.moves + 1 < self.sweep {
            self.moves = self.moves + 1;
        } else {
            self.moves = 0;
            let is_flat = self.h.min() > 0;
            let (next, act) = next_schedule(self.schedule, self.lnf_final, is_flat);
            if act.trim {
                self.trim_both();
            }
            let ghost g2 = self.g;
            let ghost h2 = self.h;
            if act.reset_visits {
                self.h.reset();
            }
            if act.finalize {
                self.remove_bias();
            }
            self.schedule = next;
            proof {
                lemma_swept(act, g1, h1, g2, h2, self.g, self.h);
            }
        }
        assert(moved(old(self).schedule.phase, old(self).schedule.lnf, old(self).g, old(self).h, e as int, g1, h1));
        !accepted
    }

    /// The estimate as `(bin center, value)` pairs, in bin order.
    pub fn output(&self) -> (r: Vec<(Ratio, i64)>)
        requires
            self.wf(),
        ensures
            r@.len() == self.g().num_bins(),
            forall|k: int|
                0 <= k < r@.len() ==> r@[k].0.num == self.g().border(k) + self.g().border(k + 1)
                    && r@[k].0.den == 2 * self.g().scale() && r@[k].1 == self.g()@[k],
    {
        let centers = self.g.centers();
        let mut r: Vec<(Ratio, i64)> = Vec::new();
        let mut k: usize = 0;
        while k < self.g.bins()
            invariant
                self.wf(),
                centers@.len() == self.g.num_bins(),
                forall|j: int|
                    #![trigger centers@[j]]
                    0 <= j < centers@.len() ==> centers@[j].num == self.g.border(j) + self.g.border(
                        j + 1,
                    ) && centers@[j].den == 2 * self.g.scale(),
                k <= self.g@.len(),
                r@.len() == k,
                forall|j: int|
                    #![trigger r@[j]]
                    0 <= j < k ==> r@[j].0.num == self.g.border(j) + self.g.border(j + 1)
                        && r@[j].0.den == 2 * self.g.scale() && r@[j].1 == self.g@[j],
            decreases self.g@.len() - k,
        {
            let c = centers[k];
            let v = self.g.idx(k);
            let ghost before = r@;
            r.push((c, v));
            assert forall|j: int|
                0 <= j <= k implies r@[j].0.num == self.g.border(j) + self.g.border(j + 1)
                && r@[j].0.den == 2 * self.g.scale() && r@[j].1 == self.g@[j] by {
                if j < k {
                    assert(r@[j] == before[j]);
                } else {
                    assert(c == centers@[j]);
                }
            }
            k += 1;
        }
        r
    }

    /// One step of the search for a starting state: a proposal that leaves
    /// the window further on the side the chain was already outside on is
    /// reverted, and the search ends once a proposed energy lies strictly
    /// inside the window.
    pub fn start_step(&self, old_e: i64, new_e: i64) -> (r: StartStep)
        ensures
            r.undo == ((new_e < self.low() && old_e > new_e) || (new_e > self.high() && old_e
                < new_e)),
            r.inside == (self.low() < new_e < self.high()),
    {
        StartStep {
            undo: (new_e < self.low && old_e > new_e) || (new_e > self.high && old_e < new_e),
            inside: self.low < new_e && new_e < self.high,
        }
    }

    /// Whether the proposal from `old_e` to `new_e` is accepted, given
    /// `log_u`, the logarithm of a uniform draw from `[0, 1)` in units of
    /// `1 / LNF_ONE`, rounded up.
    pub fn accept(&self, old_e: i64, new_e: i64, log_u: i64) -> (r: bool)
        requires
            self.wf(),
        ensures
            r == accepts(self.g(), old_e as int, new_e as int, log_u as int),
    {
        match (self.g.at(old_e), self.g.at(new_e)) {
            (Some(a), Some(b)) => a as i128 - b as i128 >= log_u as i128,
            _ => false,
        }
    }
}

/// The schedule after one more sweep; see `after_sweep`.
pub fn next_schedule(s: Schedule, lnf_final: i64, flat: bool) -> (r: (Schedule, SweepAction))
    requires
        schedule_wf(s),
        lnf_final > 0,
        s.phase != Phase::Done,
    ensures
        r == after_sweep(s, lnf_final, flat),
        schedule_wf(r.0),
        r.0.t >= s.t,
{
    let t: u64 = if s.t == u64::MAX {
        s.t
    } else {
        s.t + 1
    };
    match s.phase {
        Phase::Flatten => {
            if s.sweeps + 1 < BATCH {
                (Schedule { t, sweeps: s.sweeps + 1, ..s }, SweepAction { trim: false, reset_visits: false, finalize: false })
            } else {
                assert(0 <= lnf_final * t <= 0x8000_0000_0000_0000 * 0x1_0000_0000_0000_0000)
                    by (nonlinear_arith)
                    requires
                        0 < lnf_final <= 0x8000_0000_0000_0000,
                        0 <= t <= 0x1_0000_0000_0000_0000,
                ;
                let prod: u128 = (lnf_final as u128) * (t as u128);
                let emerg = s.lnf == LNF_ONE && prod > (LNF_ONE / 5) as u128;
                assert(emerg == emergency(s, t, lnf_final)) by (nonlinear_arith)
                    requires
                        prod == lnf_final * t,
                        emerg == (s.lnf == LNF_ONE && prod > 3355443),
                ;
                if emerg {
                    let limit: u64 = if t > u64::MAX / 2 {
                        u64::MAX
                    } else {
                        2 * t
                    };
                    (
                        Schedule { phase: Phase::Entropic, t, lnf: lnf_final, sweeps: 0, limit },
                        SweepAction { trim: true, reset_visits: true, finalize: false },
                    )
                } else if flat {
                    let lnf: i64 = s.lnf / 2;
                    let act = SweepAction { trim: false, reset_visits: true, finalize: false };
                    assert(0 <= lnf * t <= 0x8000_0000_0000_0000 * 0x1_0000_0000_0000_0000)
                        by (nonlinear_arith)
                        requires
                            0 <= lnf <= 0x8000_0000_0000_0000,
                            0 <= t <= 0x1_0000_0000_0000_0000,
                    ;
                    let keep = t < 10 || (lnf as u128) * (t as u128) > LNF_ONE as u128;
                    if keep {
                        (Schedule { phase: Phase::Flatten, t, lnf, sweeps: 0, limit: 0 }, act)
                    } else if lnf > lnf_final {
                        (Schedule { phase: Phase::Decay, t, lnf: ((LNF_ONE as u64) / t) as i64, sweeps: 0, limit: 0 }, act)
                    } else {
                        let limit: u64 = if t > u64::MAX / 2 {
                            u64::MAX
                        } else {
                            2 * t
                        };
                        (Schedule { phase: Phase::Entropic, t, lnf, sweeps: 0, limit }, act)
                    }
                } else {
                    (Schedule { t, sweeps: 0, ..s }, SweepAction { trim: false, reset_visits: false, finalize: false })
                }
            }
        },
        Phase::Decay => {
            if s.lnf > lnf_final {
                (Schedule { t, lnf: ((LNF_ONE as u64) / t) as i64, ..s }, SweepAction { trim: false, reset_visits: false, finalize: false })
            } else {
                let limit: u64 = if t > u64::MAX / 2 {
                    u64::MAX
                } else {
                    2 * t
                };
                (Schedule { phase: Phase::Entropic, t, lnf: s.lnf, sweeps: 0, limit }, SweepAction { trim: false, reset_visits: false, finalize: false })
            }
        },
        _ => {
            if s.sweeps + 1 >= s.limit {
                (
                    Schedule { phase: Phase::Done, t, sweeps: s.sweeps + 1, ..s },
                    SweepAction { trim: false, reset_visits: false, finalize: true },
                )
            } else {
                (Schedule { t, sweeps: s.sweeps + 1, ..s }, SweepAction { trim: false, reset_visits: false, finalize: false })
            }
        },
    }
}

/// The estimate and the visit histogram always cover the same bins: their
/// bounds are equal, also after an emergency trim.
pub proof fn lemma_paired_bounds(w: WangLandau)
    requires
        w.wf(),
    ensures
        w.g().lower() == w.h().lower(),
        w.g().upper() == w.h().upper(),
        w.g().scale() == w.h().scale(),
        w.g().num_bins() == w.h().num_bins(),
{
}

/// The counters of a run are ordered: `0 <= rejects <= tries`; and a step
/// never lowers the number of tries nor the elapsed sweeps.
pub proof fn lemma_counts_ordered(a: WangLandau, b: WangLandau)
    requires
        a.wf(),
        b.wf(),
        b.tries() == sat_inc(a.tries()),
        b.schedule().t >= a.schedule().t,
    ensures
        0 <= b.rejects() <= b.tries(),
        b.tries() >= a.tries(),
        a.tries() < u64::MAX ==> b.tries() > a.tries(),
{
}

/// Every proposal belongs to a sweep: as long as the counters have not
/// reached their largest value, a step keeps `tries == sweep * t + moves`,
/// so at the end of every sweep `tries == sweep * t`.
pub proof fn lemma_tries_follow_sweeps(a: WangLandau, b: WangLandau)
    requires
        a.wf(),
        a.tries() == a.sweep_size() * a.schedule().t + a.moves(),
        a.tries() < u64::MAX,
        a.schedule().t < u64::MAX,
        b.tries() == sat_inc(a.tries()),
        b.sweep_size() == a.sweep_size(),
        a.moves() + 1 < a.sweep_size() ==> b.moves() == a.moves() + 1 && b.schedule().t
            == a.schedule().t,
        a.moves() + 1 >= a.sweep_size() ==> b.moves() == 0 && b.schedule().t == sat_inc(
            a.schedule().t,
        ),
    ensures
        b.tries() == b.sweep_size() * b.schedule().t + b.moves(),
{
    if a.moves() + 1 >= a.sweep_size() {
        assert(a.moves() + 1 == a.sweep_size());
        assert(b.sweep_size() * b.schedule().t == a.sweep_size() * a.schedule().t + a.sweep_size())
            by (nonlinear_arith)
            requires
                b.schedule().t == a.schedule().t + 1,
                b.sweep_size() == a.sweep_size(),
        ;
    }
}

/// The entropic phase lasts twice as many sweeps as the phases before it:
/// when it ends, `t` is three times the sweeps elapsed when it began.
pub proof fn lemma_entropic_length(s: Schedule, lnf_final: i64, flat: bool)
    requires
        schedule_wf(s),
        s.phase == Phase::Entropic,
        s.limit == 2 * (s.t - s.sweeps),
        s.t < u64::MAX,
    ensures
        after_sweep(s, lnf_final, flat).0.phase == Phase::Done ==> after_sweep(s, lnf_final, flat).0.t
            == 3 * (s.t - s.sweeps),
        after_sweep(s, lnf_final, flat).0.phase == Phase::Entropic ==> after_sweep(s, lnf_final, flat).0.limit
            == 2 * (after_sweep(s, lnf_final, flat).0.t - after_sweep(s, lnf_final, flat).0.sweeps),
{
}

} // verus!
