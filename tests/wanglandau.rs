use mcmc::wanglandau::{next_schedule, BATCH, LNF_ONE};
use mcmc::{Phase, Schedule, Simple, StartStep, SweepAction, WangLandau};
use rand::rngs::StdRng;
use rand::{Rng, SeedableRng};

fn log_draw(rng: &mut StdRng) -> i64 {
    let u: f64 = rng.gen();
    let l = (u.ln() * LNF_ONE as f64).ceil();
    if l < i64::MIN as f64 {
        i64::MIN
    } else {
        l as i64
    }
}

fn sched(phase: Phase, t: u64, lnf: i64, sweeps: u64, limit: u64) -> Schedule {
    Schedule { phase, t, lnf, sweeps, limit }
}

const NONE: SweepAction = SweepAction { trim: false, reset_visits: false, finalize: false };

#[test]
fn start_step_decisions() {
    let wl = WangLandau::new(0, 10);
    // moved further below the window: undo
    assert_eq!(wl.start_step(-3, -5), StartStep { undo: true, inside: false });
    // moved up, still below: keep
    assert_eq!(wl.start_step(-5, -3), StartStep { undo: false, inside: false });
    // moved further above the window: undo
    assert_eq!(wl.start_step(12, 15), StartStep { undo: true, inside: false });
    assert_eq!(wl.start_step(15, 12), StartStep { undo: false, inside: false });
    // inside, borders excluded
    assert_eq!(wl.start_step(15, 5), StartStep { undo: false, inside: true });
    assert_eq!(wl.start_step(15, 10), StartStep { undo: false, inside: false });
    assert_eq!(wl.start_step(-1, 0), StartStep { undo: false, inside: false });
}

#[test]
fn accept_rule() {
    let wl = WangLandau::new(0, 10);
    // flat bias: always accepted inside, whatever the draw
    assert!(wl.accept(3, 4, 0));
    assert!(wl.accept(3, 4, -100));
    // a positive log draw cannot be met by a zero difference
    assert!(!wl.accept(3, 4, 1));
    // outside the window: rejected
    assert!(!wl.accept(3, 10, i64::MIN));
    assert!(!wl.accept(0, 4, i64::MIN));
}

#[test]
fn accept_uses_the_bias() {
    let mut wl = WangLandau::new(0, 4);
    wl.bins(2);
    // a first move fills the bin of energy 1 with lnf = 1
    assert!(!wl.step(1, 1, 0));
    assert_eq!(wl.estimate().data(), &[LNF_ONE, 0]);
    // towards the emptier bin: g(old) - g(new) = LNF_ONE
    assert!(wl.accept(1, 3, LNF_ONE));
    assert!(!wl.accept(1, 3, LNF_ONE + 1));
    // towards the fuller bin: g(old) - g(new) = -LNF_ONE
    assert!(wl.accept(3, 1, -LNF_ONE));
    assert!(!wl.accept(3, 1, -LNF_ONE + 1));
}

#[test]
fn step_counts_tries_and_rejects() {
    let mut wl = WangLandau::new(0, 10);
    assert_eq!(wl.counts(), (0, 0));
    assert!(!wl.step(3, 4, 0));
    assert_eq!(wl.counts(), (1, 0));
    // rejected: outside
    assert!(wl.step(3, 11, 0));
    assert_eq!(wl.counts(), (2, 1));
    // accepted, but the energy did not change: still a reject
    assert!(!wl.step(3, 3, 0));
    assert_eq!(wl.counts(), (3, 2));
    let (tries, rejects) = wl.counts();
    assert!(tries >= rejects);
}

#[test]
fn first_phase_updates_both_histograms() {
    let mut wl = WangLandau::new(0, 10);
    wl.bins(10);
    wl.step(3, 5, 0);
    assert_eq!(wl.estimate().at(5), Some(LNF_ONE));
    assert_eq!(wl.visits().at(5), Some(1));
    assert_eq!(wl.current(), sched(Phase::Flatten, 1, LNF_ONE, 1, 0));
}

#[test]
fn sweep_groups_moves() {
    let mut wl = WangLandau::new(0, 10);
    wl.sweep(3);
    assert_eq!(wl.sweep_len(), 3);
    wl.step(3, 5, 0);
    wl.step(5, 6, 0);
    assert_eq!(wl.current().t, 0);
    wl.step(6, 7, 0);
    assert_eq!(wl.current().t, 1);
}

#[test]
fn configuration_setters() {
    let mut wl = WangLandau::new(-1, 1);
    assert_eq!(wl.final_refinement(), mcmc::wanglandau::DEFAULT_LNF_FINAL);
    wl.lnf_final(77);
    assert_eq!(wl.final_refinement(), 77);
    assert_eq!(wl.estimate().bins(), 100);
    wl.bins(4);
    assert_eq!(wl.estimate().bins(), 4);
    assert_eq!(wl.visits().bins(), 4);
}

#[test]
fn schedule_inside_a_batch() {
    let s = sched(Phase::Flatten, 5, LNF_ONE, 3, 0);
    assert_eq!(next_schedule(s, 100, false), (sched(Phase::Flatten, 6, LNF_ONE, 4, 0), NONE));
}

#[test]
fn schedule_batch_not_flat_goes_on() {
    let s = sched(Phase::Flatten, 999, LNF_ONE, BATCH - 1, 0);
    assert_eq!(next_schedule(s, 100, false), (sched(Phase::Flatten, 1000, LNF_ONE, 0, 0), NONE));
}

#[test]
fn schedule_flat_batch_halves() {
    let s = sched(Phase::Flatten, 999, LNF_ONE, BATCH - 1, 0);
    let act = SweepAction { trim: false, reset_visits: true, finalize: false };
    assert_eq!(next_schedule(s, 100, true), (sched(Phase::Flatten, 1000, LNF_ONE / 2, 0, 0), act));
}

#[test]
fn schedule_flat_batch_leaves_first_phase() {
    // lnf halves to 8192, and 8192 * 2048 <= LNF_ONE
    let s = sched(Phase::Flatten, 2047, 16384, BATCH - 1, 0);
    let act = SweepAction { trim: false, reset_visits: true, finalize: false };
    assert_eq!(next_schedule(s, 100, true), (sched(Phase::Decay, 2048, LNF_ONE / 2048, 0, 0), act));
    // when lnf already reached its final value, the decay phase is skipped
    assert_eq!(
        next_schedule(s, 8192, true),
        (sched(Phase::Entropic, 2048, 8192, 0, 4096), act)
    );
}

#[test]
fn schedule_emergency_trims() {
    // 5 * 40000 * 1000 > LNF_ONE while lnf is still one: trim, lnf takes its
    // final value and entropic sampling starts at once, for 2 t sweeps
    let s = sched(Phase::Flatten, 999, LNF_ONE, BATCH - 1, 0);
    let act = SweepAction { trim: true, reset_visits: true, finalize: false };
    assert_eq!(next_schedule(s, 40000, false), (sched(Phase::Entropic, 1000, 40000, 0, 2000), act));
    assert_eq!(next_schedule(s, 4000, true), (sched(Phase::Entropic, 1000, 4000, 0, 2000), act));
    // 5 * 3355 * 1000 is below LNF_ONE: no emergency
    assert_eq!(next_schedule(s, 3355, false), (sched(Phase::Flatten, 1000, LNF_ONE, 0, 0), NONE));
    let s2 = sched(Phase::Flatten, 99_999, LNF_ONE, BATCH - 1, 0);
    assert_eq!(
        next_schedule(s2, 100, false),
        (sched(Phase::Entropic, 100_000, 100, 0, 200_000), act)
    );
}

#[test]
fn schedule_decay_and_entropic() {
    let s = sched(Phase::Decay, 100, LNF_ONE / 100, 0, 0);
    assert_eq!(next_schedule(s, 1000, false), (sched(Phase::Decay, 101, LNF_ONE / 101, 0, 0), NONE));
    let s = sched(Phase::Decay, 20000, 900, 0, 0);
    assert_eq!(next_schedule(s, 1000, false), (sched(Phase::Entropic, 20001, 900, 0, 40002), NONE));
    let s = sched(Phase::Entropic, 50, 900, 3, 10);
    assert_eq!(next_schedule(s, 1000, false), (sched(Phase::Entropic, 51, 900, 4, 10), NONE));
    let s = sched(Phase::Entropic, 50, 900, 9, 10);
    let fin = SweepAction { trim: false, reset_visits: false, finalize: true };
    assert_eq!(next_schedule(s, 1000, false), (sched(Phase::Done, 51, 900, 10, 10), fin));
}

struct Toy {
    up: bool,
    was: bool,
}

impl Toy {
    fn energy(&self) -> i64 {
        if self.up {
            3
        } else {
            1
        }
    }
    fn change(&mut self) {
        self.was = self.up;
        self.up = !self.up;
    }
    fn undo(&mut self) {
        self.up = self.was;
    }
}

fn run(wl: &mut WangLandau, toy: &mut Toy, rng: &mut StdRng) -> u64 {
    let mut last_tries = 0;
    let mut last_t = 0;
    let mut steps = 0;
    while wl.current().phase != Phase::Done {
        let old_e = toy.energy();
        toy.change();
        let new_e = toy.energy();
        if wl.step(old_e, new_e, log_draw(rng)) {
            toy.undo();
        }
        let (tries, rejects) = wl.counts();
        assert!(tries >= rejects);
        assert!(tries > last_tries);
        assert!(wl.current().t >= last_t);
        assert_eq!(wl.estimate().bounds(), wl.visits().bounds());
        last_tries = tries;
        last_t = wl.current().t;
        steps += 1;
        assert!(steps < 10_000_000);
    }
    steps
}

#[test]
fn two_state_model_converges() {
    let mut rng = StdRng::seed_from_u64(7);
    let mut wl = WangLandau::new(0, 4);
    wl.bins(2);
    wl.lnf_final(LNF_ONE / 1000);
    let mut toy = Toy { up: false, was: false };
    let steps = run(&mut wl, &mut toy, &mut rng);
    let (tries, rejects) = wl.counts();
    assert_eq!(tries, steps);
    assert!(rejects <= tries);
    // one move per sweep; the entropic phase lasted twice the sweeps before it
    let end = wl.current();
    assert_eq!(tries, end.t);
    assert_eq!(end.t, 3 * (end.t - end.limit));
    assert_eq!(end.limit, 2 * (end.t - end.limit));
    let out = wl.output();
    assert_eq!(out.len(), 2);
    assert!(out[0].1 != 0 && out[1].1 != 0);
    assert_eq!(out[0].0, mcmc::Ratio { num: 4, den: 4 });
    assert_eq!(out[1].0, mcmc::Ratio { num: 12, den: 4 });
    // both states are equally many: the two estimates agree up to noise
    let diff = (out[0].1 - out[1].1).abs();
    assert!(diff < LNF_ONE / 10, "diff {}", diff);
}

#[test]
fn emergency_trim_keeps_bounds_paired() {
    let mut rng = StdRng::seed_from_u64(11);
    // only the first two of five bins are ever visited
    let mut wl = WangLandau::new(0, 10);
    wl.bins(5);
    wl.lnf_final(LNF_ONE / 100);
    let mut toy = Toy { up: false, was: false };
    run(&mut wl, &mut toy, &mut rng);
    assert_eq!(wl.estimate().bounds(), wl.visits().bounds());
    assert_eq!(wl.estimate().bins(), 2);
    assert_eq!(wl.estimate().bounds(), (mcmc::Ratio { num: 0, den: 5 }, mcmc::Ratio { num: 20, den: 5 }));
    assert_eq!(wl.output().len(), 2);
}

#[test]
fn simple_configuration() {
    let mut s = Simple::new(5u8);
    assert_eq!(s.num_iterations(), 1);
    s.iterations(30);
    assert_eq!(s.num_iterations(), 30);
    assert_eq!(*s.model(), 5);
    assert_eq!(s.into_model(), 5);
}
