//! Benchmark schedulers: the ad-hoc snapshot ([`QuickBench`]), the full
//! suite over every built-in preset × particle tier ([`BenchmarkRunner`]),
//! and the binary search for the largest particle count that holds a target
//! frame rate ([`CapacityBench`]).
//!
//! Each scheduler is a state machine over phases.  The caller measures time
//! and frame rates and hands in what it observed (a phase's time is up, a
//! measured rate passed the target, an estimate of the next particle count);
//! the scheduler decides the next phase and the action the caller performs.

use vstd::prelude::*;
use crate::simulation::MAX_PARTICLES;

verus! {

/// Number of built-in presets the suites cycle through.
pub const BUILTIN_COUNT: usize = 4;

/// Particle counts of the suite's tiers (all tiers use a 1280 × 720 world).
pub const BENCHMARK_TIER_PARTICLES: [usize; 4] = [10_000, 50_000, 100_000, 500_000];

/// Number of tiers in the suite.
pub const BENCHMARK_TIER_COUNT: usize = 4;

/// Total number of (preset × tier) combinations in the suite.
pub const NUM_COMBOS: usize = 16;

/// Maximum binary-search iterations per preset.
pub const CAPACITY_MAX_ITERS: u32 = 10;

/// Smallest particle count the capacity search tests.
pub const CAPACITY_MIN_N: usize = 10_000;

/// Index of the Ecosystem preset, whose warmup needs cliff detection.
pub const ECOSYSTEM_PRESET_IDX: usize = 2;

// ── Quick benchmark ──────────────────────────────────────────────────────────

/// Phase of a quick benchmark; `particles` is the count sampled when
/// collection began.
#[derive(Clone, Copy, Debug, PartialEq, Eq, Structural)]
pub enum QuickPhase {
    Idle,
    Warmup,
    Collecting { particles: u32 },
    Done { particles: u32 },
}

/// Next phase of a quick benchmark, and whether the run completed on this
/// frame.
pub open spec fn quick_step(p: QuickPhase, time_up: bool, particles: u32) -> (QuickPhase, bool) {
    match p {
        QuickPhase::Warmup => if time_up {
            (QuickPhase::Collecting { particles }, false)
        } else {
            (p, false)
        },
        QuickPhase::Collecting { particles: n } => if time_up {
            (QuickPhase::Done { particles: n }, true)
        } else {
            (p, false)
        },
        _ => (p, false),
    }
}

/// Ad-hoc single-point benchmark: a warmup, then frame-rate collection at
/// the particle count current when collection begins.
pub struct QuickBench {
    pub state: QuickPhase,
}

impl QuickBench {
    pub open spec fn phase(&self) -> QuickPhase {
        self.state
    }

    pub fn new() -> (r: Self)
        ensures
            r.phase() == QuickPhase::Idle,
    {
        QuickBench { state: QuickPhase::Idle }
    }

    /// Begin a new run; the particle count is sampled when collection begins.
    pub fn start(&mut self, particles: u32)
        ensures
            final(self).phase() == QuickPhase::Warmup,
    {
        self.state = QuickPhase::Warmup;
    }

    /// `true` while warmup or collection is in progress.
    pub fn is_running(&self) -> (r: bool)
        ensures
            r == (self.phase() == QuickPhase::Warmup || self.phase() is Collecting),
    {
        match self.state {
            QuickPhase::Warmup | QuickPhase::Collecting { .. } => true,
            _ => false,
        }
    }

    /// Drive one frame.  `time_up` tells whether the current phase's time
    /// has elapsed; returns `true` on the frame the run completes.
    pub fn advance(&mut self, time_up: bool, particles: u32) -> (r: bool)
        ensures
            (final(self).phase(), r) == quick_step(old(self).phase(), time_up, particles),
    {
        match self.state {
            QuickPhase::Warmup => {
                if time_up {
                    self.state = QuickPhase::Collecting { particles };
                }
                false
            },
            QuickPhase::Collecting { particles: n } => {
                if time_up {
                    self.state = QuickPhase::Done { particles: n };
                    true
                } else {
                    false
                }
            },
            _ => false,
        }
    }

    /// `Some(is_warmup)` while running; `None` when idle or done.
    pub fn progress(&self) -> (r: Option<bool>)
        ensures
            r == match self.phase() {
                QuickPhase::Warmup => Some(true),
                QuickPhase::Collecting { .. } => Some(false),
                _ => None::<bool>,
            },
    {
        match self.state {
            QuickPhase::Warmup => Some(true),
            QuickPhase::Collecting { .. } => Some(false),
            _ => None,
        }
    }

    /// The particle count of a completed run.
    pub fn result_particles(&self) -> (r: Option<u32>)
        ensures
            r == match self.phase() {
                QuickPhase::Done { particles } => Some(particles),
                _ => None::<u32>,
            },
    {
        match self.state {
            QuickPhase::Done { particles } => Some(particles),
            _ => None,
        }
    }
}

// ── Suite benchmark ──────────────────────────────────────────────────────────

/// Instruction returned by [`BenchmarkRunner::advance`] each frame.
#[must_use]
#[derive(Clone, Copy, Debug, PartialEq, Eq, Structural)]
pub enum BenchmarkAction {
    /// No state change needed; continue rendering normally.
    Continue,
    /// Apply the preset for this combo index and respawn particles.
    LoadCombo(usize),
    /// All combos finished.
    Done,
}

/// Phase of the suite: the combo under warmup or collection.
#[derive(Clone, Copy, Debug, PartialEq, Eq, Structural)]
pub enum SuitePhase {
    Idle,
    Warmup { combo: usize },
    Collect { combo: usize },
    Done,
}

/// Every combo a running suite refers to exists.
pub open spec fn suite_phase_ok(p: SuitePhase) -> bool {
    match p {
        SuitePhase::Warmup { combo } => combo < NUM_COMBOS,
        SuitePhase::Collect { combo } => combo < NUM_COMBOS,
        _ => true,
    }
}

/// One frame of the suite.  `time_up`: the current phase's time has elapsed;
/// `cap_hit`: the whole suite has run past its global time cap.
pub open spec fn suite_step(p: SuitePhase, time_up: bool, cap_hit: bool) -> (
    SuitePhase,
    BenchmarkAction,
) {
    match p {
        SuitePhase::Warmup { combo } => if time_up {
            (SuitePhase::Collect { combo }, BenchmarkAction::Continue)
        } else {
            (p, BenchmarkAction::Continue)
        },
        SuitePhase::Collect { combo } => if time_up || cap_hit {
            if combo + 1 >= NUM_COMBOS || cap_hit {
                (SuitePhase::Done, BenchmarkAction::Done)
            } else {
                (
                    SuitePhase::Warmup { combo: (combo + 1) as usize },
                    BenchmarkAction::LoadCombo((combo + 1) as usize),
                )
            }
        } else {
            (p, BenchmarkAction::Continue)
        },
        _ => (p, BenchmarkAction::Continue),
    }
}

/// The combos a suite has finished: combo `i` is the `i`-th finished, a
/// running suite has finished exactly the combos before the current one, an
/// idle suite has finished none (a cancel discards them), and a finished
/// suite has between one and all of them.
pub open spec fn suite_records_ok(p: SuitePhase, finished: Seq<usize>) -> bool {
    &&& forall|i: int| 0 <= i < finished.len() ==> #[trigger] finished[i] == i
    &&& match p {
        SuitePhase::Idle => finished.len() == 0,
        SuitePhase::Warmup { combo } => finished.len() == combo,
        SuitePhase::Collect { combo } => finished.len() == combo,
        SuitePhase::Done => 1 <= finished.len() <= NUM_COMBOS,
    }
}

/// The combo finished on a frame of [`suite_step`], if any: the one under
/// collection, once its time is up or the global cap is hit.
pub open spec fn suite_finished(p: SuitePhase, time_up: bool, cap_hit: bool) -> Option<usize> {
    match p {
        SuitePhase::Collect { combo } => if time_up || cap_hit {
            Some(combo)
        } else {
            None
        },
        _ => None,
    }
}

/// The list of finished combos after appending `f`, if any.
pub open spec fn finished_after(finished: Seq<usize>, f: Option<usize>) -> Seq<usize> {
    match f {
        Some(c) => finished.push(c),
        None => finished,
    }
}

/// The suite's phase and the combos it has finished, in order.
pub struct SuiteState {
    phase: SuitePhase,
    finished: Vec<usize>,
}

impl SuiteState {
    #[verifier::type_invariant]
    spec fn inv(&self) -> bool {
        &&& suite_phase_ok(self.phase)
        &&& suite_records_ok(self.phase, self.finished@)
    }
}

/// Runs the full suite: every built-in preset × tier combination, each with
/// a warmup and a collection phase.
pub struct BenchmarkRunner {
    pub state: SuiteState,
    pub vp_width: u32,
    pub vp_height: u32,
    /// When `true` (the default), the suite runs with vsync disabled.
    pub vsync_off: bool,
}

impl BenchmarkRunner {
    pub closed spec fn phase(&self) -> SuitePhase {
        self.state.phase
    }

    /// The combos finished so far, in the order they finished.
    pub closed spec fn finished(&self) -> Seq<usize> {
        self.state.finished@
    }

    pub fn new() -> (r: Self)
        ensures
            r.phase() == SuitePhase::Idle,
            r.finished().len() == 0,
            r.vp_width == 0,
            r.vp_height == 0,
            r.vsync_off,
    {
        BenchmarkRunner {
            state: SuiteState { phase: SuitePhase::Idle, finished: Vec::new() },
            vp_width: 0,
            vp_height: 0,
            vsync_off: true,
        }
    }

    /// Total number of (preset × tier) combinations in the suite.
    pub fn num_combos() -> (r: usize)
        ensures
            r == BUILTIN_COUNT * BENCHMARK_TIER_COUNT,
            r == NUM_COMBOS,
    {
        BUILTIN_COUNT * BENCHMARK_TIER_COUNT
    }

    /// Which built-in preset a flat combo index maps to.
    pub fn combo_preset_idx(combo: usize) -> (r: usize)
        ensures
            r == combo / BENCHMARK_TIER_COUNT,
    {
        combo / BENCHMARK_TIER_COUNT
    }

    /// Which tier a flat combo index maps to.
    pub fn combo_tier_idx(combo: usize) -> (r: usize)
        ensures
            r == combo % BENCHMARK_TIER_COUNT,
    {
        combo % BENCHMARK_TIER_COUNT
    }

    /// `true` while any combo is in warmup or collection.
    pub fn is_running(&self) -> (r: bool)
        ensures
            r == (self.phase() is Warmup || self.phase() is Collect),
    {
        match self.state.phase {
            SuitePhase::Warmup { .. } | SuitePhase::Collect { .. } => true,
            _ => false,
        }
    }

    /// `true` after all combos have finished.
    pub fn is_done(&self) -> (r: bool)
        ensures
            r == (self.phase() is Done),
    {
        match self.state.phase {
            SuitePhase::Done => true,
            _ => false,
        }
    }

    /// The combos finished so far, in order; combo `i` is entry `i`.
    pub fn finished_combos(&self) -> (r: &[usize])
        ensures
            r@ == self.finished(),
            suite_phase_ok(self.phase()),
            suite_records_ok(self.phase(), self.finished()),
    {
        proof {
            use_type_invariant(&self.state);
        }
        self.state.finished.as_slice()
    }

    /// Abort a running suite and return to idle, discarding the combos
    /// finished so far.
    pub fn cancel(&mut self)
        ensures
            final(self).phase() == SuitePhase::Idle,
            final(self).finished().len() == 0,
            final(self).vp_width == old(self).vp_width,
            final(self).vp_height == old(self).vp_height,
            final(self).vsync_off == old(self).vsync_off,
    {
        self.state = SuiteState { phase: SuitePhase::Idle, finished: Vec::new() };
    }

    /// The combo whose frame rates are being collected, if any.
    pub fn collecting_combo(&self) -> (r: Option<usize>)
        ensures
            r == match self.phase() {
                SuitePhase::Collect { combo } => Some(combo),
                _ => None::<usize>,
            },
    {
        match self.state.phase {
            SuitePhase::Collect { combo } => Some(combo),
            _ => None,
        }
    }

    /// `(current_combo, total_combos, is_warmup)` while running; the
    /// current combo is also the number of combos finished.
    pub fn progress(&self) -> (r: Option<(usize, usize, bool)>)
        ensures
            r == match self.phase() {
                SuitePhase::Warmup { combo } => Some((combo, NUM_COMBOS, true)),
                SuitePhase::Collect { combo } => Some((combo, NUM_COMBOS, false)),
                _ => None::<(usize, usize, bool)>,
            },
            r matches Some(p) ==> p.0 < p.1 && p.0 == self.finished().len(),
    {
        proof {
            use_type_invariant(&self.state);
        }
        match self.state.phase {
            SuitePhase::Warmup { combo } => Some((combo, Self::num_combos(), true)),
            SuitePhase::Collect { combo } => Some((combo, Self::num_combos(), false)),
            _ => None,
        }
    }

    /// Kick off a fresh run, forgetting any earlier one; returns
    /// `LoadCombo(0)`.
    pub fn start(&mut self, vp_w: u32, vp_h: u32) -> (r: BenchmarkAction)
        ensures
            final(self).phase() == (SuitePhase::Warmup { combo: 0 }),
            final(self).finished().len() == 0,
            final(self).vp_width == vp_w,
            final(self).vp_height == vp_h,
            final(self).vsync_off == old(self).vsync_off,
            r == BenchmarkAction::LoadCombo(0),
    {
        self.vp_width = vp_w;
        self.vp_height = vp_h;
        self.state = SuiteState { phase: SuitePhase::Warmup { combo: 0 }, finished: Vec::new() };
        BenchmarkAction::LoadCombo(0)
    }

    /// Drive one frame.  `time_up`: the current phase's time has elapsed;
    /// `cap_hit`: the suite has run past its global time cap.  A combo that
    /// finishes is appended to the finished list.
    pub fn advance(&mut self, time_up: bool, cap_hit: bool) -> (r: BenchmarkAction)
        ensures
            (final(self).phase(), r) == suite_step(old(self).phase(), time_up, cap_hit),
            final(self).finished() == finished_after(
                old(self).finished(),
                suite_finished(old(self).phase(), time_up, cap_hit),
            ),
            suite_records_ok(final(self).phase(), final(self).finished()),
            final(self).vp_width == old(self).vp_width,
            final(self).vp_height == old(self).vp_height,
            final(self).vsync_off == old(self).vsync_off,
    {
        proof {
            use_type_invariant(&self.state);
        }
        let (phase, action, finished) = match self.state.phase {
            SuitePhase::Warmup { combo } => {
                if time_up {
                    (SuitePhase::Collect { combo }, BenchmarkAction::Continue, None)
                } else {
                    return BenchmarkAction::Continue;
                }
            },
            SuitePhase::Collect { combo } => {
                if time_up || cap_hit {
                    if combo + 1 >= Self::num_combos() || cap_hit {
                        (SuitePhase::Done, BenchmarkAction::Done, Some(combo))
                    } else {
                        let next = combo + 1;
                        (SuitePhase::Warmup { combo: next }, BenchmarkAction::LoadCombo(next), Some(combo))
                    }
                } else {
                    return BenchmarkAction::Continue;
                }
            },
            _ => return BenchmarkAction::Continue,
        };
        let mut old_state = SuiteState { phase: SuitePhase::Idle, finished: Vec::new() };
        std::mem::swap(&mut old_state, &mut self.state);
        proof {
            use_type_invariant(&old_state);
        }
        let SuiteState { phase: _, finished: mut done } = old_state;
        match finished {
            Some(c) => done.push(c),
            None => {},
        }
        proof {
            lemma_suite_records_step(old(self).phase(), old(self).finished(), time_up, cap_hit);
        }
        self.state = SuiteState { phase, finished: done };
        action
    }
}

/// Position of a suite phase in the run order: combos are warmed up and
/// collected one after another, and `Done` comes last.
pub open spec fn suite_rank(p: SuitePhase) -> int {
    match p {
        SuitePhase::Idle => 0,
        SuitePhase::Warmup { combo } => 2 * combo + 1,
        SuitePhase::Collect { combo } => 2 * combo + 2,
        SuitePhase::Done => 2 * NUM_COMBOS + 1,
    }
}

/// A running suite only moves forward: each frame keeps its phase or moves
/// to a later one, every combo it asks to load exists and is the one after
/// the combo just collected, and `Done` is final.
pub proof fn lemma_suite_moves_forward(p: SuitePhase, time_up: bool, cap_hit: bool)
    requires
        suite_phase_ok(p),
    ensures
        ({
            let (q, a) = suite_step(p, time_up, cap_hit);
            &&& suite_phase_ok(q)
            &&& suite_rank(p) <= suite_rank(q)
            &&& (p is Done ==> q is Done)
            &&& (a matches BenchmarkAction::LoadCombo(k) ==> k < NUM_COMBOS && p
                == SuitePhase::Collect { combo: (k - 1) as usize } && q == SuitePhase::Warmup {
                combo: k,
            })
            &&& (a is Done ==> q is Done)
        }),
{
}

/// Every frame keeps the finished list in step with the run: combo `i` is
/// the `i`-th finished, a running suite has finished exactly the combos
/// before the current one, a combo it asks to load is the next one to
/// finish, and a suite that reports `Done` has finished between one and all
/// combos.
pub proof fn lemma_suite_records_step(
    p: SuitePhase,
    finished: Seq<usize>,
    time_up: bool,
    cap_hit: bool,
)
    requires
        suite_phase_ok(p),
        suite_records_ok(p, finished),
    ensures
        ({
            let (q, a) = suite_step(p, time_up, cap_hit);
            let f = finished_after(finished, suite_finished(p, time_up, cap_hit));
            &&& suite_records_ok(q, f)
            &&& (a matches BenchmarkAction::LoadCombo(k) ==> k == f.len())
            &&& (a is Done ==> 1 <= f.len() <= NUM_COMBOS)
        }),
{
    let f = finished_after(finished, suite_finished(p, time_up, cap_hit));
    assert forall|i: int| 0 <= i < f.len() implies #[trigger] f[i] == i by {
        if i < finished.len() {
            assert(f[i] == finished[i]);
        }
    }
}

// ── Capacity benchmark ───────────────────────────────────────────────────────

/// Action returned by [`CapacityBench::advance`].
#[must_use]
#[derive(Clone, Copy, Debug, PartialEq, Eq, Structural)]
pub enum CapacityAction {
    Continue,
    /// Apply built-in preset `preset_idx` at `particles` count.
    LoadPreset { preset_idx: usize, particles: usize },
    Done,
}

/// Binary-search bounds for one preset: `lo` passed (or is the floor), `hi`
/// failed (or is the cap), `mid` is under test.
#[derive(Clone, Copy, Debug, PartialEq, Eq, Structural)]
pub struct SearchBounds {
    pub preset_idx: usize,
    pub lo: usize,
    pub hi: usize,
    pub mid: usize,
    pub iter: u32,
}

/// Phase of the capacity search.
#[derive(Clone, Copy, Debug, PartialEq, Eq, Structural)]
pub enum CapPhase {
    Idle,
    Warmup(SearchBounds),
    Collect(SearchBounds),
    Done,
}

/// One preset's finished search.
#[derive(Clone, Copy, Debug, PartialEq, Eq, Structural)]
pub struct CapacityOutcome {
    pub preset_idx: usize,
    /// Largest particle count measured at or above the target rate; zero
    /// when no count tested (none below [`CAPACITY_MIN_N`] is) reached it.
    pub max_particles: usize,
    /// `max_particles` reached [`MAX_PARTICLES`].
    pub capped: bool,
}

/// Integer part of a capacity-search progress report.
#[derive(Clone, Copy, Debug)]
pub struct SearchProgress {
    pub preset_idx: usize,
    pub total_presets: usize,
    pub iter: u32,
    pub max_iters: u32,
    pub particles: usize,
    pub is_warmup: bool,
}

/// The bounds of a search in progress are nested within the search range.
pub open spec fn bounds_ok(b: SearchBounds) -> bool {
    &&& b.preset_idx < BUILTIN_COUNT
    &&& CAPACITY_MIN_N <= b.lo < b.mid < b.hi <= MAX_PARTICLES
    &&& b.iter < CAPACITY_MAX_ITERS
}

pub open spec fn cap_phase_ok(p: CapPhase) -> bool {
    match p {
        CapPhase::Warmup(b) => bounds_ok(b),
        CapPhase::Collect(b) => bounds_ok(b),
        _ => true,
    }
}

/// `raw` rounded to the nearest thousand, clamped to `[lo + 1, hi - 1]`,
/// capped at [`MAX_PARTICLES`], and kept only if strictly between `lo`
/// and `hi`.
pub open spec fn bracketed(raw: int, lo: int, hi: int) -> Option<usize> {
    let r = ((raw + 500) / 1000) * 1000;
    let c = if r < lo + 1 {
        lo + 1
    } else if r > hi - 1 {
        hi - 1
    } else {
        r
    };
    let m = if c > MAX_PARTICLES {
        MAX_PARTICLES as int
    } else {
        c
    };
    if m <= lo || m >= hi {
        None
    } else {
        Some(m as usize)
    }
}

/// Round an estimated particle count `raw` to the nearest thousand and keep
/// it strictly inside `(lo, hi)`; `None` when no such count results.
pub fn bracket_mid(raw: usize, lo: usize, hi: usize) -> (r: Option<usize>)
    requires
        lo + 2 <= hi,
    ensures
        r == bracketed(raw as int, lo as int, hi as int),
        r matches Some(m) ==> lo < m < hi && m <= MAX_PARTICLES,
{
    let rounded: u128 = ((raw as u128 + 500) / 1000) * 1000;
    let c: usize = if rounded < (lo as u128) + 1 {
        lo + 1
    } else if rounded > (hi as u128) - 1 {
        hi - 1
    } else {
        rounded as usize
    };
    let m = if c > MAX_PARTICLES {
        MAX_PARTICLES
    } else {
        c
    };
    if m <= lo || m >= hi {
        None
    } else {
        Some(m)
    }
}

/// Next count to test: the interpolated estimate when one is given and
/// brackets, else the geometric estimate.
pub open spec fn next_mid_choice(lo: int, hi: int, interp: Option<usize>, geo: usize) -> Option<usize> {
    match interp {
        Some(x) => match bracketed(x as int, lo, hi) {
            Some(m) => Some(m),
            None => bracketed(geo as int, lo, hi),
        },
        None => bracketed(geo as int, lo, hi),
    }
}

/// Bounds after measuring `b.mid`: raise `lo` to it when it passed, else
/// lower `hi` to it.
pub open spec fn bounds_after_spec(b: SearchBounds, passed: bool) -> (usize, usize) {
    if passed {
        (b.mid, b.hi)
    } else {
        (b.lo, b.mid)
    }
}

/// The search goes on while iterations remain and `hi / lo` is still at
/// least 1.10.
pub open spec fn keeps_searching(lo: int, hi: int, iter: int) -> bool {
    iter + 1 < CAPACITY_MAX_ITERS && 10 * hi >= 11 * (if lo < 1 {
        1
    } else {
        lo
    })
}

/// Bounds of a fresh search for `preset_idx`, testing `first_mid` first.
pub open spec fn fresh_bounds(preset_idx: usize, first_mid: usize) -> SearchBounds {
    SearchBounds { preset_idx, lo: CAPACITY_MIN_N, hi: MAX_PARTICLES, mid: first_mid, iter: 0 }
}

/// The first count a search tests, from an estimate of the geometric mean of
/// the search range.
pub open spec fn first_mid_spec(estimate: usize) -> usize {
    match bracketed(estimate as int, CAPACITY_MIN_N as int, MAX_PARTICLES as int) {
        Some(m) => m,
        None => ((CAPACITY_MIN_N + MAX_PARTICLES) / 2) as usize,
    }
}

/// One frame of the capacity search: the next phase, the action, and the
/// outcome recorded on this frame, if any.
pub open spec fn capacity_step(
    p: CapPhase,
    phase_done: bool,
    passed: bool,
    interp: Option<usize>,
    geo: usize,
    first_mid: usize,
) -> (CapPhase, CapacityAction, Option<CapacityOutcome>) {
    match p {
        CapPhase::Warmup(b) => if phase_done {
            (CapPhase::Collect(b), CapacityAction::Continue, None)
        } else {
            (p, CapacityAction::Continue, None)
        },
        CapPhase::Collect(b) => if !phase_done {
            (p, CapacityAction::Continue, None)
        } else {
            let (lo, hi) = bounds_after_spec(b, passed);
            let next = if keeps_searching(lo as int, hi as int, b.iter as int) {
                next_mid_choice(lo as int, hi as int, interp, geo)
            } else {
                None
            };
            match next {
                Some(m) => (
                    CapPhase::Warmup(
                        SearchBounds {
                            preset_idx: b.preset_idx,
                            lo,
                            hi,
                            mid: m,
                            iter: (b.iter + 1) as u32,
                        },
                    ),
                    CapacityAction::LoadPreset { preset_idx: b.preset_idx, particles: m },
                    None,
                ),
                None => {
                    let out = CapacityOutcome {
                        preset_idx: b.preset_idx,
                        max_particles: if lo > CAPACITY_MIN_N {
                            lo
                        } else {
                            0
                        },
                        capped: lo >= MAX_PARTICLES,
                    };
                    if b.preset_idx + 1 >= BUILTIN_COUNT {
                        (CapPhase::Done, CapacityAction::Done, Some(out))
                    } else {
                        let nb = fresh_bounds((b.preset_idx + 1) as usize, first_mid);
                        (
                            CapPhase::Warmup(nb),
                            CapacityAction::LoadPreset {
                                preset_idx: nb.preset_idx,
                                particles: first_mid,
                            },
                            Some(out),
                        )
                    }
                },
            }
        },
        _ => (p, CapacityAction::Continue, None),
    }
}


/// The outcomes a capacity search keeps: outcome `i` is preset `i`'s, a
/// running search has one outcome per preset before the current one, an
/// idle search has none (a cancel discards them), and a finished search has
/// one for every built-in preset.
pub open spec fn cap_records_ok(p: CapPhase, outs: Seq<CapacityOutcome>) -> bool {
    &&& forall|i: int| 0 <= i < outs.len() ==> (#[trigger] outs[i]).preset_idx == i
    &&& match p {
        CapPhase::Idle => outs.len() == 0,
        CapPhase::Warmup(b) => outs.len() == b.preset_idx,
        CapPhase::Collect(b) => outs.len() == b.preset_idx,
        CapPhase::Done => outs.len() == BUILTIN_COUNT,
    }
}

/// The counts measured for the current preset, each with whether it met
/// the target, agree with the bounds `[lo, hi]`: every count measured lies
/// above the floor, every passing count is at most `lo`, every failing count
/// at least `hi`, and a `lo` above the floor is itself a passing count.
pub open spec fn history_fits(lo: usize, hi: usize, hist: Seq<(usize, bool)>) -> bool {
    &&& forall|i: int|
        0 <= i < hist.len() ==> CAPACITY_MIN_N < (#[trigger] hist[i]).0 && (hist[i].1
            ==> hist[i].0 <= lo) && (!hist[i].1 ==> hist[i].0 >= hi)
    &&& lo > CAPACITY_MIN_N ==> exists|i: int| 0 <= i < hist.len() && #[trigger] hist[i] == (lo, true)
}

/// The measurements of a running search fit its bounds; an idle or finished
/// search holds none.
pub open spec fn cap_history_ok(p: CapPhase, hist: Seq<(usize, bool)>) -> bool {
    match p {
        CapPhase::Warmup(b) => history_fits(b.lo, b.hi, hist),
        CapPhase::Collect(b) => history_fits(b.lo, b.hi, hist),
        _ => hist.len() == 0,
    }
}

/// The measurements after a frame: a finished collection adds its count and
/// verdict, and a preset's measurements are dropped once its outcome is
/// recorded.
pub open spec fn measured_after(
    p: CapPhase,
    phase_done: bool,
    passed: bool,
    recorded: bool,
    hist: Seq<(usize, bool)>,
) -> Seq<(usize, bool)> {
    match p {
        CapPhase::Collect(b) => if !phase_done {
            hist
        } else if recorded {
            Seq::empty()
        } else {
            hist.push((b.mid, passed))
        },
        _ => hist,
    }
}

/// An outcome is the largest count measured that met the target, or zero
/// when none did, and every larger count measured failed.
pub open spec fn outcome_fits(o: CapacityOutcome, hist: Seq<(usize, bool)>) -> bool {
    &&& (o.max_particles == 0) == (forall|i: int| 0 <= i < hist.len() ==> !(#[trigger] hist[i]).1)
    &&& o.max_particles != 0 ==> exists|i: int|
        0 <= i < hist.len() && #[trigger] hist[i] == (o.max_particles, true)
    &&& forall|i: int| 0 <= i < hist.len() && (#[trigger] hist[i]).1 ==> hist[i].0 <= o.max_particles
    &&& forall|i: int| 0 <= i < hist.len() && !(#[trigger] hist[i]).1 ==> hist[i].0 > o.max_particles
}

/// The capacity search's phase, the outcomes recorded so far and the
/// counts measured for the current preset, kept consistent with each other.
pub struct CapState {
    phase: CapPhase,
    first_mid: usize,
    outcomes: Vec<CapacityOutcome>,
    measured: Ghost<Seq<(usize, bool)>>,
}

impl CapState {
    #[verifier::type_invariant]
    spec fn inv(&self) -> bool {
        &&& cap_phase_ok(self.phase)
        &&& CAPACITY_MIN_N < self.first_mid < MAX_PARTICLES
        &&& cap_records_ok(self.phase, self.outcomes@)
        &&& cap_history_ok(self.phase, self.measured@)
    }
}

/// Binary search for the largest particle count sustainable at a target
/// frame rate, for each built-in preset in turn.
pub struct CapacityBench {
    pub state: CapState,
    pub vp_width: u32,
    pub vp_height: u32,
}

impl CapacityBench {
    pub closed spec fn phase(&self) -> CapPhase {
        self.state.phase
    }

    /// The count each preset's search tests first.
    pub closed spec fn first_mid(&self) -> usize {
        self.state.first_mid
    }

    /// One outcome per finished preset, in search order.
    pub closed spec fn recorded(&self) -> Seq<CapacityOutcome> {
        self.state.outcomes@
    }

    /// The counts measured so far for the current preset, in order, each
    /// with whether it met the target.
    pub closed spec fn measured(&self) -> Seq<(usize, bool)> {
        self.state.measured@
    }

    pub fn new() -> (r: Self)
        ensures
            r.phase() == CapPhase::Idle,
            r.recorded().len() == 0,
            r.measured().len() == 0,
            r.vp_width == 0,
            r.vp_height == 0,
    {
        CapacityBench {
            state: CapState {
                phase: CapPhase::Idle,
                first_mid: (CAPACITY_MIN_N + MAX_PARTICLES) / 2,
                outcomes: Vec::new(),
                measured: Ghost(Seq::empty()),
            },
            vp_width: 0,
            vp_height: 0,
        }
    }

    /// The outcomes recorded so far, in preset order.
    pub fn outcomes(&self) -> (r: &[CapacityOutcome])
        ensures
            r@ == self.recorded(),
            cap_phase_ok(self.phase()),
            cap_records_ok(self.phase(), self.recorded()),
            cap_history_ok(self.phase(), self.measured()),
    {
        proof {
            use_type_invariant(&self.state);
        }
        self.state.outcomes.as_slice()
    }

    /// `true` while any preset is in warmup or collection.
    pub fn is_running(&self) -> (r: bool)
        ensures
            r == (self.phase() is Warmup || self.phase() is Collect),
    {
        match self.state.phase {
            CapPhase::Warmup(_) | CapPhase::Collect(_) => true,
            _ => false,
        }
    }

    /// Abort a running search and return to idle, discarding partial results.
    pub fn cancel(&mut self)
        ensures
            final(self).phase() == CapPhase::Idle,
            final(self).first_mid() == old(self).first_mid(),
            final(self).recorded().len() == 0,
            final(self).measured().len() == 0,
            final(self).vp_width == old(self).vp_width,
            final(self).vp_height == old(self).vp_height,
    {
        proof {
            use_type_invariant(&self.state);
        }
        let fm = self.state.first_mid;
        self.state = CapState {
            phase: CapPhase::Idle,
            first_mid: fm,
            outcomes: Vec::new(),
            measured: Ghost(Seq::empty()),
        };
    }

    /// `true` after all presets have been searched.
    pub fn is_done(&self) -> (r: bool)
        ensures
            r == (self.phase() is Done),
    {
        match self.state.phase {
            CapPhase::Done => true,
            _ => false,
        }
    }

    /// The bounds under test, if a search is running.
    pub fn bounds(&self) -> (r: Option<SearchBounds>)
        ensures
            r == match self.phase() {
                CapPhase::Warmup(b) => Some(b),
                CapPhase::Collect(b) => Some(b),
                _ => None::<SearchBounds>,
            },
            r matches Some(b) ==> bounds_ok(b),
    {
        proof {
            use_type_invariant(&self.state);
        }
        match self.state.phase {
            CapPhase::Warmup(b) => Some(b),
            CapPhase::Collect(b) => Some(b),
            _ => None,
        }
    }

    /// `(lo, hi)` after the count under collection passes or fails.
    pub fn bounds_after(&self, passed: bool) -> (r: Option<(usize, usize)>)
        ensures
            r == match self.phase() {
                CapPhase::Collect(b) => Some(bounds_after_spec(b, passed)),
                _ => None::<(usize, usize)>,
            },
    {
        match self.state.phase {
            CapPhase::Collect(b) => if passed {
                Some((b.mid, b.hi))
            } else {
                Some((b.lo, b.mid))
            },
            _ => None,
        }
    }

    /// Progress while running; `None` when idle or done.  The preset under
    /// search is also the number of outcomes recorded.
    pub fn progress(&self) -> (r: Option<SearchProgress>)
        ensures
            match self.phase() {
                CapPhase::Warmup(b) => r matches Some(q) && q.preset_idx == b.preset_idx
                    && q.iter == b.iter && q.particles == b.mid && q.is_warmup,
                CapPhase::Collect(b) => r matches Some(q) && q.preset_idx == b.preset_idx
                    && q.iter == b.iter && q.particles == b.mid && !q.is_warmup,
                _ => r is None,
            },
            r matches Some(q) ==> q.total_presets == BUILTIN_COUNT && q.max_iters
                == CAPACITY_MAX_ITERS && q.preset_idx == self.recorded().len() && q.preset_idx
                < BUILTIN_COUNT && q.iter < CAPACITY_MAX_ITERS && CAPACITY_MIN_N < q.particles
                < MAX_PARTICLES,
    {
        proof {
            use_type_invariant(&self.state);
        }
        match self.state.phase {
            CapPhase::Warmup(b) => Some(
                SearchProgress {
                    preset_idx: b.preset_idx,
                    total_presets: BUILTIN_COUNT,
                    iter: b.iter,
                    max_iters: CAPACITY_MAX_ITERS,
                    particles: b.mid,
                    is_warmup: true,
                },
            ),
            CapPhase::Collect(b) => Some(
                SearchProgress {
                    preset_idx: b.preset_idx,
                    total_presets: BUILTIN_COUNT,
                    iter: b.iter,
                    max_iters: CAPACITY_MAX_ITERS,
                    particles: b.mid,
                    is_warmup: false,
                },
            ),
            _ => None,
        }
    }

    /// Kick off a fresh search, discarding earlier outcomes.
    /// `first_estimate` estimates the geometric mean of the search range;
    /// the first count tested is that estimate rounded and bracketed, or the
    /// midpoint of the range.
    pub fn start(&mut self, vp_w: u32, vp_h: u32, first_estimate: usize) -> (r: CapacityAction)
        ensures
            final(self).first_mid() == first_mid_spec(first_estimate),
            final(self).phase() == CapPhase::Warmup(fresh_bounds(0, first_mid_spec(first_estimate))),
            final(self).recorded().len() == 0,
            final(self).measured().len() == 0,
            final(self).vp_width == vp_w,
            final(self).vp_height == vp_h,
            r == (CapacityAction::LoadPreset { preset_idx: 0, particles: first_mid_spec(first_estimate) }),
    {
        self.vp_width = vp_w;
        self.vp_height = vp_h;
        let mid = match bracket_mid(first_estimate, CAPACITY_MIN_N, MAX_PARTICLES) {
            Some(m) => m,
            None => (CAPACITY_MIN_N + MAX_PARTICLES) / 2,
        };
        self.state = CapState {
            phase: CapPhase::Warmup(
                SearchBounds { preset_idx: 0, lo: CAPACITY_MIN_N, hi: MAX_PARTICLES, mid, iter: 0 },
            ),
            first_mid: mid,
            outcomes: Vec::new(),
            measured: Ghost(Seq::empty()),
        };
        CapacityAction::LoadPreset { preset_idx: 0, particles: mid }
    }

    /// Drive one frame.  `phase_done`: in warmup, the frame rate is ready to
    /// collect; in collection, the collection time has elapsed.  `passed`:
    /// the collected average met the target.  `interp_estimate` and
    /// `geo_estimate` estimate the next count for the bounds that
    /// [`bounds_after`](Self::bounds_after) reports.
    pub fn advance(
        &mut self,
        phase_done: bool,
        passed: bool,
        interp_estimate: Option<usize>,
        geo_estimate: usize,
    ) -> (r: CapacityAction)
        ensures
            ({
                let (q, a, out) = capacity_step(
                    old(self).phase(),
                    phase_done,
                    passed,
                    interp_estimate,
                    geo_estimate,
                    old(self).first_mid(),
                );
                &&& final(self).phase() == q
                &&& r == a
                &&& final(self).recorded() == match out {
                    Some(o) => old(self).recorded().push(o),
                    None => old(self).recorded(),
                }
                &&& final(self).measured() == measured_after(
                    old(self).phase(),
                    phase_done,
                    passed,
                    out is Some,
                    old(self).measured(),
                )
                &&& (out matches Some(o) ==> old(self).phase() matches CapPhase::Collect(b)
                    && outcome_fits(o, old(self).measured().push((b.mid, passed))))
            }),
            cap_records_ok(final(self).phase(), final(self).recorded()),
            cap_history_ok(final(self).phase(), final(self).measured()),
            final(self).first_mid() == old(self).first_mid(),
            final(self).vp_width == old(self).vp_width,
            final(self).vp_height == old(self).vp_height,
    {
        proof {
            use_type_invariant(&self.state);
            lemma_capacity_step_keeps_bounds(
                self.state.phase,
                phase_done,
                passed,
                interp_estimate,
                geo_estimate,
                self.state.first_mid,
            );
            lemma_capacity_records_step(
                self.state.phase,
                self.state.outcomes@,
                phase_done,
                passed,
                interp_estimate,
                geo_estimate,
                self.state.first_mid,
            );
        }
        let fm = self.state.first_mid;
        let b = match self.state.phase {
            CapPhase::Warmup(b) => {
                if phase_done {
                    let mut old_state = CapState {
                        phase: CapPhase::Idle,
                        first_mid: fm,
                        outcomes: Vec::new(),
                        measured: Ghost(Seq::empty()),
                    };
                    std::mem::swap(&mut old_state, &mut self.state);
                    proof {
                        use_type_invariant(&old_state);
                    }
                    let CapState { phase: _, first_mid: _, outcomes, measured } = old_state;
                    self.state = CapState { phase: CapPhase::Collect(b), first_mid: fm, outcomes, measured };
                }
                return CapacityAction::Continue;
            },
            CapPhase::Collect(b) => {
                if !phase_done {
                    return CapacityAction::Continue;
                }
                b
            },
            _ => return CapacityAction::Continue,
        };
        proof {
            lemma_capacity_outcome_is_largest_pass(
                b,
                passed,
                interp_estimate,
                geo_estimate,
                fm,
                self.state.measured@,
            );
        }
        let (lo, hi) = if passed {
            (b.mid, b.hi)
        } else {
            (b.lo, b.mid)
        };
        let lo_floor = if lo < 1 {
            1
        } else {
            lo
        };
        let searching = b.iter + 1 < CAPACITY_MAX_ITERS && 10 * hi >= 11 * lo_floor;
        let next = if searching {
            let first = match interp_estimate {
                Some(x) => bracket_mid(x, lo, hi),
                None => None,
            };
            match first {
                Some(m) => Some(m),
                None => bracket_mid(geo_estimate, lo, hi),
            }
        } else {
            None
        };
        let mut old_state = CapState {
            phase: CapPhase::Idle,
            first_mid: fm,
            outcomes: Vec::new(),
            measured: Ghost(Seq::empty()),
        };
        std::mem::swap(&mut old_state, &mut self.state);
        proof {
            use_type_invariant(&old_state);
        }
        let CapState { phase: _, first_mid: _, outcomes: mut outs, measured } = old_state;
        match next {
            Some(m) => {
                let ghost h = measured@.push((b.mid, passed));
                self.state = CapState {
                    phase: CapPhase::Warmup(
                        SearchBounds { preset_idx: b.preset_idx, lo, hi, mid: m, iter: b.iter + 1 },
                    ),
                    first_mid: fm,
                    outcomes: outs,
                    measured: Ghost(h),
                };
                CapacityAction::LoadPreset { preset_idx: b.preset_idx, particles: m }
            },
            None => {
                let max_particles = if lo > CAPACITY_MIN_N {
                    lo
                } else {
                    0
                };
                outs.push(
                    CapacityOutcome { preset_idx: b.preset_idx, max_particles, capped: lo >= MAX_PARTICLES },
                );
                if b.preset_idx + 1 >= BUILTIN_COUNT {
                    self.state = CapState {
                        phase: CapPhase::Done,
                        first_mid: fm,
                        outcomes: outs,
                        measured: Ghost(Seq::empty()),
                    };
                    CapacityAction::Done
                } else {
                    let next_idx = b.preset_idx + 1;
                    self.state = CapState {
                        phase: CapPhase::Warmup(
                            SearchBounds {
                                preset_idx: next_idx,
                                lo: CAPACITY_MIN_N,
                                hi: MAX_PARTICLES,
                                mid: fm,
                                iter: 0,
                            },
                        ),
                        first_mid: fm,
                        outcomes: outs,
                        measured: Ghost(Seq::empty()),
                    };
                    CapacityAction::LoadPreset { preset_idx: next_idx, particles: fm }
                }
            },
        }
    }
}

/// What every frame of a capacity search keeps: the bounds stay nested in
/// the search range, every load request names an existing preset and a count
/// strictly inside the range and is the phase the search moves to, within
/// one preset the iteration count grows and the bracket `[lo, hi]` only
/// narrows, and every recorded outcome is zero or a count strictly inside
/// the range, so none is ever capped.
pub proof fn lemma_capacity_step_keeps_bounds(
    p: CapPhase,
    phase_done: bool,
    passed: bool,
    interp: Option<usize>,
    geo: usize,
    first_mid: usize,
)
    requires
        cap_phase_ok(p),
        CAPACITY_MIN_N < first_mid < MAX_PARTICLES,
    ensures
        ({
            let (q, a, out) = capacity_step(p, phase_done, passed, interp, geo, first_mid);
            &&& cap_phase_ok(q)
            &&& (a matches CapacityAction::LoadPreset { preset_idx, particles } ==> preset_idx
                < BUILTIN_COUNT && CAPACITY_MIN_N < particles < MAX_PARTICLES && (q matches CapPhase::Warmup(c)
                && c.preset_idx == preset_idx && c.mid == particles))
            &&& (out matches Some(o) ==> (o.max_particles == 0 || CAPACITY_MIN_N < o.max_particles
                < MAX_PARTICLES) && !o.capped && o.preset_idx < BUILTIN_COUNT)
            &&& (p matches CapPhase::Collect(b) ==> (q matches CapPhase::Warmup(c) ==> (c.preset_idx
                == b.preset_idx ==> c.iter == b.iter + 1 && b.lo <= c.lo && c.hi <= b.hi)))
        }),
{
    match p {
        CapPhase::Collect(b) => {
            if phase_done {
                let (lo, hi) = bounds_after_spec(b, passed);
                assert(lo + 2 <= hi || !keeps_searching(lo as int, hi as int, b.iter as int));
            }
        },
        _ => {},
    }
}

/// Every frame keeps the outcomes in step with the search: outcome `i` is
/// preset `i`'s, a running search has one outcome per preset before the
/// current one, a load request for a new preset comes right after that
/// preset's predecessor recorded its outcome, and `Done` comes with one
/// outcome for every built-in preset.
pub proof fn lemma_capacity_records_step(
    p: CapPhase,
    outs: Seq<CapacityOutcome>,
    phase_done: bool,
    passed: bool,
    interp: Option<usize>,
    geo: usize,
    first_mid: usize,
)
    requires
        cap_phase_ok(p),
        cap_records_ok(p, outs),
        CAPACITY_MIN_N < first_mid < MAX_PARTICLES,
    ensures
        ({
            let (q, a, out) = capacity_step(p, phase_done, passed, interp, geo, first_mid);
            let outs2 = match out {
                Some(o) => outs.push(o),
                None => outs,
            };
            &&& cap_records_ok(q, outs2)
            &&& (a matches CapacityAction::LoadPreset { preset_idx, particles } ==> preset_idx
                == outs2.len())
            &&& (a is Done ==> outs2.len() == BUILTIN_COUNT)
        }),
{
    let (q, a, out) = capacity_step(p, phase_done, passed, interp, geo, first_mid);
    let outs2 = match out {
        Some(o) => outs.push(o),
        None => outs,
    };
    assert forall|i: int| 0 <= i < outs2.len() implies (#[trigger] outs2[i]).preset_idx == i by {
        if i < outs.len() {
            assert(outs2[i] == outs[i]);
        }
    }
}

/// The outcome of a preset's search is the largest count measured that met
/// the target, or zero when no count did, and every larger count measured
/// failed; while the search goes on, its measurements keep fitting the new
/// bounds.
pub proof fn lemma_capacity_outcome_is_largest_pass(
    b: SearchBounds,
    passed: bool,
    interp: Option<usize>,
    geo: usize,
    first_mid: usize,
    hist: Seq<(usize, bool)>,
)
    requires
        bounds_ok(b),
        history_fits(b.lo, b.hi, hist),
        CAPACITY_MIN_N < first_mid < MAX_PARTICLES,
    ensures
        ({
            let (q, a, out) = capacity_step(CapPhase::Collect(b), true, passed, interp, geo, first_mid);
            let h = hist.push((b.mid, passed));
            &&& (out matches Some(o) ==> outcome_fits(o, h))
            &&& (out is None ==> (q matches CapPhase::Warmup(c) && history_fits(c.lo, c.hi, h)))
        }),
{
    let (lo, hi) = bounds_after_spec(b, passed);
    let h = hist.push((b.mid, passed));
    assert(lo < hi);
    assert forall|i: int| 0 <= i < h.len() implies CAPACITY_MIN_N < (#[trigger] h[i]).0 && (h[i].1
        ==> h[i].0 <= lo) && (!h[i].1 ==> h[i].0 >= hi) by {
        if i < hist.len() {
            assert(h[i] == hist[i]);
        }
    }
    if lo > CAPACITY_MIN_N {
        if passed {
            assert(h[hist.len() as int] == (lo, true));
        } else {
            let w = choose|i: int| 0 <= i < hist.len() && #[trigger] hist[i] == (b.lo, true);
            assert(h[w] == hist[w]);
        }
        assert(exists|i: int| 0 <= i < h.len() && #[trigger] h[i] == (lo, true));
    }
    assert(history_fits(lo, hi, h));
    let (q, a, out) = capacity_step(CapPhase::Collect(b), true, passed, interp, geo, first_mid);
    match out {
        Some(o) => {
            assert(o.max_particles <= lo);
            if lo > CAPACITY_MIN_N {
                let w = choose|i: int| 0 <= i < h.len() && #[trigger] h[i] == (lo, true);
                assert(h[w].1);
            } else {
                assert forall|i: int| 0 <= i < h.len() implies !(#[trigger] h[i]).1 by {}
            }
        },
        None => {},
    }
}

/// When a collection finishes, a preset's search goes on exactly while
/// iterations remain and the new bracket `[lo, hi]` is still at least 10%
/// wide (`10 * hi >= 11 * lo`): it then asks for the same preset at a count
/// strictly inside the bracket, taken from the interpolated estimate rounded
/// to the nearest thousand when that lies inside, else from the geometric one,
/// and records nothing.  Once iterations run out or the bracket is narrower,
/// it records the preset's outcome and moves on.
pub proof fn lemma_capacity_convergence_rule(
    b: SearchBounds,
    passed: bool,
    interp: Option<usize>,
    geo: usize,
    first_mid: usize,
)
    requires
        bounds_ok(b),
        CAPACITY_MIN_N < first_mid < MAX_PARTICLES,
    ensures
        ({
            let lo: int = if passed { b.mid as int } else { b.lo as int };
            let hi: int = if passed { b.hi as int } else { b.mid as int };
            let goes_on = b.iter + 1 < CAPACITY_MAX_ITERS && 10 * hi >= 11 * lo;
            let (q, a, out) = capacity_step(CapPhase::Collect(b), true, passed, interp, geo, first_mid);
            &&& (goes_on ==> out is None && (a matches CapacityAction::LoadPreset { preset_idx, particles }
                && preset_idx == b.preset_idx && lo < particles < hi))
            &&& (goes_on ==> (interp is Some && lo < ((interp.unwrap() + 500) / 1000) * 1000 < hi ==> a
                == CapacityAction::LoadPreset {
                preset_idx: b.preset_idx,
                particles: (((interp.unwrap() + 500) / 1000) * 1000) as usize,
            }))
            &&& (goes_on ==> (interp is None && lo < ((geo + 500) / 1000) * 1000 < hi ==> a
                == CapacityAction::LoadPreset {
                preset_idx: b.preset_idx,
                particles: (((geo + 500) / 1000) * 1000) as usize,
            }))
            &&& (!goes_on ==> (out matches Some(o) && o.preset_idx == b.preset_idx && o.max_particles
                == (if lo > CAPACITY_MIN_N { lo } else { 0 })) && !(a matches CapacityAction::LoadPreset {
                preset_idx,
                particles,
            } && preset_idx == b.preset_idx))
        }),
{
    let lo: int = if passed { b.mid as int } else { b.lo as int };
    let hi: int = if passed { b.hi as int } else { b.mid as int };
    assert(lo >= CAPACITY_MIN_N && hi <= MAX_PARTICLES);
    if b.iter + 1 < CAPACITY_MAX_ITERS && 10 * hi >= 11 * lo {
        assert(lo + 2 <= hi);
    }
}

} // verus!
