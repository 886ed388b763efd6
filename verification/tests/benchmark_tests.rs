use particle_life::benchmark::{
    bracket_mid, BenchmarkAction, BenchmarkRunner, CapacityAction, CapacityBench, QuickBench,
    BENCHMARK_TIER_PARTICLES, BUILTIN_COUNT, CAPACITY_MAX_ITERS, CAPACITY_MIN_N,
};
use particle_life::simulation::MAX_PARTICLES;

#[test]
fn num_combos_matches_product() {
    assert_eq!(
        BenchmarkRunner::num_combos(),
        BUILTIN_COUNT * BENCHMARK_TIER_PARTICLES.len()
    );
    assert_eq!(BenchmarkRunner::num_combos(), 16);
}

#[test]
fn combo_index_math_is_consistent() {
    let total = BenchmarkRunner::num_combos();
    for combo in 0..total {
        let pi = BenchmarkRunner::combo_preset_idx(combo);
        let ti = BenchmarkRunner::combo_tier_idx(combo);
        assert!(
            pi < BUILTIN_COUNT,
            "preset_idx {pi} out of range for combo {combo}"
        );
        assert!(
            ti < BENCHMARK_TIER_PARTICLES.len(),
            "tier_idx {ti} out of range for combo {combo}"
        );
        // Verify the flat index round-trips.
        assert_eq!(pi * BENCHMARK_TIER_PARTICLES.len() + ti, combo);
    }
}

#[test]
fn suite_visits_every_combo_in_order() {
    let mut r = BenchmarkRunner::new();
    assert!(!r.is_running());
    assert_eq!(r.start(1280, 720), BenchmarkAction::LoadCombo(0));
    assert_eq!((r.vp_width, r.vp_height), (1280, 720));
    let mut loaded = vec![0usize];
    let mut frames = 0;
    loop {
        frames += 1;
        assert!(frames < 1000);
        // Warmup frame that has not finished, then one that has.
        assert_eq!(r.advance(false, false), BenchmarkAction::Continue);
        assert_eq!(r.progress().map(|p| p.2), Some(true));
        assert_eq!(r.finished_combos().len(), *loaded.last().unwrap());
        assert_eq!(r.advance(true, false), BenchmarkAction::Continue);
        assert_eq!(r.collecting_combo(), Some(*loaded.last().unwrap()));
        assert_eq!(r.advance(false, false), BenchmarkAction::Continue);
        match r.advance(true, false) {
            BenchmarkAction::LoadCombo(k) => loaded.push(k),
            BenchmarkAction::Done => break,
            BenchmarkAction::Continue => panic!("collection ended without an action"),
        }
    }
    assert_eq!(loaded, (0..16).collect::<Vec<_>>());
    assert_eq!(r.finished_combos(), (0..16).collect::<Vec<_>>().as_slice());
    assert!(r.is_done());
    assert!(!r.is_running());
    assert_eq!(r.advance(true, true), BenchmarkAction::Continue);
}

#[test]
fn suite_global_cap_ends_the_run_after_collection() {
    let mut r = BenchmarkRunner::new();
    let _ = r.start(0, 0);
    // The cap is ignored during warmup.
    assert_eq!(r.advance(false, true), BenchmarkAction::Continue);
    assert_eq!(r.collecting_combo(), None);
    assert_eq!(r.advance(true, false), BenchmarkAction::Continue);
    assert_eq!(r.advance(false, true), BenchmarkAction::Done);
    assert!(r.is_done());
    assert_eq!(r.finished_combos(), &[0]);
    r.cancel();
    assert!(!r.is_done() && !r.is_running());
    assert!(r.progress().is_none());
    assert!(r.finished_combos().is_empty());
    assert_eq!(r.advance(true, true), BenchmarkAction::Continue);
    assert!(r.finished_combos().is_empty());
}

#[test]
fn quick_bench_samples_particles_when_collection_starts() {
    let mut q = QuickBench::new();
    assert!(!q.is_running());
    q.start(100);
    assert!(q.is_running());
    assert_eq!(q.progress(), Some(true));
    assert!(!q.advance(false, 200));
    assert!(!q.advance(true, 300));
    assert_eq!(q.progress(), Some(false));
    assert!(!q.advance(false, 400));
    assert!(q.advance(true, 500));
    assert_eq!(q.result_particles(), Some(300));
    assert!(!q.is_running());
    assert!(!q.advance(true, 600));
}

#[test]
fn bracket_mid_rounds_and_clamps() {
    assert_eq!(bracket_mid(141_421, CAPACITY_MIN_N, MAX_PARTICLES), Some(141_000));
    assert_eq!(bracket_mid(141_500, CAPACITY_MIN_N, MAX_PARTICLES), Some(142_000));
    assert_eq!(bracket_mid(5, 10_000, 20_000), Some(10_001));
    assert_eq!(bracket_mid(50_000, 10_000, 20_000), Some(19_999));
    assert_eq!(bracket_mid(10_500, 10_000, 10_002), Some(10_001));
}

#[test]
fn capacity_search_narrows_and_records_outcomes() {
    let mut c = CapacityBench::new();
    assert_eq!(
        c.start(800, 600, 141_421),
        CapacityAction::LoadPreset { preset_idx: 0, particles: 141_000 }
    );
    assert!(c.is_running());
    // Warmup not ready, then ready.
    assert_eq!(c.advance(false, false, None, 0), CapacityAction::Continue);
    assert_eq!(c.advance(true, false, None, 0), CapacityAction::Continue);
    assert_eq!(c.bounds_after(true), Some((141_000, MAX_PARTICLES)));
    // 141K passes; the next count comes from the geometric estimate.
    assert_eq!(
        c.advance(true, true, None, 531_036),
        CapacityAction::LoadPreset { preset_idx: 0, particles: 531_000 }
    );
    let b = c.bounds().unwrap();
    assert_eq!((b.lo, b.hi, b.mid, b.iter), (141_000, MAX_PARTICLES, 531_000, 1));
    // 531K fails; an interpolated estimate is preferred.
    assert_eq!(c.advance(true, false, None, 0), CapacityAction::Continue);
    assert_eq!(
        c.advance(true, false, Some(300_200), 273_000),
        CapacityAction::LoadPreset { preset_idx: 0, particles: 300_000 }
    );
    // Force convergence: pass at every remaining iteration.
    let mut steps = 0;
    loop {
        steps += 1;
        assert!(steps <= CAPACITY_MAX_ITERS);
        let _ = c.advance(true, false, None, 0);
        let (lo, hi) = c.bounds_after(true).unwrap();
        let geo = ((lo as f64).ln() / 2.0 + (hi as f64).ln() / 2.0).exp() as usize;
        match c.advance(true, true, None, geo) {
            CapacityAction::LoadPreset { preset_idx: 0, .. } => continue,
            CapacityAction::LoadPreset { preset_idx: 1, particles } => {
                assert_eq!(particles, 141_000);
                break;
            }
            other => panic!("unexpected {other:?}"),
        }
    }
    assert_eq!(c.outcomes().len(), 1);
    assert_eq!(c.outcomes()[0].preset_idx, 0);
    assert!(c.outcomes()[0].max_particles > 300_000);
    assert!(!c.outcomes()[0].capped);
    c.cancel();
    assert!(!c.is_running() && !c.is_done());
    assert!(c.progress().is_none());
    assert!(c.outcomes().is_empty());
    assert_eq!(c.advance(true, true, None, 0), CapacityAction::Continue);
    assert!(c.outcomes().is_empty());
}

#[test]
fn capacity_search_finishes_after_every_preset() {
    let mut c = CapacityBench::new();
    let _ = c.start(0, 0, 141_421);
    let mut done = false;
    for _ in 0..200 {
        let _ = c.advance(true, false, None, 0);
        // Every count fails, so each bracket collapses onto the floor.
        match c.advance(true, false, None, 0) {
            CapacityAction::Done => {
                done = true;
                break;
            }
            _ => {}
        }
    }
    assert!(done);
    assert!(c.is_done());
    assert_eq!(c.outcomes().len(), BUILTIN_COUNT);
    for (i, o) in c.outcomes().iter().enumerate() {
        assert_eq!(o.preset_idx, i);
        // No count reached the target, so none is recorded.
        assert_eq!(o.max_particles, 0);
        assert!(!o.capped);
    }
}

#[test]
fn bracket_mid_takes_any_estimate() {
    assert_eq!(bracket_mid(usize::MAX, CAPACITY_MIN_N, MAX_PARTICLES), Some(MAX_PARTICLES - 1));
    assert_eq!(bracket_mid(usize::MAX - 10, 10_000, 20_000), Some(19_999));
    assert_eq!(bracket_mid(0, 10_000, 20_000), Some(10_001));
}
