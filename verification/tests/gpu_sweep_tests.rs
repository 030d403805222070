use nidavellir::gpu_sweep::{
    apply_safety_margin, synthesize_profiles, validate_compute, GpuSweepConfig, GpuSweepEngine,
    StabilityResult, SweepCommand, SweepPhase, TradeoffPoint, VoltageBisection,
};

#[test]
fn compute_validation_detects_divergence() {
    assert_eq!(validate_compute(42, 42), StabilityResult::Stable);
    assert_eq!(validate_compute(42, 7), StabilityResult::SilentError);
}

#[test]
fn safety_margin_adds_fixed_and_thermal() {
    // cliff 900 + 15 fixed + 1mV/°C * 15°C = 930
    assert_eq!(apply_safety_margin(900, 15, 1, 15), 930);
}

#[test]
fn bisection_converges_on_cliff() {
    // True minimum-stable voltage is 905 mV.
    let true_vmin = 905;
    let mut bis = VoltageBisection::new(1900, 1050, 700, 25, 5);
    let mut guard = 0;
    while let Some(mv) = bis.next_test() {
        let result = if mv >= true_vmin {
            StabilityResult::Stable
        } else {
            StabilityResult::SilentError
        };
        bis.record(result);
        guard += 1;
        assert!(guard < 100, "bisection failed to converge");
    }
    // Converged within min_step of the true cliff, and never below it.
    assert!(bis.min_stable_mv() >= true_vmin);
    assert!(bis.min_stable_mv() - true_vmin <= bis.min_step_mv + bis.descent_step_mv);
}

#[test]
fn bisection_floor_stable_converges_without_unstable() {
    let mut bis = VoltageBisection::new(1800, 760, 750, 25, 5);
    // Everything down to the floor is stable.
    let mut guard = 0;
    while let Some(_mv) = bis.next_test() {
        bis.record(StabilityResult::Stable);
        guard += 1;
        assert!(guard < 50);
    }
    assert_eq!(bis.min_stable_mv(), 750);
}

#[test]
fn synthesize_picks_distinct_profiles() {
    let points = vec![
        TradeoffPoint { freq_mhz: 1950, vmin_mv: 1000 },
        TradeoffPoint { freq_mhz: 1875, vmin_mv: 900 },
        TradeoffPoint { freq_mhz: 1800, vmin_mv: 820 },
        TradeoffPoint { freq_mhz: 1695, vmin_mv: 760 },
    ];
    let set = synthesize_profiles(1900, &points).unwrap();
    // Godforge = highest freq.
    assert_eq!(set.godforge.point.freq_mhz, 1950);
    // Deep Calm holds >=95% of 1900 (=1805) → only 1950/1875 qualify; lowest V = 1875@900.
    assert_eq!(set.deep_calm.point.freq_mhz, 1875);
    // Brokkr's = best MHz/mV → 1695/760 ≈ 2.23 beats 1950/1000 = 1.95.
    assert_eq!(set.brokkrs_best.point.freq_mhz, 1695);
}

#[test]
fn synthesize_empty_is_none() {
    assert!(synthesize_profiles(1900, &[]).is_none());
}

#[test]
fn engine_runs_full_sweep_against_a_frontier() {
    // Frontier: vmin rises with frequency (higher clock needs more volts).
    let frontier = |freq: u32| -> u32 {
        match freq {
            f if f >= 1950 => 980,
            f if f >= 1875 => 910,
            f if f >= 1800 => 850,
            _ => 790,
        }
    };
    let cfg = GpuSweepConfig::default();
    let mut engine = GpuSweepEngine::new(cfg, 1900, true);

    let mut guard = 0;
    loop {
        match engine.next_command() {
            SweepCommand::ApplyAndTest { point } => {
                let result = if point.voltage_mv >= frontier(point.freq_mhz) {
                    StabilityResult::Stable
                } else {
                    StabilityResult::SilentError
                };
                engine.record(result);
            }
            SweepCommand::Finished => break,
        }
        guard += 1;
        assert!(guard < 1000, "engine did not finish");
    }

    assert_eq!(engine.phase(), SweepPhase::Done);
    let progress = engine.progress();
    assert_eq!(progress.tradeoffs.len(), 4);
    // Each recorded vmin must be at/above the true frontier + margin headroom.
    for t in &progress.tradeoffs {
        assert!(t.vmin_mv >= frontier(t.freq_mhz));
    }
    assert!(engine.profiles().is_some());
    // Higher frequencies should require at least as much voltage.
    let v1950 = progress.tradeoffs.iter().find(|t| t.freq_mhz == 1950).unwrap().vmin_mv;
    let v1695 = progress.tradeoffs.iter().find(|t| t.freq_mhz == 1695).unwrap().vmin_mv;
    assert!(v1950 > v1695);
}

#[test]
fn aborted_engine_finishes_immediately() {
    let mut engine = GpuSweepEngine::new(GpuSweepConfig::default(), 1900, true);
    engine.abort();
    assert_eq!(engine.next_command(), SweepCommand::Finished);
    assert_eq!(engine.phase(), SweepPhase::Aborted);
}

#[test]
fn fresh_engine_progress_reports_its_construction() {
    for simulated in [true, false] {
        let e = GpuSweepEngine::new(GpuSweepConfig::default(), 1900, simulated);
        let p = e.progress();
        assert_eq!(p.phase, SweepPhase::VoltageBisection);
        assert_eq!(p.current, None);
        assert_eq!(p.freq_index, 0);
        assert_eq!(p.total_freqs, 4);
        assert!(p.tradeoffs.is_empty());
        assert!(p.profiles.is_none());
        assert_eq!(p.simulated, simulated);
    }
}

#[test]
fn synthesized_profiles_carry_their_descriptions() {
    let points = [TradeoffPoint { freq_mhz: 1950, vmin_mv: 1000 }, TradeoffPoint { freq_mhz: 1800, vmin_mv: 880 }];
    let set = synthesize_profiles(1900, &points).unwrap();
    assert_eq!(set.godforge.description, "Highest sustained clock at the lowest stable voltage.");
    assert_eq!(set.brokkrs_best.description, "Perf/watt knee — every MHz still worth the watt.");
    assert_eq!(set.deep_calm.description, "Lowest watts while holding >=95% of base clock — cool and quiet.");
}
