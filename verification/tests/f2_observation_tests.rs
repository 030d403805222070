use nidavellir::f2_observation::{
    bracket_for_target, crash_floor_for_target, current_apply_qualification_p99_at_anchor,
    current_discovery_observation_at_anchor, highest_apply_qualification_p99_at_anchor, frontier_entry_for_target, learned_frontier,
    learned_frontier_for_gpu, qualification_failure_histogram, current_apply_qualification_p95_clock_at_anchor,
    first_bad_for_target, is_current_apply_qualification_pass, is_current_discovery_evidence,
    is_current_qualification_pass, is_known_bad, last_discovery_good_for_target, last_good_for_target,
    required_pattern_index, validated_descent_baseline, F2EvidenceKind, F2ObsDwell, F2ObsMode,
    F2ObsOutcome, F2ObsVerifier, F2Observation, F2QualificationCoverage, F2QualificationPattern,
    F2QualificationStrength, F2QualificationVerdict, F2_DISCOVERY_CONTRACT_VERSION,
    F2_QUALIFICATION_CONTRACT_VERSION, F2_APPLY_CLOCK_HOLD_TOL_MHZ, REQUIRED_QUALIFICATION_PATTERNS,
};

fn obs(target: u32, anchor: u32, outcome: F2ObsOutcome) -> F2Observation {
    F2Observation {
        run_id: "run-test".into(),
        timestamp: "2026-06-21T00:00:00Z".into(),
        gpu_key: Some("RTX 3060 Ti".into()),
        evidence_kind: F2EvidenceKind::Discovery,
        discovery_contract_version: Some(F2_DISCOVERY_CONTRACT_VERSION),
        qualification_contract_version: None,
        qualification_coverage: None,
        mode: F2ObsMode::TargetSweep,
        target_mhz: target,
        requested_start_mv: None,
        anchor_mv: anchor,
        base_mhz: target.saturating_sub(15),
        offset_mhz: 15,
        positive_offset_cap_mhz: 30,
        higher_bins_capped: 26,
        max_flatten_mhz: 150,
        lower_bins_elastic: 40,
        verifier_result: if outcome.is_validated() {
            F2ObsVerifier::RaiseVerified
        } else {
            F2ObsVerifier::Unverifiable
        },
        dwell_result: if outcome.is_validated() {
            F2ObsDwell::Stable
        } else {
            F2ObsDwell::Unstable
        },
        avg_clock_mhz: Some(target + 15),
        sustained_clock_mhz: Some(target + 15),
        sustained_upper_clock_mhz: Some(target + 15),
        watts: Some(180),
        max_watts: Some(188),
        power_p99_bits: Some(186.0f32.to_bits()),
        power_p99_confirmed: true,
        power_p99_attempts: 1,
        measured_voltage_min_mv: Some(anchor),
        measured_voltage_avg_mv: Some(anchor),
        measured_voltage_max_mv: Some(anchor),
        measured_voltage_sample_count: 1,
        render_frames: Some(900),
        thermal_throttled: false,
        dwell_duration_ms: Some(15_000),
        sample_count: Some(300),
        silent_error: false,
        device_lost: false,
        unstable: !outcome.is_validated(),
        clock_drop: false,
        tdr_or_crash: false,
        reset_to_stock_attempted: true,
        reset_to_stock_ok: true,
        boot_flag_cleared: true,
        blacklisted: false,
        outcome,
        notes: None,
    }
}

fn qualification_pass_with_pattern(mut o: F2Observation, pattern: F2QualificationPattern) -> F2Observation {
    o.evidence_kind = F2EvidenceKind::Qualification;
    o.discovery_contract_version = None;
    o.qualification_contract_version = Some(F2_QUALIFICATION_CONTRACT_VERSION);
    o.qualification_coverage = Some(F2QualificationCoverage {
        strength: F2QualificationStrength::Fsgl4,
        pattern: Some(pattern),
        pass_index: match pattern {
            F2QualificationPattern::A => 1,
            F2QualificationPattern::B => 2,
            F2QualificationPattern::HighFps => 1,
            F2QualificationPattern::Texture => 2,
            F2QualificationPattern::Transitions => 3,
            F2QualificationPattern::Memory => 4,
        },
        verdict: F2QualificationVerdict::Pass,
        phases_completed: 8,
        phases_expected: 8,
        checksum_count: 8,
        sample_count: 100,
        compute_check_count: 1,
        failure_phase: None,
        retry_count: 0,
        reason: None,
    });
    o
}

fn qualification_pass(o: F2Observation) -> F2Observation {
    qualification_pass_with_pattern(o, F2QualificationPattern::HighFps)
}

fn legacy_fsgl2_qualification_pass(o: F2Observation) -> F2Observation {
    let mut o = qualification_pass(o);
    o.qualification_coverage.as_mut().unwrap().strength = F2QualificationStrength::Fsgl2;
    o
}

fn apply_qualification_pass(o: F2Observation, pattern: F2QualificationPattern) -> F2Observation {
    let mut o = qualification_pass_with_pattern(o, pattern);
    o.evidence_kind = F2EvidenceKind::ApplyQualification;
    o.mode = F2ObsMode::ApplyQualification;
    o
}

#[test]
fn outcome_classification() {
    assert!(F2ObsOutcome::Validated.is_validated());
    for o in [
        F2ObsOutcome::VerifierFailed,
        F2ObsOutcome::SilentError,
        F2ObsOutcome::Unstable,
        F2ObsOutcome::DeviceLost,
        F2ObsOutcome::ClockDrop,
        F2ObsOutcome::ResetFailed,
        F2ObsOutcome::Blacklisted,
        F2ObsOutcome::CrashOrRecovery,
    ] {
        assert!(o.is_bad(), "{o:?} should be bad");
    }
    // Planner/gate refusals performed no write → NOT "bad" (no instability learned).
    assert!(!F2ObsOutcome::RejectedByPlanner.is_bad());
    assert!(!F2ObsOutcome::AbortedBySafetyGate.is_bad());
    assert!(!F2ObsOutcome::QualificationInconclusive.is_bad());
    // Only reset-failure and unrecovered crash are SAFETY failures.
    assert!(F2ObsOutcome::ResetFailed.is_safety_failure());
    assert!(F2ObsOutcome::DeviceLost.is_safety_failure());
    assert!(F2ObsOutcome::CrashOrRecovery.is_safety_failure());
    assert!(!F2ObsOutcome::Unstable.is_safety_failure());
    assert!(!F2ObsOutcome::ClockDrop.is_safety_failure());
}

#[test]
fn last_good_is_lowest_validated() {
    let v = vec![
        obs(1800, 975, F2ObsOutcome::Validated),
        obs(1800, 968, F2ObsOutcome::Validated),
        obs(1800, 962, F2ObsOutcome::Validated),
        obs(1800, 956, F2ObsOutcome::Unstable),
    ];
    assert_eq!(last_good_for_target(&v, 1800).unwrap().anchor_mv, 962);
    // A target with no validated point → None.
    assert!(last_good_for_target(&v, 1815).is_none());
}

#[test]
fn later_failure_invalidates_same_or_deeper_old_validations() {
    let v = vec![
        obs(1800, 975, F2ObsOutcome::Validated),
        obs(1800, 968, F2ObsOutcome::Validated),
        obs(1800, 968, F2ObsOutcome::SilentError),
    ];
    assert_eq!(last_good_for_target(&v, 1800).unwrap().anchor_mv, 975);
}

#[test]
fn first_bad_is_highest_failure() {
    let v = vec![
        obs(1800, 962, F2ObsOutcome::Validated),
        obs(1800, 956, F2ObsOutcome::Unstable),
        obs(1800, 950, F2ObsOutcome::DeviceLost),
    ];
    // The shallowest (highest-voltage) failure brackets Vmin from below.
    assert_eq!(first_bad_for_target(&v, 1800).unwrap().anchor_mv, 956);
}

#[test]
fn bracket_only_when_consistent() {
    let consistent = vec![
        obs(1800, 962, F2ObsOutcome::Validated),
        obs(1800, 956, F2ObsOutcome::Unstable),
    ];
    let b = bracket_for_target(&consistent, 1800).unwrap();
    assert_eq!((b.first_bad_mv, b.last_good_mv, b.width_mv), (956, 962, 6));
    // Inconsistent: a failure at/above the lowest validated point → no bracket claimed.
    let inconsistent = vec![
        obs(1800, 962, F2ObsOutcome::Validated),
        obs(1800, 968, F2ObsOutcome::Unstable),
    ];
    assert!(bracket_for_target(&inconsistent, 1800).is_none());
}

#[test]
fn is_known_bad_is_conservative_downward() {
    let v = vec![obs(1800, 956, F2ObsOutcome::Unstable)];
    // The exact failed voltage and anything LOWER is known bad.
    assert!(is_known_bad(&v, 1800, 956));
    assert!(is_known_bad(&v, 1800, 950));
    // A HIGHER voltage is not implied bad by a lower-voltage failure.
    assert!(!is_known_bad(&v, 1800, 962));
    // Different target is unaffected.
    assert!(!is_known_bad(&v, 1815, 956));
}

#[test]
fn validated_descent_baseline_picks_deepest_clean_validated() {
    let v = vec![
        obs(1800, 975, F2ObsOutcome::Validated),
        obs(1800, 968, F2ObsOutcome::Validated),
        obs(1800, 956, F2ObsOutcome::Unstable), // a real failure is not a baseline
    ];
    // Deepest (lowest-voltage) clean validated point — its offset is the resume baseline.
    let b = validated_descent_baseline(&v, 1800, None).unwrap();
    assert_eq!(b.anchor_mv, 968);
    // A target with no validated point → None (descent then starts from stock 0).
    assert!(validated_descent_baseline(&v, 1815, None).is_none());
}

#[test]
fn validated_descent_baseline_ignores_no_write_aborts_and_other_gpus() {
    // A no-write safety-gate abort is NOT a baseline even at the lowest voltage.
    let mut aborted = obs(1800, 950, F2ObsOutcome::AbortedBySafetyGate);
    aborted.reset_to_stock_ok = true;
    aborted.boot_flag_cleared = true;
    aborted.unstable = false;
    let v = vec![obs(1800, 975, F2ObsOutcome::Validated), aborted];
    assert_eq!(validated_descent_baseline(&v, 1800, None).unwrap().anchor_mv, 975);
    // A validated point on a DIFFERENT GPU must not bound this GPU's descent.
    let mut other_gpu = obs(1800, 962, F2ObsOutcome::Validated);
    other_gpu.gpu_key = Some("RTX 4090".into());
    let v2 = vec![obs(1800, 975, F2ObsOutcome::Validated), other_gpu];
    assert_eq!(
        validated_descent_baseline(&v2, 1800, Some("RTX 3060 Ti")).unwrap().anchor_mv,
        975
    );
    // Unfiltered (gpu_key None) sees both → deepest wins.
    assert_eq!(validated_descent_baseline(&v2, 1800, None).unwrap().anchor_mv, 962);
}

#[test]
fn validated_descent_baseline_rejects_dirty_cleanup_flags() {
    // A record claiming Validated but with an un-cleared boot flag is not trusted as a baseline.
    let mut dirty = obs(1800, 962, F2ObsOutcome::Validated);
    dirty.boot_flag_cleared = false;
    let v = vec![obs(1800, 975, F2ObsOutcome::Validated), dirty];
    assert_eq!(validated_descent_baseline(&v, 1800, None).unwrap().anchor_mv, 975);
}

#[test]
fn discovery_evidence_and_qualification_pass_classification() {
    let d = obs(1800, 962, F2ObsOutcome::Validated);
    assert!(is_current_discovery_evidence(&d));
    let mut stale = d.clone();
    stale.discovery_contract_version = Some(3);
    assert!(!is_current_discovery_evidence(&stale));
    let mut unconfirmed = d.clone();
    unconfirmed.power_p99_confirmed = false;
    assert!(!is_current_discovery_evidence(&unconfirmed));

    let q = qualification_pass_with_pattern(d.clone(), F2QualificationPattern::Texture);
    assert!(is_current_qualification_pass(&q));
    assert!(!is_current_apply_qualification_pass(&q));
    let legacy = qualification_pass_with_pattern(d.clone(), F2QualificationPattern::A);
    assert!(!is_current_qualification_pass(&legacy));
    let a = apply_qualification_pass(d, F2QualificationPattern::Memory);
    assert!(is_current_apply_qualification_pass(&a));
    assert_eq!(required_pattern_index(F2QualificationPattern::Memory), Some(3));
    assert_eq!(required_pattern_index(F2QualificationPattern::B), None);
    assert_eq!(REQUIRED_QUALIFICATION_PATTERNS.len(), 4);
}

#[test]
fn discovery_frontier_ignores_stale_positives_and_crash_floor_is_highest_loss() {
    let mut stale = obs(1800, 950, F2ObsOutcome::Validated);
    stale.discovery_contract_version = Some(3);
    let mut crash = obs(1800, 940, F2ObsOutcome::DeviceLost);
    crash.device_lost = true;
    let mut flagged = obs(1800, 944, F2ObsOutcome::Unstable);
    flagged.device_lost = true;
    let v = vec![obs(1800, 962, F2ObsOutcome::Validated), stale, crash, flagged];
    // The legacy 950 positive still guides the search (last good), but never defines the
    // current discovery frontier.
    assert_eq!(last_good_for_target(&v, 1800).unwrap().anchor_mv, 950);
    assert_eq!(last_discovery_good_for_target(&v, 1800).unwrap().anchor_mv, 962);
    assert_eq!(crash_floor_for_target(&v, 1800), Some(944));
    assert_eq!(crash_floor_for_target(&v, 1815), None);
}

#[test]
fn apply_qualification_failure_does_not_move_the_frontier_failure() {
    let mut apply_fail = obs(1800, 968, F2ObsOutcome::Unstable);
    apply_fail.evidence_kind = F2EvidenceKind::ApplyQualification;
    let v = vec![obs(1800, 962, F2ObsOutcome::Validated), apply_fail];
    assert!(first_bad_for_target(&v, 1800).is_none());
    assert!(!is_known_bad(&v, 1800, 962));
    assert_eq!(last_good_for_target(&v, 1800).unwrap().anchor_mv, 962);
}

#[test]
fn apply_p95_clock_needs_the_complete_clean_set() {
    let base = obs(1800, 962, F2ObsOutcome::Validated);
    let mut set: Vec<F2Observation> = REQUIRED_QUALIFICATION_PATTERNS
        .iter()
        .enumerate()
        .map(|(i, p)| {
            let mut o = apply_qualification_pass(base.clone(), *p);
            o.sustained_upper_clock_mhz = Some(1900 + i as u32 * 10);
            o
        })
        .collect();
    assert_eq!(
        current_apply_qualification_p95_clock_at_anchor(&set, "run-test", 1800, 962, "RTX 3060 Ti"),
        Some(1930)
    );
    // Another run or another GPU sees nothing.
    assert_eq!(
        current_apply_qualification_p95_clock_at_anchor(&set, "run-other", 1800, 962, "RTX 3060 Ti"),
        None
    );
    // A missing pattern fails closed.
    let partial: Vec<F2Observation> = set[..3].to_vec();
    assert_eq!(
        current_apply_qualification_p95_clock_at_anchor(&partial, "run-test", 1800, 962, "RTX 3060 Ti"),
        None
    );
    // Missing telemetry in any matching pass fails closed.
    set[1].sustained_upper_clock_mhz = None;
    assert_eq!(
        current_apply_qualification_p95_clock_at_anchor(&set, "run-test", 1800, 962, "RTX 3060 Ti"),
        None
    );
}

#[test]
fn interleaved_qualification_failure_selects_shallower_qualified_point() {
    let t = 1935;
    let mut v = vec![
        obs(t, 975, F2ObsOutcome::Validated),
        qualification_pass(obs(t, 975, F2ObsOutcome::Validated)),
        obs(t, 968, F2ObsOutcome::Validated),
        qualification_pass(obs(t, 968, F2ObsOutcome::Validated)),
        obs(t, 962, F2ObsOutcome::Validated),
    ];
    let mut deeper_qual_fail = obs(t, 962, F2ObsOutcome::Unstable);
    deeper_qual_fail.evidence_kind = F2EvidenceKind::Qualification;
    deeper_qual_fail.discovery_contract_version = None;
    deeper_qual_fail.qualification_contract_version = Some(F2_QUALIFICATION_CONTRACT_VERSION);
    v.push(deeper_qual_fail);

    let entry = frontier_entry_for_target(&v, t).expect("a qualified frontier point exists");
    assert_eq!(entry.best_anchor_mv, 968, "deepest QUALIFIED bin, not the rejected 962");
    assert!(entry.validation_count >= 1, "selected point carries its qualification pass");
    assert_eq!(entry.first_bad_mv, Some(962), "the rejected deeper bin bounds the frontier");
}

#[test]
fn learned_frontier_is_scoped_to_exact_gpu_key() {
    let a = obs(1800, 975, F2ObsOutcome::Validated);
    let mut b = obs(1950, 1000, F2ObsOutcome::Validated);
    b.gpu_key = Some("GPU-B-UUID".into());
    let fr = learned_frontier_for_gpu(&[a, b], "RTX 3060 Ti");
    assert_eq!(fr.iter().map(|e| e.target_mhz).collect::<Vec<_>>(), vec![1800]);
}

#[test]
fn learned_frontier_picks_best_per_target() {
    let v = vec![
        obs(1800, 975, F2ObsOutcome::Validated),
        obs(1800, 968, F2ObsOutcome::Validated),
        obs(1800, 962, F2ObsOutcome::Validated),
        obs(1800, 956, F2ObsOutcome::Unstable),
        obs(1815, 980, F2ObsOutcome::Validated),
        obs(1830, 990, F2ObsOutcome::Unstable), // no validated → excluded
    ];
    let fr = learned_frontier(&v);
    assert_eq!(fr.iter().map(|e| e.target_mhz).collect::<Vec<_>>(), vec![1800, 1815]);
    let e1800 = &fr[0];
    assert_eq!(e1800.best_anchor_mv, 962);
    assert_eq!(e1800.first_bad_mv, Some(956));
    assert_eq!(e1800.bracket_width_mv, Some(6));
    assert_eq!(e1800.observation_count, 4);
    assert_eq!(e1800.validation_count, 0);
    // The confidence estimate weighs the evidence at the point: here the one 15 s discovery dwell.
    assert_eq!(e1800.evidence_indices, vec![2]);
    assert_eq!(v[e1800.evidence_indices[0]].dwell_duration_ms, Some(15_000));
}

#[test]
fn learned_frontier_counts_only_current_qualification_passes() {
    let discovery = obs(1800, 962, F2ObsOutcome::Validated);
    let mut inconclusive = qualification_pass(discovery.clone());
    inconclusive.outcome = F2ObsOutcome::QualificationInconclusive;
    inconclusive.qualification_coverage.as_mut().unwrap().verdict = F2QualificationVerdict::Inconclusive;
    let mut old_pass = qualification_pass(discovery.clone());
    old_pass.qualification_contract_version = Some(F2_QUALIFICATION_CONTRACT_VERSION - 1);
    let current_pass = qualification_pass(discovery.clone());

    let entry =
        frontier_entry_for_target(&[discovery, inconclusive, old_pass, current_pass], 1800).unwrap();
    assert_eq!(entry.best_anchor_mv, 962);
    assert_eq!(entry.validation_count, 1);
}

#[test]
fn learned_frontier_ignores_legacy_strengths_for_apply_qualification() {
    let discovery = obs(1800, 962, F2ObsOutcome::Validated);
    let mut fsgl1 = qualification_pass(discovery.clone());
    fsgl1.qualification_coverage.as_mut().unwrap().strength = F2QualificationStrength::Fsgl1;
    fsgl1.qualification_coverage.as_mut().unwrap().pattern = None;
    let fsgl2 = legacy_fsgl2_qualification_pass(discovery.clone());
    let current_fsgl3 = qualification_pass(discovery.clone());

    let entry = frontier_entry_for_target(&[discovery, fsgl1, fsgl2, current_fsgl3], 1800).unwrap();
    assert_eq!(entry.best_anchor_mv, 962);
    assert_eq!(entry.validation_count, 1);
}

#[test]
fn learned_frontier_counts_distinct_v7_patterns() {
    let discovery = obs(1800, 962, F2ObsOutcome::Validated);
    let high_fps_1 = qualification_pass_with_pattern(discovery.clone(), F2QualificationPattern::HighFps);
    let high_fps_2 = qualification_pass_with_pattern(discovery.clone(), F2QualificationPattern::HighFps);
    let only_high_fps =
        frontier_entry_for_target(&[discovery.clone(), high_fps_1, high_fps_2], 1800).unwrap();
    assert_eq!(only_high_fps.validation_count, 1);

    let high_fps = qualification_pass_with_pattern(discovery.clone(), F2QualificationPattern::HighFps);
    let texture = qualification_pass_with_pattern(discovery.clone(), F2QualificationPattern::Texture);
    let transitions =
        qualification_pass_with_pattern(discovery.clone(), F2QualificationPattern::Transitions);
    let complete =
        frontier_entry_for_target(&[discovery, high_fps, texture, transitions], 1800).unwrap();
    assert_eq!(complete.validation_count, 3);
}

#[test]
fn apply_qualification_is_current_but_does_not_rewrite_frontier_failure_bracket() {
    let discovery = obs(1800, 881, F2ObsOutcome::Validated);
    let apply_pass =
        apply_qualification_pass(obs(1800, 893, F2ObsOutcome::Validated), F2QualificationPattern::HighFps);
    assert!(is_current_apply_qualification_pass(&apply_pass));
    assert!(!is_current_qualification_pass(&apply_pass));

    let mut apply_failure =
        apply_qualification_pass(obs(1800, 893, F2ObsOutcome::SilentError), F2QualificationPattern::Texture);
    apply_failure.qualification_coverage.as_mut().unwrap().verdict = F2QualificationVerdict::Fail;
    let observations = [discovery, apply_pass, apply_failure];
    assert_eq!(last_discovery_good_for_target(&observations, 1800).unwrap().anchor_mv, 881);
    assert!(first_bad_for_target(&observations, 1800).is_none());
}

#[test]
fn discovery_v4_rejects_v3_and_unconfirmed_positive_evidence() {
    let mut old = obs(1800, 962, F2ObsOutcome::Validated);
    old.discovery_contract_version = Some(3);
    assert!(!is_current_discovery_evidence(&old));
    assert!(last_discovery_good_for_target(&[old.clone()], 1800).is_none());
    assert!(learned_frontier(&[old]).is_empty());

    let mut unconfirmed = obs(1800, 962, F2ObsOutcome::Validated);
    unconfirmed.power_p99_confirmed = false;
    assert!(!is_current_discovery_evidence(&unconfirmed));
    assert!(learned_frontier(&[unconfirmed]).is_empty());

    let mut legacy = obs(1800, 962, F2ObsOutcome::Validated);
    legacy.evidence_kind = F2EvidenceKind::Legacy;
    legacy.discovery_contract_version = None;
    assert!(!is_current_discovery_evidence(&legacy));
    assert!(last_discovery_good_for_target(&[legacy], 1800).is_none());
}

#[test]
fn frontier_boundary_respects_crash_proximity_margin() {
    let mut crash = obs(1920, 906, F2ObsOutcome::DeviceLost);
    crash.device_lost = true;
    let near = obs(1920, 912, F2ObsOutcome::Validated);
    let clear = obs(1920, 918, F2ObsOutcome::Validated);
    assert_eq!(crash_floor_for_target(&[crash.clone()], 1920), Some(906));
    let entry = frontier_entry_for_target(&[crash.clone(), near.clone(), clear], 1920).unwrap();
    assert_eq!(entry.best_anchor_mv, 918);
    assert!(frontier_entry_for_target(&[crash, near], 1920).is_none());
}

fn histogram_get(histogram: &[((u32, u32, String, String), u32)], key: &(u32, u32, String, String)) -> Option<u32> {
    histogram.iter().find(|(k, _)| k == key).map(|(_, count)| *count)
}

#[test]
fn failure_histogram_counts_failed_phases_per_point_and_pattern() {
    let mut fail_a =
        apply_qualification_pass(obs(1935, 956, F2ObsOutcome::Unstable), F2QualificationPattern::HighFps);
    fail_a.qualification_coverage.as_mut().unwrap().failure_phase = Some("frame-cadence".into());
    let mut fail_b = fail_a.clone();
    fail_b.qualification_coverage.as_mut().unwrap().failure_phase = Some("frame-cadence".into());
    let mut fail_other =
        apply_qualification_pass(obs(1935, 950, F2ObsOutcome::Unstable), F2QualificationPattern::Memory);
    fail_other.qualification_coverage.as_mut().unwrap().failure_phase = Some("vram-pressure".into());
    // A clean pass (no failure_phase) contributes nothing.
    let clean =
        apply_qualification_pass(obs(1935, 962, F2ObsOutcome::Validated), F2QualificationPattern::Texture);

    let histogram = qualification_failure_histogram(&[fail_a, fail_b, fail_other, clean]);
    assert_eq!(
        histogram_get(&histogram, &(1935, 956, "HighFps".into(), "frame-cadence".into())),
        Some(2)
    );
    assert_eq!(
        histogram_get(&histogram, &(1935, 950, "Memory".into(), "vram-pressure".into())),
        Some(1)
    );
    assert_eq!(histogram.len(), 2);
}

#[test]
fn failure_histogram_is_sorted_by_key_and_labels_unpatterned_passes_legacy() {
    let mut legacy = obs(1800, 962, F2ObsOutcome::Unstable);
    legacy.qualification_coverage = qualification_pass(obs(1800, 962, F2ObsOutcome::Unstable)).qualification_coverage;
    legacy.qualification_coverage.as_mut().unwrap().pattern = None;
    legacy.qualification_coverage.as_mut().unwrap().failure_phase = Some("idle-slam".into());
    let mut high = qualification_pass(obs(1935, 950, F2ObsOutcome::Unstable));
    high.qualification_coverage.as_mut().unwrap().failure_phase = Some("b-phase".into());
    let mut high2 = high.clone();
    high2.qualification_coverage.as_mut().unwrap().failure_phase = Some("a-phase".into());
    let histogram = qualification_failure_histogram(&[high, legacy, high2]);
    let keys: Vec<(u32, u32, String, String)> = histogram.iter().map(|(k, _)| k.clone()).collect();
    assert_eq!(
        keys,
        vec![
            (1800, 962, "legacy".to_string(), "idle-slam".to_string()),
            (1935, 950, "HighFps".to_string(), "a-phase".to_string()),
            (1935, 950, "HighFps".to_string(), "b-phase".to_string()),
        ]
    );
}

fn watts(bits: Option<u32>) -> Option<f32> {
    bits.map(f32::from_bits)
}

fn p99(w: f32) -> Option<u32> {
    Some(w.to_bits())
}

#[test]
fn apply_anchor_power_uses_highest_current_thermal_safe_p99() {
    let mut lower_p99 = obs(1800, 975, F2ObsOutcome::Validated);
    lower_p99.max_watts = Some(205);
    lower_p99.power_p99_bits = p99(188.0);
    let mut higher_p99 = lower_p99.clone();
    higher_p99.max_watts = Some(198);
    higher_p99.power_p99_bits = p99(196.0);
    higher_p99.watts = Some(190);
    higher_p99.outcome = F2ObsOutcome::PowerBoundClockDrop;
    let mut throttled = higher_p99.clone();
    throttled.max_watts = Some(200);
    throttled.power_p99_bits = p99(200.0);
    throttled.thermal_throttled = true;
    let mut old = higher_p99.clone();
    old.max_watts = Some(199);
    old.power_p99_bits = p99(199.0);
    old.discovery_contract_version = Some(F2_DISCOVERY_CONTRACT_VERSION - 1);

    let observations = [lower_p99, higher_p99, throttled, old];
    let selected = current_discovery_observation_at_anchor(&observations, 1800, 975, "RTX 3060 Ti").unwrap();
    assert_eq!(selected.watts, Some(190));
    assert_eq!(selected.max_watts, Some(198));
    assert_eq!(watts(selected.power_p99_bits), Some(196.0));
    assert!(!selected.thermal_throttled);
}

#[test]
fn apply_qualification_power_requires_complete_clean_set_and_uses_highest_p99() {
    let mut high_fps =
        apply_qualification_pass(obs(1830, 862, F2ObsOutcome::Validated), F2QualificationPattern::HighFps);
    high_fps.run_id = "apply-v7".into();
    high_fps.power_p99_bits = p99(172.25);
    let mut texture =
        apply_qualification_pass(obs(1830, 862, F2ObsOutcome::Validated), F2QualificationPattern::Texture);
    texture.run_id = "apply-v7".into();
    texture.power_p99_bits = p99(172.587);
    let mut transitions =
        apply_qualification_pass(obs(1830, 862, F2ObsOutcome::Validated), F2QualificationPattern::Transitions);
    transitions.run_id = "apply-v7".into();
    transitions.power_p99_bits = p99(173.125);
    transitions.sustained_upper_clock_mhz = Some(1890);
    let mut memory =
        apply_qualification_pass(obs(1830, 862, F2ObsOutcome::Validated), F2QualificationPattern::Memory);
    memory.run_id = "apply-v7".into();
    memory.power_p99_bits = p99(172.9);
    let mut throttled = texture.clone();
    throttled.power_p99_bits = p99(180.0);
    throttled.thermal_throttled = true;
    throttled.sustained_clock_mhz = Some(1830 - F2_APPLY_CLOCK_HOLD_TOL_MHZ - 1);
    let mut other_run_high_fps = high_fps.clone();
    other_run_high_fps.run_id = "other-run".into();
    other_run_high_fps.power_p99_bits = p99(189.0);
    let mut other_run_texture = texture.clone();
    other_run_texture.run_id = "other-run".into();
    other_run_texture.power_p99_bits = p99(190.0);
    let mut other_run_transitions = transitions.clone();
    other_run_transitions.run_id = "other-run".into();
    other_run_transitions.power_p99_bits = p99(191.0);
    let mut other_run_memory = memory.clone();
    other_run_memory.run_id = "other-run".into();
    other_run_memory.power_p99_bits = p99(190.5);

    let observations = [
        high_fps.clone(),
        texture,
        transitions,
        memory,
        throttled,
        other_run_high_fps,
        other_run_texture,
        other_run_transitions,
        other_run_memory,
    ];
    assert_eq!(
        watts(current_apply_qualification_p99_at_anchor(&observations, "apply-v7", 1830, 862, "RTX 3060 Ti")),
        Some(173.125)
    );
    assert_eq!(
        current_apply_qualification_p95_clock_at_anchor(&observations, "apply-v7", 1830, 862, "RTX 3060 Ti"),
        Some(1890)
    );
    assert_eq!(
        watts(highest_apply_qualification_p99_at_anchor(&observations, 1830, 862, "RTX 3060 Ti")),
        Some(191.0),
        "restored snapshots use the highest complete approved run"
    );
    assert_eq!(
        current_apply_qualification_p99_at_anchor(&[high_fps], "apply-v7", 1830, 862, "RTX 3060 Ti"),
        None,
        "one approved pattern alone cannot publish soak power"
    );
}

#[test]
fn apply_qualification_held_thermal_reading_is_trusted_but_sag_is_excluded() {
    let held = |pattern: F2QualificationPattern, w: f32| -> F2Observation {
        let mut o = apply_qualification_pass(obs(1935, 956, F2ObsOutcome::Validated), pattern);
        o.run_id = "held-thermal".into();
        o.gpu_key = Some("RTX 4070".into());
        o.thermal_throttled = true;
        o.sustained_clock_mhz = Some(1935); // held at target despite the flag
        o.sustained_upper_clock_mhz = Some(1965);
        o.power_p99_bits = p99(w);
        o
    };
    let held_set = [
        held(F2QualificationPattern::HighFps, 199.0),
        held(F2QualificationPattern::Texture, 199.7),
        held(F2QualificationPattern::Transitions, 199.1),
        held(F2QualificationPattern::Memory, 199.3),
    ];
    assert_eq!(
        watts(current_apply_qualification_p99_at_anchor(&held_set, "held-thermal", 1935, 956, "RTX 4070")),
        Some(199.7),
        "held-clock thermal readings publish (highest p99), never understating power"
    );
    assert_eq!(
        current_apply_qualification_p95_clock_at_anchor(&held_set, "held-thermal", 1935, 956, "RTX 4070"),
        Some(1965),
        "held-clock thermal readings publish the sustained upper clock"
    );

    let mut sagged_set = held_set.clone();
    sagged_set[1].sustained_clock_mhz = Some(1935 - F2_APPLY_CLOCK_HOLD_TOL_MHZ - 1);
    assert_eq!(
        current_apply_qualification_p99_at_anchor(&sagged_set, "held-thermal", 1935, 956, "RTX 4070"),
        None,
        "a thermal slowdown that sagged the clock still fails closed"
    );
    assert_eq!(
        current_apply_qualification_p95_clock_at_anchor(&sagged_set, "held-thermal", 1935, 956, "RTX 4070"),
        None,
        "a thermal slowdown that sagged the clock still fails closed"
    );
}
