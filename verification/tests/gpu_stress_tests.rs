use nidavellir::gpu_stress::{
    C1,
    C2,
    GOLDEN_MIN_FRAMES,
    SPARSE_CHECKSUM_FRAME_INTERVAL,
    BOOST_EDGE_BUBBLE_US,
    MIXED_GAME_WORKLOADS,
    Dx11Golden,
    RenderGoldens,
    RenderIntegrityGoldens,
    VfQualifierPhase,
    VfQualifierPattern,
    VfQualifierSegment,
    VfWorkload,
    finish_golden_capture,
    frame_time_degraded,
    integrity_goldens_for_workload,
    lcg,
    lcg_jump,
    mixed_game_draw_order,
    observe_golden_checksum,
    qualifier_expected_phases,
    reduce3_checksum_cpu,
    render_integrity_result,
    sparse_checksum_due,
    sparse_checksum_workload,
    stronger_stability_failure,
    vf_qualifier_checksum_method,
    vf_qualifier_plan,
    vf_qualifier_workload_fingerprint,
};
use nidavellir::gpu_stress::{merge_field_canary, FieldCanaryReport, RenderOutcome, VfPhaseReport};
use nidavellir::gpu_stress::{affine_pow_mod, count_mismatches, stage_verdict, CHAIN_CP, CHAIN_CQ};
use nidavellir::gpu_stress::{gather_reference, HASH1, TABLE_INIT};
use nidavellir::gpu_stress::{qualifier_segment_step, QualifierSegmentStep};
use nidavellir::gpu_sweep::StabilityResult;

#[test]
fn lcg_reference_is_deterministic() {
    assert_eq!(lcg(0, 1), C2);
    assert_eq!(lcg(123, 1000), lcg(123, 1000));
}

#[test]
fn boost_edge_bubbles_cycle_and_stay_sub_millisecond() {
    // The lobby cadence relies on varied per-frame bubbles; a degenerate all-zero or
    // millisecond-scale table would collapse the drain→idle→ramp edge it exists to create.
    assert!(BOOST_EDGE_BUBBLE_US.iter().any(|&us| us > 0), "some frames must idle");
    assert!(BOOST_EDGE_BUBBLE_US.iter().all(|&us| us < 1000), "bubbles must stay sub-ms");
}

#[test]
fn sparse_checksum_cadence_is_explicit_and_starts_on_first_frame() {
    assert!(sparse_checksum_workload(VfWorkload::BoostEdge));
    assert!(sparse_checksum_workload(VfWorkload::MixedGame));
    assert!(sparse_checksum_workload(VfWorkload::CompositeGameLoad));
    assert!(!sparse_checksum_workload(VfWorkload::TextureRop));
    assert!(sparse_checksum_due(0));
    assert!(!sparse_checksum_due(SPARSE_CHECKSUM_FRAME_INTERVAL - 1));
    assert!(sparse_checksum_due(SPARSE_CHECKSUM_FRAME_INTERVAL));
    assert!(vf_qualifier_checksum_method().contains("sparse16"));
}

#[test]
fn mixed_game_interleaves_every_workload_and_rotates_checked_output() {
    for frame in 0..6 {
        let mut order = mixed_game_draw_order(frame);
        order.sort_unstable();
        assert_eq!(order, [0, 1, 2], "each frame must draw all workloads");
    }
    let checked_outputs = [
        0,
        SPARSE_CHECKSUM_FRAME_INTERVAL,
        SPARSE_CHECKSUM_FRAME_INTERVAL * 2,
    ]
    .map(|frame| mixed_game_draw_order(frame)[2]);
    assert_eq!(checked_outputs, [0, 1, 2]);
    assert_eq!(MIXED_GAME_WORKLOADS[0], VfWorkload::BoostEdge);
    assert_eq!(MIXED_GAME_WORKLOADS[1], VfWorkload::TextureRop);
    assert_eq!(MIXED_GAME_WORKLOADS[2], VfWorkload::PowerRender);
}

#[test]
fn texture_stack_uses_each_texture_domain_and_its_matching_golden() {
    let goldens = RenderGoldens {
        power: 1,
        boost: 2,
        texrop: 3,
        cadence: 4,
        geometry: 5,
        stream: 6,
        stream_frame_reference_ms: 7,
        boost_frame_reference_us: 8,
        dx11: Dx11Golden::default(),
    };
    assert_eq!(
        integrity_goldens_for_workload(goldens, VfWorkload::CompositeGameLoad),
        Some(RenderIntegrityGoldens::Mixed([3, 6, 1]))
    );
    for frame in 0..3 {
        let mut order = mixed_game_draw_order(frame);
        order.sort_unstable();
        assert_eq!(order, [0, 1, 2], "each Texture Stack frame must run all lanes");
    }
}

#[test]
fn workload_fingerprints_are_pattern_specific_and_capture_texture_hop_revision() {
    let texture = vf_qualifier_workload_fingerprint(VfQualifierPattern::V8Texture);
    let endurance = vf_qualifier_workload_fingerprint(VfQualifierPattern::Endurance);
    assert_ne!(texture, endurance);
    assert_eq!(
        texture,
        "f2q-texhop-v13-r3/v13-persistent-field-concurrency"
    );
    assert_eq!(
        endurance,
        "f2q-texhop-v13-r3/endurance-persistent-field-concurrency"
    );
    assert!(vf_qualifier_checksum_method().contains("secondary=persistent-device"));
    assert!(!vf_qualifier_checksum_method().contains("fresh-device"));
}

#[test]
fn field_concurrency_preserves_the_strongest_failure() {
    assert_eq!(
        stronger_stability_failure(StabilityResult::Stable, StabilityResult::Unstable),
        StabilityResult::Unstable
    );
    assert_eq!(
        stronger_stability_failure(StabilityResult::SilentError, StabilityResult::Unstable),
        StabilityResult::SilentError
    );
    assert_eq!(
        stronger_stability_failure(StabilityResult::SilentError, StabilityResult::Crash),
        StabilityResult::Crash
    );
}

#[test]
fn frame_time_degraded_flags_marginal_slowdown_per_regime() {
    // No reference / too few frames / neither regime ⇒ never degraded.
    assert!(!frame_time_degraded(false, false, false, 100, 0, 0, None));
    assert!(!frame_time_degraded(true, false, false, 3, 999_999, 0, Some(20_000)));
    assert!(!frame_time_degraded(false, false, false, 100, 999_999, 999_999, Some(10)));

    // BoostEdge: healthy dwell frames (faster than reference) pass; a 2×+ slowdown fails.
    // reference 400 µs, factor 2 ⇒ threshold 800 µs avg.
    assert!(!frame_time_degraded(false, true, false, 1000, 0, 500 * 1000, Some(400)));
    assert!(frame_time_degraded(false, true, false, 1000, 0, 900 * 1000, Some(400)));

    // TextureStream: ms totals scale to µs. reference 20 000 µs, factor 2 ⇒ 40 ms avg threshold.
    assert!(!frame_time_degraded(true, false, false, 100, 30 * 100, 0, Some(20_000)));
    assert!(frame_time_degraded(true, false, false, 100, 50 * 100, 0, Some(20_000)));
    // A hard stall already fired ⇒ the stream degradation branch defers (stall owns the verdict).
    assert!(!frame_time_degraded(true, false, true, 100, 50 * 100, 0, Some(20_000)));
}

#[test]
fn lcg_jump_matches_loop() {
    for &(seed, n) in &[(0u32, 0u64), (0, 1), (123, 7), (999, 1000), (42, 65536)] {
        let mut x = seed;
        for _ in 0..n {
            x = x.wrapping_mul(C1).wrapping_add(C2);
        }
        assert_eq!(lcg_jump(seed, n), x, "seed={seed} n={n}");
    }
}

#[test]
fn vf_qualifier_plan_preserves_duration_and_crosses_load_amplitudes() {
    let plan = vf_qualifier_plan(60_000, VfQualifierPattern::Fsgl1);
    assert_eq!(plan.iter().map(|segment| segment.duration_ms).sum::<u64>(), 60_000);
    assert_eq!(plan.first().map(|segment| segment.phase), Some(VfQualifierPhase::PowerOpening));
    assert_eq!(plan.last().map(|segment| segment.phase), Some(VfQualifierPhase::PowerClosing));
    assert!(plan.iter().any(|segment| segment.workload == VfWorkload::BoostEdge));
    assert!(plan.iter().any(|segment| segment.workload == VfWorkload::TextureRop));
    assert!(plan.iter().any(|segment| segment.workload == VfWorkload::ComputeBurst));
    assert!(plan.iter().any(|segment| segment.workload == VfWorkload::IdlePulse));
    assert!(plan.iter().all(|segment| segment.duration_ms > 0));
    assert_eq!(VfQualifierPhase::from_code(VfQualifierPhase::TextureRop.code()),
               Some(VfQualifierPhase::TextureRop));
}

#[test]
fn fsgl2_patterns_preserve_duration_and_differ_in_order() {
    let a = vf_qualifier_plan(60_000, VfQualifierPattern::Fsgl2A);
    let b = vf_qualifier_plan(60_000, VfQualifierPattern::Fsgl2B);
    assert_eq!(a.iter().map(|segment| segment.duration_ms).sum::<u64>(), 60_000);
    assert_eq!(b.iter().map(|segment| segment.duration_ms).sum::<u64>(), 60_000);
    let a_order: Vec<_> = a.iter().map(|segment| segment.phase).collect();
    let b_order: Vec<_> = b.iter().map(|segment| segment.phase).collect();
    assert_ne!(a_order, b_order);
    assert!(a.iter().any(|segment| segment.workload == VfWorkload::HeavySpike));
    assert!(b.iter().any(|segment| segment.workload == VfWorkload::TextureRop));
    assert_eq!(VfQualifierPattern::Fsgl2A.label(), "fsgl2-a");
    assert_eq!(VfQualifierPattern::Fsgl2B.label(), "fsgl2-b");
}

#[test]
fn fsgl3_patterns_preserve_duration_bias_texrop_and_differ_in_order() {
    let a = vf_qualifier_plan(60_000, VfQualifierPattern::Fsgl3A);
    let b = vf_qualifier_plan(60_000, VfQualifierPattern::Fsgl3B);
    assert_eq!(a.iter().map(|segment| segment.duration_ms).sum::<u64>(), 60_000);
    assert_eq!(b.iter().map(|segment| segment.duration_ms).sum::<u64>(), 60_000);
    assert_eq!(a.first().map(|segment| segment.phase), Some(VfQualifierPhase::PowerOpening));
    assert_eq!(a.last().map(|segment| segment.phase), Some(VfQualifierPhase::PowerClosing));
    assert_eq!(b.first().map(|segment| segment.phase), Some(VfQualifierPhase::PowerOpening));
    assert_eq!(b.last().map(|segment| segment.phase), Some(VfQualifierPhase::PowerClosing));
    let a_order: Vec<_> = a.iter().map(|segment| segment.phase).collect();
    let b_order: Vec<_> = b.iter().map(|segment| segment.phase).collect();
    assert_ne!(a_order, b_order);
    let texrop_ms = |plan: &[VfQualifierSegment]| {
        plan.iter()
            .filter(|segment| segment.workload == VfWorkload::TextureRop)
            .map(|segment| segment.duration_ms)
            .sum::<u64>()
    };
    assert!(texrop_ms(&a) > 15_000);
    assert!(texrop_ms(&b) > 15_000);
    assert!(a.iter().any(|segment| segment.workload == VfWorkload::MixedGame));
    assert!(b.iter().any(|segment| segment.workload == VfWorkload::MixedGame));
    assert_eq!(VfQualifierPattern::Fsgl3A.label(), "fsgl3-a");
    assert_eq!(VfQualifierPattern::Fsgl3B.label(), "fsgl3-b");
}

#[test]
fn detector_lab_dense_is_canary_dominant_and_pairs_each_perturbation() {
    let plan = vf_qualifier_plan(60_000, VfQualifierPattern::DetectorLabDense);
    assert_eq!(plan.iter().map(|segment| segment.duration_ms).sum::<u64>(), 60_000);
    assert_eq!(plan.first().map(|segment| segment.phase), Some(VfQualifierPhase::PowerOpening));
    assert_eq!(plan.last().map(|segment| segment.phase), Some(VfQualifierPhase::PowerClosing));

    let texture_ms = plan
        .iter()
        .filter(|segment| segment.workload == VfWorkload::TextureRop)
        .map(|segment| segment.duration_ms)
        .sum::<u64>();
    assert!(texture_ms * 100 / 60_000 >= 60);
    assert!(!plan.iter().any(|segment| matches!(
        segment.workload,
        VfWorkload::IdlePulse | VfWorkload::ComputeBurst | VfWorkload::CompositeGameLoad
    )));
    for window in plan[2..plan.len() - 1].windows(2) {
        if window[0].workload != VfWorkload::TextureRop {
            assert_eq!(window[1].workload, VfWorkload::TextureRop);
        }
    }
    assert_eq!(VfQualifierPattern::DetectorLabDense.label(), "detector-lab-v14-dense");
    assert_ne!(
        vf_qualifier_workload_fingerprint(VfQualifierPattern::DetectorLabDense),
        vf_qualifier_workload_fingerprint(VfQualifierPattern::V8Texture)
    );
}

#[test]
fn v13_texture_hop_and_legacy_v8_patterns_preserve_duration_and_bias_failure_modes() {
    let high_fps = vf_qualifier_plan(60_000, VfQualifierPattern::V8HighFps);
    let texture = vf_qualifier_plan(60_000, VfQualifierPattern::V8Texture);
    let compact_texture = vf_qualifier_plan(30_000, VfQualifierPattern::V8Texture);
    let transitions = vf_qualifier_plan(60_000, VfQualifierPattern::V8Transitions);
    let memory = vf_qualifier_plan(60_000, VfQualifierPattern::V8Memory);
    let required_phases = [
        VfQualifierPhase::PowerOpening,
        VfQualifierPhase::BoostEdge,
        VfQualifierPhase::HeavySpike,
        VfQualifierPhase::TextureRop,
        VfQualifierPhase::ComputeBurst,
        VfQualifierPhase::IdlePulse,
        VfQualifierPhase::MixedGame,
        VfQualifierPhase::PowerClosing,
        VfQualifierPhase::FrameCadence,
    ];
    for plan in [&high_fps, &texture, &transitions, &memory] {
        assert_eq!(
            plan.iter().map(|segment| segment.duration_ms).sum::<u64>(),
            60_000
        );
        assert_eq!(
            plan.first().map(|segment| segment.phase),
            Some(VfQualifierPhase::PowerOpening)
        );
        assert_eq!(
            plan.last().map(|segment| segment.phase),
            Some(VfQualifierPhase::PowerClosing)
        );
        for required in required_phases {
            assert!(plan.iter().any(|segment| segment.phase == required));
        }
    }
    // Memory is VRAM-dominant; the other three each carry exactly one unit-specific extra.
    assert!(
        duration_for_workload(&memory, VfWorkload::VramPressure) > 25_000,
        "V8Memory must be VRAM-pressure dominant"
    );
    assert!(high_fps.iter().any(|s| s.workload == VfWorkload::GeometryDepth));
    assert!(texture.iter().any(|s| s.workload == VfWorkload::VramPressure));
    assert!(transitions.iter().any(|s| s.workload == VfWorkload::GeometryDepth));
    let duration_for = |plan: &[VfQualifierSegment], workload| {
        plan.iter()
            .filter(|segment| segment.workload == workload)
            .map(|segment| segment.duration_ms)
            .sum::<u64>()
    };
    assert!(
        duration_for(&high_fps, VfWorkload::BoostEdge)
            > duration_for(&texture, VfWorkload::BoostEdge)
    );
    assert!(
        duration_for(&texture, VfWorkload::TextureRop)
            > duration_for(&high_fps, VfWorkload::TextureRop)
    );
    assert_eq!(
        duration_for(&compact_texture, VfWorkload::BoostEdge),
        1_200,
        "the compact frontier dwell must leave enough BoostEdge residence for numeric coverage"
    );
    assert!(
        transitions
            .iter()
            .filter(|segment| segment.workload == VfWorkload::IdlePulse)
            .count()
            >= 5
    );
    assert_eq!(VfQualifierPattern::V8HighFps.label(), "v8-high-fps");
    assert_eq!(VfQualifierPattern::V8Texture.label(), "v13-texture-hop");
    assert_eq!(VfQualifierPattern::V8Transitions.label(), "v8-transitions");
    assert_eq!(VfQualifierPattern::V8Memory.label(), "v8-memory");
    // Only the legacy Memory pattern retains the preventive banded TextureStream phase.
    // Texture Hop v13 exercises the same VRAM-bound primary stack plus a persistent secondary
    // canary without a pre-hang wall-time abort on either context.
    assert_eq!(qualifier_expected_phases(VfQualifierPattern::V8HighFps), 10);
    assert_eq!(qualifier_expected_phases(VfQualifierPattern::V8Texture), 11);
    assert_eq!(qualifier_expected_phases(VfQualifierPattern::V8Transitions), 10);
    assert_eq!(qualifier_expected_phases(VfQualifierPattern::V8Memory), 12);
    // Severity ladder: hang-prone detectors sit AFTER the last graceful TextureRop segment.
    let last_texrop = memory
        .iter()
        .rposition(|s| s.workload == VfWorkload::TextureRop)
        .unwrap();
    let stream = memory
        .iter()
        .position(|s| s.workload == VfWorkload::TextureStream)
        .unwrap();
    assert!(stream > last_texrop, "TextureStream must run after graceful detectors");
    assert!(
        texture.iter().all(|s| s.workload != VfWorkload::TextureStream),
        "Texture Hop v13 must not use the preventive banded TextureStream path"
    );
    assert_eq!(
        texture.get(1).map(|segment| segment.workload),
        Some(VfWorkload::TextureRop),
        "Texture Hop v13 must enter the binding detector immediately after the opening"
    );
    assert!(
        duration_for(&texture, VfWorkload::TextureRop)
            + duration_for(&texture, VfWorkload::CompositeGameLoad)
            >= 42_000,
        "at least 70% of a 60 s dwell must exercise the binding detector pair"
    );
    assert_eq!(
        texture
            .iter()
            .filter(|segment| segment.workload == VfWorkload::CompositeGameLoad)
            .count(),
        1,
        "Texture Hop must pay the large primary Texture Stack VRAM-pool setup only once per cycle"
    );
    assert!(
        duration_for(&texture, VfWorkload::CompositeGameLoad) >= 30_000,
        "at least half of Texture Hop must exercise field concurrency"
    );
    let idle = texture
        .iter()
        .position(|segment| segment.workload == VfWorkload::IdlePulse)
        .unwrap();
    assert_eq!(
        texture.get(idle + 1).map(|segment| segment.workload),
        Some(VfWorkload::CompositeGameLoad),
        "the Texture Stack must be entered directly from idle"
    );
    assert_eq!(
        texture.get(idle + 2).map(|segment| segment.workload),
        Some(VfWorkload::TextureRop),
        "the golden-checked oracle must immediately inspect the Texture Stack slam"
    );
    assert_eq!(qualifier_expected_phases(VfQualifierPattern::Fsgl1), 8);
    assert_eq!(qualifier_expected_phases(VfQualifierPattern::Fsgl3A), 8);
    for phase in [
        VfQualifierPhase::FrameCadence,
        VfQualifierPhase::VramPressure,
        VfQualifierPhase::GeometryDepth,
    ] {
        assert_eq!(VfQualifierPhase::from_code(phase.code()), Some(phase));
    }
}

fn duration_for_workload(plan: &[VfQualifierSegment], workload: VfWorkload) -> u64 {
    plan.iter()
        .filter(|segment| segment.workload == workload)
        .map(|segment| segment.duration_ms)
        .sum()
}

#[test]
fn endurance_pattern_is_worst_realistic_soak_with_correct_coverage() {
    // One continuous ~20-min dwell; weights must scale to fill the whole requested duration.
    let plan = vf_qualifier_plan(1_200_000, VfQualifierPattern::Endurance);
    assert_eq!(
        plan.iter().map(|segment| segment.duration_ms).sum::<u64>(),
        1_200_000
    );
    // Worst-realistic ingredients: sustained max-power (HeavySpike) + cap-slam (HeavySpike ↔
    // IdlePulse) + fine droop transients (FrameCadence) + game realism (MixedGame), with the
    // graceful golden-checked TextureRop interleaved to catch a stress-induced silent error.
    for workload in [
        VfWorkload::HeavySpike,
        VfWorkload::IdlePulse,
        VfWorkload::FrameCadence,
        VfWorkload::MixedGame,
        VfWorkload::TextureRop,
        // v16.1 composite: heavy render + near-full VRAM-resident gather SIMULTANEOUSLY
        // (replaces the standalone Memory pass AND the sequential VramPressure segments).
        VfWorkload::CompositeGameLoad,
        // v16.2 lobby-like regime: sustained light-frame anchor-bin residency coverage.
        VfWorkload::BoostEdge,
    ] {
        assert!(
            plan.iter().any(|segment| segment.workload == workload),
            "endurance must exercise {workload:?}"
        );
    }
    assert_eq!(
        plan.get(1).map(|segment| segment.workload),
        Some(VfWorkload::TextureRop),
        "Endurance v24 must front-load its graceful rejection detector"
    );
    assert!(
        plan.iter()
            .take(9)
            .any(|segment| segment.workload == VfWorkload::CompositeGameLoad),
        "the rejection tier must reach composite game load before the long thermal proof"
    );
    // Sustained max-power dominates — this is a worst-case soak, harsher than a game's average
    // load (which MixedGame represents), not a single-detector burst.
    assert!(
        duration_for_workload(&plan, VfWorkload::HeavySpike)
            > duration_for_workload(&plan, VfWorkload::MixedGame)
    );
    // Cap-slam requires BOTH the heavy burst and the idle release to be present.
    assert!(
        duration_for_workload(&plan, VfWorkload::HeavySpike) > 0
            && duration_for_workload(&plan, VfWorkload::IdlePulse) > 0
    );
    // Phase-coverage denominator is exact and never panics (auto-derived from the plan):
    // PowerOpening, HeavySpike, TextureRop, IdlePulse, CompositeGameLoad, BoostEdge,
    // FrameCadence, MixedGame, PowerClosing = 9.
    assert_eq!(qualifier_expected_phases(VfQualifierPattern::Endurance), 9);
    assert_eq!(VfQualifierPattern::Endurance.label(), "endurance");
}

#[test]
fn transition_shock_pattern_cycles_idle_slam_with_graceful_detector() {
    // Fills the whole requested ~8-min dwell; weights scale exactly.
    let plan = vf_qualifier_plan(480_000, VfQualifierPattern::TransitionShock);
    assert_eq!(
        plan.iter().map(|segment| segment.duration_ms).sum::<u64>(),
        480_000
    );
    // Idle→slam cycles dominate (the launch transition under test); the graceful
    // golden-checked TextureRop between rounds catches slam-induced silent corruption.
    assert!(
        duration_for_workload(&plan, VfWorkload::BoostEntry)
            > duration_for_workload(&plan, VfWorkload::TextureRop)
    );
    assert!(duration_for_workload(&plan, VfWorkload::TextureRop) > 0);
    // Coverage denominator auto-derived: BoostEntry + TextureRop = 2 distinct phases; the new
    // phase code (12) must fit the coverage bitmap (COUNT) without panicking.
    assert_eq!(qualifier_expected_phases(VfQualifierPattern::TransitionShock), 2);
    assert!((VfQualifierPhase::BoostEntry.code() as usize) < VfQualifierPhase::COUNT);
    assert_eq!(
        VfQualifierPhase::from_code(VfQualifierPhase::BoostEntry.code()),
        Some(VfQualifierPhase::BoostEntry)
    );
    assert_eq!(VfQualifierPattern::TransitionShock.label(), "transition-shock");
}

#[test]
fn golden_capture_requires_consistent_frames() {
    let mut reference = None;
    for frame in 1..=GOLDEN_MIN_FRAMES {
        observe_golden_checksum(&mut reference, 0x1234_5678, frame).unwrap();
    }
    assert_eq!(
        finish_golden_capture(reference, GOLDEN_MIN_FRAMES).unwrap(),
        0x1234_5678
    );

    let mut divergent = None;
    observe_golden_checksum(&mut divergent, 7, 1).unwrap();
    assert!(observe_golden_checksum(&mut divergent, 8, 2).is_err());
    assert!(finish_golden_capture(Some(7), GOLDEN_MIN_FRAMES - 1).is_err());
}

#[test]
fn golden_mismatch_maps_to_silent_error() {
    assert_eq!(render_integrity_result(false, false), StabilityResult::Stable);
    assert_eq!(
        render_integrity_result(false, true),
        StabilityResult::SilentError
    );
    assert_eq!(render_integrity_result(true, false), StabilityResult::Crash);
}

#[test]
fn reduce3_checksum_changes_with_single_texel_bit_flip() {
    let base = [0x1234_5678, 0x90ab_cdef, 0x0000_0000, 0xffff_ffff];
    let mut flipped = base;
    flipped[2] ^= 1;
    assert_ne!(
        reduce3_checksum_cpu(&base, 256 * 64),
        reduce3_checksum_cpu(&flipped, 256 * 64)
    );
}

#[test]
fn field_concurrency_environment_failure_is_inconclusive_not_unstable() {
    let phase = VfQualifierPhase::CompositeGameLoad;
    let mut primary = RenderOutcome {
        result: StabilityResult::Stable,
        frames: 100,
        failure_phase: None,
        inconclusive_reason: None,
        phase_reports: vec![VfPhaseReport {
            phase,
            result: StabilityResult::Stable,
            frames: 100,
            checksum_count: 8,
            elapsed_ms: 1_000,
        }],
    };
    let secondary = FieldCanaryReport {
        result: StabilityResult::Stable,
        cycles: 0,
        frames: 0,
        checksum_count: 0,
        inconclusive_reason: Some("field_secondary_init_failed: test".into()),
    };

    merge_field_canary(&mut primary, secondary, phase);

    assert_eq!(primary.result, StabilityResult::Stable);
    assert_eq!(
        primary.inconclusive_reason.as_deref(),
        Some("field_secondary_init_failed: test")
    );
    assert!(primary.failure_phase.is_none());
    assert!(
        primary.phase_reports.is_empty(),
        "the primary queue alone must not complete Field Concurrency"
    );
}

#[test]
fn field_concurrency_secondary_failure_wins_and_counts_add_up() {
    let phase = VfQualifierPhase::CompositeGameLoad;
    let mut primary = RenderOutcome {
        result: StabilityResult::Stable,
        frames: 100,
        failure_phase: None,
        inconclusive_reason: None,
        phase_reports: vec![VfPhaseReport {
            phase,
            result: StabilityResult::Stable,
            frames: 100,
            checksum_count: 8,
            elapsed_ms: 1_000,
        }],
    };
    let secondary = FieldCanaryReport {
        result: StabilityResult::SilentError,
        cycles: 3,
        frames: 40,
        checksum_count: 6,
        inconclusive_reason: None,
    };
    merge_field_canary(&mut primary, secondary, phase);
    assert_eq!(primary.result, StabilityResult::SilentError);
    assert_eq!(primary.frames, 140);
    assert_eq!(primary.failure_phase, Some(phase));
    assert_eq!(primary.phase_reports[0].checksum_count, 14);
    assert_eq!(primary.phase_reports[0].result, StabilityResult::SilentError);

    // A stable primary with too little secondary coverage is inconclusive, not a failure.
    let mut quiet = RenderOutcome {
        result: StabilityResult::Stable,
        frames: 10,
        failure_phase: None,
        inconclusive_reason: None,
        phase_reports: vec![],
    };
    merge_field_canary(
        &mut quiet,
        FieldCanaryReport {
            result: StabilityResult::Stable,
            cycles: 2,
            frames: 5,
            checksum_count: 1,
            inconclusive_reason: None,
        },
        phase,
    );
    assert_eq!(quiet.result, StabilityResult::Stable);
    assert_eq!(quiet.inconclusive_reason.as_deref(), Some("field_secondary_coverage_missing"));
}

#[test]
fn affine_pow_mod_matches_the_pointer_chase() {
    for &mask in &[0u32, 1, 0xFF, (1 << 20) - 1, u32::MAX] {
        for &lane in &[0u32, 1, 7, 65_535] {
            let start = lane.wrapping_mul(CHAIN_CP).wrapping_add(CHAIN_CQ) & mask;
            let mut idx = start;
            for steps in 0..40u64 {
                let (a, c) = affine_pow_mod(steps, mask);
                assert_eq!(a.wrapping_mul(start).wrapping_add(c) & mask, idx, "mask {mask:#x} steps {steps}");
                idx = idx.wrapping_mul(CHAIN_CP).wrapping_add(CHAIN_CQ) & mask;
            }
        }
    }
    // A long chase, checked against the loop.
    let mask = (1u32 << 26) - 1;
    let start = 12_345u32;
    let mut idx = start;
    for _ in 0..8_192 {
        idx = idx.wrapping_mul(CHAIN_CP).wrapping_add(CHAIN_CQ) & mask;
    }
    let (a, c) = affine_pow_mod(8_192, mask);
    assert_eq!(a.wrapping_mul(start).wrapping_add(c) & mask, idx);
}

#[test]
fn readback_mismatches_count_over_the_shorter_buffer_and_decide_the_verdict() {
    assert_eq!(count_mismatches(&[1, 2, 3, 4], &[1, 9, 3, 8, 5]), 2);
    assert_eq!(count_mismatches(&[], &[1]), 0);
    assert_eq!(stage_verdict(0, true, false), StabilityResult::Stable);
    assert_eq!(stage_verdict(2, true, false), StabilityResult::SilentError);
    assert_eq!(stage_verdict(0, false, false), StabilityResult::Crash);
    assert_eq!(stage_verdict(0, true, true), StabilityResult::Crash);
}

#[test]
fn gather_reference_matches_hand_computed_sums() {
    assert_eq!(gather_reference(3, 2, 1024), vec![405801809, 1890129375, 2018245741]);
    assert_eq!(gather_reference(2, 128, 1 << 20), vec![2825472960, 3056004928]);
    assert_eq!(gather_reference(2, 0, 7), vec![0, 0]);
    assert!(gather_reference(0, 128, 64).is_empty());
}

#[test]
fn gather_reference_agrees_with_a_direct_table_walk() {
    let table_len = 4096u32;
    let table: Vec<u32> = (0..table_len).map(|j| j.wrapping_mul(TABLE_INIT)).collect();
    let expected: Vec<u32> = (0..16u32)
        .map(|i| {
            (0..64u32).fold(0u32, |acc, k| {
                let idx = i.wrapping_mul(HASH1).wrapping_add(k.wrapping_mul(TABLE_INIT)) % table_len;
                acc.wrapping_add(table[idx as usize])
            })
        })
        .collect();
    assert_eq!(gather_reference(16, 64, table_len), expected);
}

fn heavy_segment() -> VfQualifierSegment {
    VfQualifierSegment { phase: VfQualifierPhase::HeavySpike, workload: VfWorkload::HeavySpike, duration_ms: 4000 }
}

#[test]
fn segment_step_continues_on_a_stable_conclusive_segment() {
    let r = qualifier_segment_step(100, heavy_segment(), StabilityResult::Stable, 240, None, false);
    assert_eq!(r, QualifierSegmentStep::Continue { frames: 340 });
    let r = qualifier_segment_step(u64::MAX - 5, heavy_segment(), StabilityResult::Stable, 240, None, false);
    assert_eq!(r, QualifierSegmentStep::Continue { frames: u64::MAX });
}

#[test]
fn segment_step_stops_on_failure_and_blames_a_phase() {
    let r = qualifier_segment_step(100, heavy_segment(), StabilityResult::SilentError, 20, None, false);
    assert_eq!(
        r,
        QualifierSegmentStep::Stop {
            result: StabilityResult::SilentError,
            frames: 120,
            failure_phase: Some(VfQualifierPhase::HeavySpike),
            inconclusive: false,
        }
    );
    let r = qualifier_segment_step(0, heavy_segment(), StabilityResult::Crash, 0, Some(VfQualifierPhase::MixedGame), true);
    assert_eq!(
        r,
        QualifierSegmentStep::Stop {
            result: StabilityResult::Crash,
            frames: 0,
            failure_phase: Some(VfQualifierPhase::MixedGame),
            inconclusive: false,
        }
    );
}

#[test]
fn segment_step_stops_stable_when_inconclusive() {
    let r = qualifier_segment_step(10, heavy_segment(), StabilityResult::Stable, 5, None, true);
    assert_eq!(
        r,
        QualifierSegmentStep::Stop { result: StabilityResult::Stable, frames: 15, failure_phase: None, inconclusive: true }
    );
}
