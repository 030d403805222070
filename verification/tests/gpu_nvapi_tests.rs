use nidavellir::gpu_nvapi::{
    curve_points_from_status, monotone_ceiling_writes, reset_readback_verdict,
    nearest_vf_bin_at_or_above, plan_bounded_anchored_positive_offset,
    plan_bounded_positive_offset, plan_vf_ceiling, plan_vf_ceiling_monotone, AnchoredBinRole,
    PositiveOffsetLimits, VfBinClass, POS_OFFSET_MAX_MHZ, POS_OFFSET_STEP_MAX_MHZ,
    TARGET_SWEEP_HORIZON_MAX_MHZ, vfp_calibration_outcome, vfp_calibration_point, vfp_ceiling_deltas,
    VFP_CALIBRATION_PROBE, point_write_step,
};

// (index, voltage_mv, freq_mhz) — shape of read_vf_curve_modern().
fn curve() -> Vec<(usize, u32, u32)> {
    vec![(0, 800, 1700), (1, 837, 1750), (2, 850, 1770), (3, 1062, 1900),
    ]
}

#[test]
fn exact_match_returns_that_bin() {
    assert_eq!(nearest_vf_bin_at_or_above(&curve(), 850), Some((2, 850)));
}

#[test]
fn below_a_bin_rounds_up_to_it() {
    // 820 → the next table voltage at/above is 837.
    assert_eq!(nearest_vf_bin_at_or_above(&curve(), 820), Some((1, 837)));
}

#[test]
fn between_bins_picks_lowest_at_or_above() {
    // 843 sits between the 837 and 850 bins → snaps up to 850.
    assert_eq!(nearest_vf_bin_at_or_above(&curve(), 843), Some((2, 850)));
}

#[test]
fn above_all_bins_clamps_to_highest() {
    assert_eq!(nearest_vf_bin_at_or_above(&curve(), 1100), Some((3, 1062)));
}

#[test]
fn empty_curve_is_none() {
    assert_eq!(nearest_vf_bin_at_or_above(&[], 850), None);
}

// ── plan_vf_ceiling (pure write-plan preview) ────────────────────────────────
#[test]
fn plan_below_ceiling_bins_are_elastic_zero() {
    // ceiling 850 mV → the 800 and 837 mV bins are below-ceiling: desired 0, elastic.
    let plan = plan_vf_ceiling(&curve(), 850, 1770);
    let below: Vec<_> = plan.iter().filter(|e| e.below_ceiling).collect();
    assert_eq!(below.len(), 2); // 800, 837 mV
    for e in below {
        assert_eq!(e.desired_offset_mhz, 0);
        assert!(e.desired_offset_is_zero);
        assert!(!e.in_flatten_set);
        assert_eq!(e.class, VfBinClass::BelowCeiling);
    }
}

#[test]
fn plan_at_or_above_ceiling_computes_target_minus_base() {
    // ceiling 850 mV, target 1770 → the 850 (1770) and 1062 (1900) mV bins flatten.
    let plan = plan_vf_ceiling(&curve(), 850, 1770);
    let b850 = plan.iter().find(|e| e.voltage_mv == 850).unwrap();
    let b1062 = plan.iter().find(|e| e.voltage_mv == 1062).unwrap();
    assert!(b850.in_flatten_set && b1062.in_flatten_set);
    // 850 mV bin is naturally at target → desired 0 (legit zero), AlreadyAtTarget.
    assert_eq!(b850.desired_offset_mhz, 0);
    assert!(b850.desired_offset_is_zero);
    assert_eq!(b850.class, VfBinClass::AlreadyAtTarget);
    // 1062 mV bin base 1900 → 1770 - 1900 = -130 (pull-down).
    assert_eq!(b1062.desired_offset_mhz, -130);
    assert!(!b1062.desired_offset_is_zero);
    assert_eq!(b1062.class, VfBinClass::FlattenDown);
}

#[test]
fn plan_bin_below_target_raises() {
    // A flatten-set bin whose base is BELOW target needs a positive offset.
    let c = vec![(0usize, 900u32, 1700u32)];
    let plan = plan_vf_ceiling(&c, 900, 1770);
    assert_eq!(plan[0].desired_offset_mhz, 70);
    assert_eq!(plan[0].class, VfBinClass::FlattenUp);
}

#[test]
fn plan_flatten_count_matches_nonzero_desired() {
    // The flatten count apply_vf_ceiling reports = bins with a NON-ZERO desired offset.
    // curve(): at ceiling 837, target 1770 → bins 837(1750,+20), 850(1770,0), 1062(1900,-130).
    let plan = plan_vf_ceiling(&curve(), 837, 1770);
    let nonzero = plan.iter().filter(|e| e.desired_offset_mhz != 0).count();
    // 837 (+20) and 1062 (-130) are non-zero; 850 is a legit zero; 800 is below-ceiling.
    assert_eq!(nonzero, 2);
    let flatten_set = plan.iter().filter(|e| e.in_flatten_set).count();
    assert_eq!(flatten_set, 3); // 837, 850, 1062 mV
}

#[test]
fn plan_ceiling_selection_matches_nearest_bin() {
    // A requested 843 mV snaps to the 850 mV bin; planning at that snapped ceiling
    // must put exactly the 850 and 1062 mV bins in the flatten set.
    let (_, snapped) = nearest_vf_bin_at_or_above(&curve(), 843).unwrap();
    assert_eq!(snapped, 850);
    let plan = plan_vf_ceiling(&curve(), snapped, 1770);
    let in_set: Vec<u32> = plan.iter().filter(|e| e.in_flatten_set).map(|e| e.voltage_mv).collect();
    assert_eq!(in_set, vec![850, 1062]);
}

// ── plan_vf_ceiling_monotone (build-frontier static-base monotone-down) ───────
// Static-base curve: (index, voltage_mv, base_freq_mhz). Bins span below/at/above a 900 mV
// ceiling; the 1062 mV bin's static base (1845) is the overshoot case from the 1755@900 run.
fn base_curve() -> Vec<(usize, u32, u32)> {
    vec![(0, 800, 1650), (1, 875, 1700), (2, 900, 1740), (3, 975, 1800), (4, 1062, 1845),
    ]
}

#[test]
fn monotone_never_emits_positive_offset() {
    let plan = plan_vf_ceiling_monotone(&base_curve(), 900, 1755);
    assert!(plan.iter().all(|e| e.desired_offset_mhz <= 0));
    assert!(plan.iter().all(|e| e.class != VfBinClass::FlattenUp));
}

#[test]
fn monotone_high_base_caps_exactly_to_target() {
    // 1062 mV bin base 1845, target 1755 → offset -90; reconstructed base+offset == target.
    let plan = plan_vf_ceiling_monotone(&base_curve(), 900, 1755);
    let b = plan.iter().find(|e| e.voltage_mv == 1062).unwrap();
    assert_eq!(b.desired_offset_mhz, -90);
    assert_eq!(b.class, VfBinClass::FlattenDown);
    assert_eq!(b.base_mhz as i32 + b.desired_offset_mhz, 1755);
}

#[test]
fn monotone_sub_target_bin_stays_zero() {
    // 900 mV bin base 1740 ≤ target 1755 → offset 0, AlreadyAtTarget, never raised.
    let plan = plan_vf_ceiling_monotone(&base_curve(), 900, 1755);
    let b = plan.iter().find(|e| e.voltage_mv == 900).unwrap();
    assert_eq!(b.desired_offset_mhz, 0);
    assert!(b.in_flatten_set);
    assert_eq!(b.class, VfBinClass::AlreadyAtTarget);
}

#[test]
fn monotone_below_ceiling_is_elastic_zero() {
    let plan = plan_vf_ceiling_monotone(&base_curve(), 900, 1755);
    for e in plan.iter().filter(|e| e.voltage_mv < 900) {
        assert_eq!(e.desired_offset_mhz, 0);
        assert!(e.below_ceiling && !e.in_flatten_set);
        assert_eq!(e.class, VfBinClass::BelowCeiling);
    }
}

#[test]
fn monotone_nonzero_bins_are_at_or_above_ceiling() {
    // Audit B2: every non-zero offset bin's static-base voltage is ≥ ceiling.
    let plan = plan_vf_ceiling_monotone(&base_curve(), 900, 1755);
    for e in plan.iter().filter(|e| e.desired_offset_mhz != 0) {
        assert!(e.voltage_mv >= 900);
    }
}

#[test]
fn monotone_1755_at_900_zero_overshoot() {
    // Reconstruct the predicted plateau over the flatten set: effective = base + offset.
    let plan = plan_vf_ceiling_monotone(&base_curve(), 900, 1755);
    let predicted_max = plan
        .iter()
        .filter(|e| e.in_flatten_set)
        .map(|e| e.base_mhz as i32 + e.desired_offset_mhz)
        .max()
        .unwrap();
    assert_eq!(predicted_max, 1755);
    assert_eq!((predicted_max - 1755).max(0), 0); // overshoot == 0
}

#[test]
fn monotone_empty_curve_is_empty_plan() {
    // No bins → empty plan → writer maps this to a fail-closed Err (no partial unsafe plan).
    assert!(plan_vf_ceiling_monotone(&[], 900, 1755).is_empty());
}

#[test]
fn monotone_no_bins_above_ceiling_has_no_flatten_set() {
    // Ceiling above every bin → nothing in the flatten set → writer fails closed.
    let plan = plan_vf_ceiling_monotone(&base_curve(), 2000, 1755);
    assert!(plan.iter().all(|e| !e.in_flatten_set));
    assert!(plan.iter().all(|e| e.desired_offset_mhz == 0));
}

// ── plan_bounded_positive_offset (F2 true-undervolt, bounded positive raise) ──────────────
// Static base curve (index, voltage_mv, base_freq_mhz): lower-voltage bins have lower base, so a
// small positive offset lets them hold a higher target.
fn pos_base() -> Vec<(usize, u32, u32)> {
    vec![(0, 850, 1700), (1, 900, 1740), (2, 950, 1770), (3, 1000, 1800), (4, 1062, 1845),
    ]
}

fn pos_limits(floor_mv: u32) -> PositiveOffsetLimits {
    // Conservative built-in caps (+30 abs, +15 step) with a generous clock ceiling.
    PositiveOffsetLimits::conservative(floor_mv, 1900)
}

#[test]
fn pos_offset_computes_expected_offset_for_valid_lower_bin() {
    // 900 mV bin base 1740, target 1755 → +15 offset; effective == target; prev 0 → step 15.
    let plan = plan_bounded_positive_offset(&pos_base(), 1, 1755, 0, &pos_limits(850)).unwrap();
    assert_eq!(plan.voltage_mv, 900);
    assert_eq!(plan.base_mhz, 1740);
    assert_eq!(plan.offset_mhz, 15);
    assert_eq!(plan.effective_mhz, 1755);
    assert_eq!(plan.step_delta_mhz, 15);
}

#[test]
fn pos_offset_rejects_above_absolute_bound() {
    // 850 mV bin base 1700, target 1735 → +35 offset > +30 abs cap. prev 30 → step 5 (within),
    // floor 850 ok → fails ONLY on the absolute cap.
    let err = plan_bounded_positive_offset(&pos_base(), 0, 1735, 30, &pos_limits(850)).unwrap_err();
    assert!(err.contains("absolute cap"), "unexpected error: {err}");
}

#[test]
fn pos_offset_rejects_per_step_bound_violation() {
    // 950 mV bin base 1770, target 1795 → +25 offset (≤ +30 abs) but prev 0 → step +25 > +15.
    let err = plan_bounded_positive_offset(&pos_base(), 2, 1795, 0, &pos_limits(850)).unwrap_err();
    assert!(err.contains("per-step"), "unexpected error: {err}");
}

#[test]
fn pos_offset_rejects_nonsane_foreign_and_empty_base() {
    // Empty base → fail closed.
    assert!(plan_bounded_positive_offset(&[], 0, 1755, 0, &pos_limits(850)).is_err());
    // Foreign / memory-domain point (freq 9000 MHz) → non-sane base, fail closed.
    let foreign = vec![(0usize, 900u32, 1740u32), (1, 1500, 9000)];
    let err = plan_bounded_positive_offset(&foreign, 0, 1755, 0, &pos_limits(850)).unwrap_err();
    assert!(err.contains("non-sane") || err.contains("foreign"), "unexpected error: {err}");
    // A real index that is simply not on the curve → fail closed.
    assert!(plan_bounded_positive_offset(&pos_base(), 99, 1755, 0, &pos_limits(850)).is_err());
}

#[test]
fn pos_offset_refuses_below_hardware_floor() {
    // Floor 950 mV; the 850 mV bin is below it → fails on the floor (before any offset math).
    let err = plan_bounded_positive_offset(&pos_base(), 0, 1710, 0, &pos_limits(950)).unwrap_err();
    assert!(err.contains("hardware floor"), "unexpected error: {err}");
}

#[test]
fn pos_offset_rejects_non_positive_offset() {
    // 1062 mV bin base 1845 ≥ target 1755 → offset ≤ 0 → positive-offset-only, fail closed.
    let err = plan_bounded_positive_offset(&pos_base(), 4, 1755, 0, &pos_limits(850)).unwrap_err();
    assert!(err.contains("positive-offset-only"), "unexpected error: {err}");
}

#[test]
fn pos_offset_rejects_clock_above_ceiling() {
    // Ceiling 1750 MHz; 900 mV bin base 1740, target 1755 (+15, within offset caps) → planned
    // clock 1755 > ceiling 1750 → fail closed.
    let limits = PositiveOffsetLimits::conservative(850, 1750);
    let err = plan_bounded_positive_offset(&pos_base(), 1, 1755, 0, &limits).unwrap_err();
    assert!(err.contains("clock ceiling"), "unexpected error: {err}");
}

// ── plan_bounded_anchored_positive_offset (F2 anchored classic undervolt point) ───────────
// pos_base(): (idx, mV, base) = 850/1700, 900/1740, 950/1770, 1000/1800, 1062/1845.
// Anchor the 900 mV bin (base 1740) at target 1755: +15 raise; the 950/1000/1062 mV bins are all
// above target → capped DOWN; the 850 mV bin is below the anchor → elastic.
#[test]
fn anchored_raises_selected_bin_to_target() {
    let plan =
        plan_bounded_anchored_positive_offset(&pos_base(), 1, 1755, 0, &pos_limits(850)).unwrap();
    assert_eq!(plan.target_mhz, 1755);
    let a = plan.entries.iter().find(|e| e.role == AnchoredBinRole::Anchor).unwrap();
    assert_eq!((a.voltage_mv, a.base_mhz, a.offset_mhz, a.effective_mhz), (900, 1740, 15, 1755));
    assert_eq!(plan.anchor.index, a.index);
    assert_eq!(plan.max_positive_offset_mhz, 15);
    // Exactly one positive offset, and it is the anchor.
    assert_eq!(plan.entries.iter().filter(|e| e.offset_mhz > 0).count(), 1);
}

#[test]
fn anchored_caps_all_higher_voltage_bins_to_target() {
    let plan =
        plan_bounded_anchored_positive_offset(&pos_base(), 1, 1755, 0, &pos_limits(850)).unwrap();
    let caps: Vec<_> =
        plan.entries.iter().filter(|e| e.role == AnchoredBinRole::CappedAbove).collect();
    // 950 (1770→-15), 1000 (1800→-45), 1062 (1845→-90) — all land exactly at target, offset ≤ 0.
    assert_eq!(caps.len(), 3);
    for e in &caps {
        assert!(e.offset_mhz <= 0);
        assert_eq!(e.effective_mhz, 1755);
        assert_eq!(e.base_mhz as i32 + e.offset_mhz, 1755);
    }
    assert_eq!(plan.capped_above_bins, 3);
    assert_eq!(plan.max_negative_flatten_mhz, 90);
    // No higher-voltage bin remains above the target.
    assert!(caps.iter().all(|e| e.effective_mhz <= 1755));
}

#[test]
fn anchored_does_not_over_raise_lower_voltage_bins() {
    let plan =
        plan_bounded_anchored_positive_offset(&pos_base(), 1, 1755, 0, &pos_limits(850)).unwrap();
    let below: Vec<_> =
        plan.entries.iter().filter(|e| e.role == AnchoredBinRole::ElasticBelow).collect();
    // The 850 mV bin (below the 900 mV anchor) stays elastic at offset 0 — never raised.
    assert_eq!(below.len(), 1);
    assert_eq!((below[0].voltage_mv, below[0].offset_mhz), (850, 0));
    assert_eq!(plan.elastic_below_bins, 1);
}

#[test]
fn anchored_rejects_positive_offset_above_absolute_cap() {
    // Anchor the 850 mV bin (base 1700) at 1735 → +35 > +30 abs cap; prev 30 → step 5 (within),
    // floor 850 ok → rejects ONLY on the absolute cap (inherited from the single-bin planner).
    let err = plan_bounded_anchored_positive_offset(&pos_base(), 0, 1735, 30, &pos_limits(850))
        .unwrap_err();
    assert!(err.contains("absolute cap"), "unexpected error: {err}");
}

#[test]
fn anchored_rejects_per_step_cap_violation() {
    // Anchor the 950 mV bin (base 1770) at 1795 → +25 (≤ +30 abs) but prev 0 → step +25 > +15.
    let err =
        plan_bounded_anchored_positive_offset(&pos_base(), 2, 1795, 0, &pos_limits(850)).unwrap_err();
    assert!(err.contains("per-step"), "unexpected error: {err}");
}

#[test]
fn anchored_rejects_target_above_clock_ceiling() {
    // Ceiling 1750 MHz; anchoring the 900 mV bin at 1755 → planned clock 1755 > 1750 → fail closed.
    let limits = PositiveOffsetLimits::conservative(850, 1750);
    let err = plan_bounded_anchored_positive_offset(&pos_base(), 1, 1755, 0, &limits).unwrap_err();
    assert!(err.contains("clock ceiling"), "unexpected error: {err}");
}

#[test]
fn anchored_rejects_non_real_bin_and_malformed_curve() {
    // Index not on the curve → fail closed.
    assert!(plan_bounded_anchored_positive_offset(&pos_base(), 99, 1755, 0, &pos_limits(850)).is_err());
    // Empty base curve → fail closed.
    assert!(plan_bounded_anchored_positive_offset(&[], 0, 1755, 0, &pos_limits(850)).is_err());
    // Foreign / non-sane base (freq 9000 MHz) → fail closed.
    let foreign = vec![(0usize, 900u32, 1740u32), (1, 1500, 9000)];
    let err = plan_bounded_anchored_positive_offset(&foreign, 0, 1755, 0, &pos_limits(850)).unwrap_err();
    assert!(err.contains("non-sane") || err.contains("foreign"), "unexpected error: {err}");
}

#[test]
fn anchored_rejects_non_monotone_lower_bin_above_target() {
    // A lower-voltage bin whose base already sits ABOVE target is non-monotone/unsafe. Anchor the
    // 1000 mV bin (base 1800) at 1810 (+10); the 950 mV lower bin base 1770 ≤ 1810 is fine, but a
    // crafted curve with a below-anchor bin above target must be rejected.
    let curve = vec![(0usize, 850u32, 1820u32), (1, 1000, 1800)];
    // Anchor index 1 (1000 mV, base 1800) at 1810 → +10. The 850 mV bin base 1820 > 1810 target.
    let err =
        plan_bounded_anchored_positive_offset(&curve, 1, 1810, 0, &pos_limits(850)).unwrap_err();
    assert!(err.contains("non-monotone"), "unexpected error: {err}");
}

#[test]
fn hardware_frontier_limits_come_from_real_clock_domain() {
    let limits = PositiveOffsetLimits::hardware_frontier(850, 1950, 1500);
    assert_eq!(limits.abs_max_offset_mhz, 450);
    assert_eq!(limits.step_max_offset_mhz, 450);
    assert_eq!((limits.hw_floor_mv, limits.clock_ceiling_mhz), (850, 1950));
}

#[test]
fn hardware_frontier_allows_deep_real_bin_but_never_clock_above_stock_top() {
    let limits = PositiveOffsetLimits::hardware_frontier(850, 1950, 1500);
    let plan = plan_bounded_positive_offset(&pos_base(), 0, 1900, 0, &limits).unwrap();
    assert_eq!((plan.offset_mhz, plan.effective_mhz), (200, 1900));
    let err = plan_bounded_positive_offset(&pos_base(), 0, 1965, 0, &limits).unwrap_err();
    assert!(err.contains("clock ceiling"), "unexpected error: {err}");
}

// ── TARGET-SWEEP learned offset horizon (official --auto-sweep envelope) ──────────────────
// The horizon raises ONLY the absolute cap (+210) while keeping the per-step cap at +15, so a
// deeper bin is reachable solely through validated chained +15 increments — never one big jump.
fn horizon_limits(floor_mv: u32) -> PositiveOffsetLimits {
    PositiveOffsetLimits::target_sweep_learning_horizon(floor_mv, 2000)
}

#[test]
fn target_sweep_horizon_raises_only_absolute_cap_keeps_per_step() {
    let h = PositiveOffsetLimits::target_sweep_learning_horizon(850, 1900);
    assert_eq!(h.abs_max_offset_mhz, TARGET_SWEEP_HORIZON_MAX_MHZ);
    assert_eq!(h.abs_max_offset_mhz, 210);
    // CRITICAL: per-step stays conservative (unlike manual_prior, which widens BOTH caps).
    assert_eq!(h.step_max_offset_mhz, POS_OFFSET_STEP_MAX_MHZ);
    assert_eq!(h.step_max_offset_mhz, 15);
    // Floor / ceiling pass through unchanged from the caller (same as `conservative`).
    assert_eq!((h.hw_floor_mv, h.clock_ceiling_mhz), (850, 1900));
}

#[test]
fn target_sweep_horizon_allows_plus45_after_validated_plus30() {
    // The +30 default ABSOLUTE cap saturates here: the 850 mV bin (base 1700) at 1745 needs +45.
    // Under the conservative envelope +45 > +30 → rejected; under the horizon, +45 ≤ +210 AND the
    // per-step delta from the last validated +30 is +15 ≤ +15 → it PLANS.
    assert!(plan_bounded_positive_offset(&pos_base(), 0, 1745, 30, &pos_limits(850)).is_err());
    let plan =
        plan_bounded_positive_offset(&pos_base(), 0, 1745, 30, &horizon_limits(850)).unwrap();
    assert_eq!(plan.offset_mhz, 45);
    assert_eq!(plan.step_delta_mhz, 15);
    assert_eq!(plan.effective_mhz, 1745);
}

#[test]
fn target_sweep_horizon_still_rejects_per_step_jump_past_15() {
    // Even under the horizon, a +60 candidate after a validated +30 is a +30 per-step jump
    // (> +15) → rejected on the per-step cap; the +210 absolute cap is NOT the limiter here.
    let err =
        plan_bounded_positive_offset(&pos_base(), 0, 1760, 30, &horizon_limits(850)).unwrap_err();
    assert!(err.contains("per-step"), "unexpected error: {err}");
}

#[test]
fn target_sweep_horizon_rejects_offset_above_hard_cap() {
    // An absolute offset past the +210 horizon hard cap is rejected even with a within-cap
    // per-step delta and a clock under the ceiling — the horizon is still a hard, bounded ceiling.
    let err =
        plan_bounded_positive_offset(&pos_base(), 0, 1911, 200, &horizon_limits(850)).unwrap_err();
    assert!(err.contains("absolute cap"), "unexpected error: {err}");
}

#[test]
fn horizon_does_not_perturb_conservative_or_manual_prior_caps() {
    // Regression: the new constructor must leave the other two envelopes byte-for-byte the same.
    let c = PositiveOffsetLimits::conservative(850, 1900);
    assert_eq!(
        (c.abs_max_offset_mhz, c.step_max_offset_mhz),
        (POS_OFFSET_MAX_MHZ, POS_OFFSET_STEP_MAX_MHZ)
    );
    assert_eq!((c.abs_max_offset_mhz, c.step_max_offset_mhz), (30, 15));
    // Manual-prior still widens BOTH caps to the operator max (single-shot known point).
    let m = PositiveOffsetLimits::manual_prior(850, 1900, 250);
    assert_eq!((m.abs_max_offset_mhz, m.step_max_offset_mhz), (250, 250));
}

#[test]
fn refusal_messages_carry_the_offending_numbers() {
    let err = plan_bounded_positive_offset(&pos_base(), 99, 1755, 0, &pos_limits(850)).unwrap_err();
    assert_eq!(err, "F2: bin index 99 is not a real VF point — fail closed");
    let curve = vec![(0usize, 850u32, 1820u32), (1, 1000, 1800)];
    let err =
        plan_bounded_anchored_positive_offset(&curve, 1, 1810, 0, &pos_limits(850)).unwrap_err();
    assert_eq!(
        err,
        "F2 anchored: lower-voltage bin 850 mV base 1820 MHz already above target 1810 MHz — non-monotone/unsafe, fail closed"
    );
}

#[test]
fn monotone_writes_fail_closed_without_a_base_or_a_bin_at_the_ceiling() {
    assert_eq!(
        monotone_ceiling_writes(&[], 900, 1800).unwrap_err(),
        "static VF-table base unavailable (read_vf_base_curve_modern empty) — fail closed"
    );
    assert_eq!(
        monotone_ceiling_writes(&curve(), 1100, 1800).unwrap_err(),
        "no static-base bin at/above ceiling 1100 mV — fail closed"
    );
    let plan = monotone_ceiling_writes(&curve(), 850, 1760).unwrap();
    let offsets: Vec<i32> = plan.iter().map(|e| e.desired_offset_mhz).collect();
    // 800/837 mV stay elastic; 850 mV (1770) caps by -10; 1062 mV (1900) caps by -140.
    assert_eq!(offsets, vec![0, 0, -10, -140]);
}

#[test]
fn reset_readback_accepts_only_a_stock_point() {
    assert!(reset_readback_verdict(3, Some(0)).is_ok());
    assert!(reset_readback_verdict(3, Some(-1000)).is_ok());
    assert_eq!(reset_readback_verdict(3, Some(15_000)).unwrap_err(), "VF reset: point 3 still has 15000 kHz offset");
    assert_eq!(reset_readback_verdict(4, Some(-1001)).unwrap_err(), "VF reset: point 4 still has -1001 kHz offset");
    assert_eq!(reset_readback_verdict(7, None).unwrap_err(), "VF reset: point 7 readback unavailable");
}

#[test]
fn status_sweep_keeps_points_with_a_voltage_in_mhz_and_mv() {
    let status = vec![Some((1_700_500, 800_900)), None, Some((1_750_000, 0)), Some((1_900_000, 1_062_000))];
    assert_eq!(curve_points_from_status(&status), vec![(0, 800, 1700), (3, 1062, 1900)]);
}

// (index, voltage_uv, freq_khz) — shape of the legacy VFP table's graphics points.
fn vfp_table() -> Vec<(usize, u32, u32)> {
    vec![(0, 800_000, 1_500_000), (5, 1_000_000, 1_900_000), (7, 1_000_000, 1_950_400), (9, 900_000, 2_000_000)]
}

#[test]
fn legacy_ceiling_deltas_cover_only_points_at_or_above_the_ceiling() {
    let d = vfp_ceiling_deltas(&vfp_table(), 900, 1800, 2).unwrap();
    // (1800 − 1900)·2, (1800 − 1950)·2, (1800 − 2000)·2; the 800 mV point stays out.
    assert_eq!(d, vec![(5, -200), (7, -300), (9, -400)]);
}

#[test]
fn legacy_ceiling_deltas_scale_a_raise_by_the_table_unit() {
    let d = vfp_ceiling_deltas(&vfp_table(), 1000, 2000, 1000).unwrap();
    assert_eq!(d, vec![(5, 100_000), (7, 50_000)]);
}

#[test]
fn legacy_ceiling_refuses_when_no_point_reaches_the_ceiling() {
    let e = vfp_ceiling_deltas(&vfp_table(), 1100, 1800, 2).unwrap_err();
    assert_eq!(e, "no curve points at/above the ceiling voltage");
    assert!(vfp_ceiling_deltas(&[], 900, 1800, 2).is_err());
}

#[test]
fn calibration_probes_the_last_top_voltage_point() {
    assert_eq!(vfp_calibration_point(&vfp_table()), Some((7, 1950)));
    assert_eq!(vfp_calibration_point(&[]), None);
}

#[test]
fn calibration_outcome_reports_how_far_the_probe_point_moved() {
    let reread = vec![(5, 1_000_000, 1_900_000), (7, 1_000_000, 1_935_000), (7, 1_000_000, 1_000_000)];
    assert_eq!(vfp_calibration_outcome(7, 1950, &reread), (VFP_CALIBRATION_PROBE, -15, 1950));
    assert_eq!(VFP_CALIBRATION_PROBE, -30000);
    // The probe point missing from the re-read counts as unmoved.
    assert_eq!(vfp_calibration_outcome(3, 1950, &reread), (-30000, 0, 1950));
}

#[test]
fn point_write_step_counts_accepted_nonzero_writes() {
    assert_eq!(point_write_step(2, 17, -30, 0, ""), Ok(3));
    assert_eq!(point_write_step(2, 17, 0, 0, ""), Ok(2));
    assert_eq!(point_write_step(0, 40, 15, 0, "F2: "), Ok(1));
}

#[test]
fn point_write_step_stops_on_a_rejected_write() {
    assert_eq!(point_write_step(2, 17, -30, -5, "F2: "), Err("F2: set_point(17) status -5".to_string()));
    assert_eq!(point_write_step(0, 3, 0, 12, ""), Err("set_point(3) status 12".to_string()));
    assert_eq!(
        point_write_step(0, 250, 0, -1, "VF reset: "),
        Err("VF reset: set_point(250) status -1".to_string())
    );
}
