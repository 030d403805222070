use nidavellir::condemnation::{
    condemned_pairs, condemned_pairs_for_run, effective_condemnation_events, vf_floor_envelope,
    CondemnationEvent, CondemnationSeverity, KIND_APPLY_GATE_SILENT, KIND_REHABILITATED,
};

fn event(
    severity: CondemnationSeverity,
    clock: u32,
    mv: u32,
    contract: Option<u32>,
) -> CondemnationEvent {
    CondemnationEvent {
        timestamp: "2026-07-16T00:00:00Z".into(),
        gpu_key: Some("gpu-a".into()),
        severity,
        kind: KIND_APPLY_GATE_SILENT.into(),
        target_mhz: clock,
        vf_bin_mv: mv,
        run_id: None,
        qualification_contract_version: contract,
        note: None,
        rehabilitated: false,
    }
}

#[test]
fn rigid_refuses_at_or_below_quarantine_only_strictly_below() {
    let events = [
        event(CondemnationSeverity::Rigid, 1845, 856, Some(17)),
        event(CondemnationSeverity::Quarantine, 1890, 900, Some(17)),
    ];
    let pairs = condemned_pairs(&events, "gpu-a");
    // Rigid: the exact pair and below are refused; one bin above is allowed.
    assert!(pairs.refuses(1845, 856));
    assert!(pairs.refuses(1845, 850));
    assert!(!pairs.refuses(1845, 862));
    // Quarantine: strictly below refused; the exact pair stays attemptable.
    assert!(pairs.refuses(1890, 893));
    assert!(!pairs.refuses(1890, 900));
    // Monotone hold above the highest condemned clock (higher clock needs >= voltage).
    assert!(pairs.refuses(1920, 850)); // rigid floor held flat at 856
    // Below the lowest condemned clock there is no evidence.
    assert!(!pairs.refuses(1740, 793));
}

#[test]
fn envelope_interpolates_ceil_between_condemned_clocks() {
    let pairs = [(1815u32, 862u32), (1875, 887)];
    // Midpoint 1845: ceil(862 + 25 * 30/60) = 875 (exact); a non-exact division rounds UP.
    assert_eq!(vf_floor_envelope(&pairs, 1845), Some(875));
    assert_eq!(vf_floor_envelope(&pairs, 1830), Some(869)); // 868.25 → ceil 869
    assert_eq!(vf_floor_envelope(&pairs, 1800), None);
    assert_eq!(vf_floor_envelope(&pairs, 1920), Some(887));
}

#[test]
fn rehabilitation_cancels_only_prior_entries_at_the_exact_pair() {
    let mut rehab = event(CondemnationSeverity::Rigid, 1845, 856, None);
    rehab.rehabilitated = true;
    rehab.kind = KIND_REHABILITATED.into();
    let events = [
        event(CondemnationSeverity::Rigid, 1845, 856, Some(17)),
        event(CondemnationSeverity::Rigid, 1920, 918, Some(17)),
        rehab,
    ];
    let pairs = condemned_pairs(&events, "gpu-a");
    assert_eq!(pairs.rigid, vec![(1920, 918)]);
}

#[test]
fn effective_events_hide_rehabilitated_pairs_and_rehabilitation_records() {
    let old = event(CondemnationSeverity::Rigid, 1845, 856, Some(17));
    let kept = event(CondemnationSeverity::Quarantine, 1890, 900, Some(17));
    let mut rehab = old.clone();
    rehab.rehabilitated = true;
    rehab.kind = KIND_REHABILITATED.into();
    let effective = effective_condemnation_events(&[old, kept.clone(), rehab]);
    assert_eq!(effective, vec![kept]);
}

#[test]
fn other_gpu_entries_are_ignored_but_keyless_entries_apply_conservatively() {
    let mut other = event(CondemnationSeverity::Rigid, 1845, 856, None);
    other.gpu_key = Some("gpu-b".into());
    let mut keyless = event(CondemnationSeverity::Rigid, 1815, 837, None);
    keyless.gpu_key = None;
    let pairs = condemned_pairs(&[other, keyless], "gpu-a");
    assert_eq!(pairs.rigid, vec![(1815, 837)]);
}

#[test]
fn run_scoped_view_sees_only_its_own_run() {
    let mut historical = event(CondemnationSeverity::Rigid, 1920, 918, Some(17));
    historical.run_id = Some("f2-forge-old".into());
    let mut seeded = event(CondemnationSeverity::Quarantine, 1890, 900, Some(17));
    seeded.run_id = None; // historical seed without a run id
    let mut own = event(CondemnationSeverity::Quarantine, 1875, 887, Some(17));
    own.run_id = Some("f2-forge-new".into());
    let events = [historical, seeded, own];
    let scoped = condemned_pairs_for_run(&events, "gpu-a", "f2-forge-new");
    assert!(scoped.rigid.is_empty());
    assert_eq!(scoped.quarantine, vec![(1875, 887)]);
    // The production view still sees everything.
    let global = condemned_pairs(&events, "gpu-a");
    assert_eq!(global.rigid, vec![(1920, 918)]);
    assert_eq!(global.quarantine.len(), 2);
}

#[test]
fn quarantine_requires_double_proof_unless_contract_is_stronger() {
    let events = [event(CondemnationSeverity::Quarantine, 1890, 900, Some(17))];
    let pairs = condemned_pairs(&events, "gpu-a");
    assert_eq!(pairs.required_apply_passes(1890, 900, 17), 2);
    assert_eq!(pairs.required_apply_passes(1890, 900, 18), 1); // stronger contract re-proves
    assert_eq!(pairs.required_apply_passes(1890, 906, 17), 1); // different pair
    // A legacy entry without a contract version is conservative: always double proof.
    let legacy = [event(CondemnationSeverity::Quarantine, 1890, 900, None)];
    assert_eq!(condemned_pairs(&legacy, "gpu-a").required_apply_passes(1890, 900, 18), 2);
}
