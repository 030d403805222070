use nidavellir::safe_loop::{
    apply_recovery,
    classify_bugcheck,
    decide_recovery,
    parse_bugcheck_code,
    transition,
    whea_soft_fail,
    BlacklistRegion,
    BootFlag,
    CrashClass,
    RecoveryAction,
    SafeLoopEvent,
    SafeLoopRecord,
    SafeLoopState,
    TuningPoint,
};

#[test]
fn transitions_follow_the_happy_path() {
    let mut s = SafeLoopState::Idle;
    s = transition(s, SafeLoopEvent::StartProbe);
    assert_eq!(s, SafeLoopState::Probing);
    s = transition(s, SafeLoopEvent::Applied);
    assert_eq!(s, SafeLoopState::Applying);
    s = transition(s, SafeLoopEvent::EnterDwell);
    assert_eq!(s, SafeLoopState::Dwell);
    s = transition(s, SafeLoopEvent::DwellPassed);
    assert_eq!(s, SafeLoopState::Validated);
}

#[test]
fn soft_fail_and_crash_paths() {
    assert_eq!(
        transition(SafeLoopState::Dwell, SafeLoopEvent::SoftFail),
        SafeLoopState::Unstable
    );
    // A hard crash from any state lands in Unstable…
    assert_eq!(
        transition(SafeLoopState::Applying, SafeLoopEvent::HardCrash),
        SafeLoopState::Unstable
    );
    // …and the safe-mode trip overrides everything.
    assert_eq!(
        transition(SafeLoopState::Dwell, SafeLoopEvent::TripSafeMode),
        SafeLoopState::SafeMode
    );
}

#[test]
fn unknown_transition_is_a_no_op() {
    assert_eq!(
        transition(SafeLoopState::Idle, SafeLoopEvent::DwellPassed),
        SafeLoopState::Idle
    );
}

#[test]
fn bugcheck_classification() {
    assert_eq!(classify_bugcheck(0x124), CrashClass::OcInstability);
    assert_eq!(classify_bugcheck(0x101), CrashClass::OcInstability);
    assert_eq!(classify_bugcheck(0x133), CrashClass::OcInstability);
    assert_eq!(classify_bugcheck(0x50), CrashClass::Unrelated);
    assert_eq!(classify_bugcheck(0), CrashClass::Unknown);
}

#[test]
fn bugcheck_text_parsing() {
    let msg = "The computer has rebooted from a bugcheck. The bugcheck was: \
               0x00000124 (0x0000000000000000, 0xffff). A dump was saved.";
    assert_eq!(parse_bugcheck_code(msg), Some(0x124));
    assert_eq!(parse_bugcheck_code("0x101"), Some(0x101));
    assert_eq!(parse_bugcheck_code("no code here"), None);
}

#[test]
fn whea_delta_is_soft_fail() {
    assert!(whea_soft_fail(2, 5));
    assert!(!whea_soft_fail(5, 5));
    assert!(!whea_soft_fail(5, 4));
}

#[test]
fn chebyshev_and_blacklist_region() {
    let a = TuningPoint::from_axes([("vcore", -50), ("pl1", 120)]);
    let b = TuningPoint::from_axes([("vcore", -60), ("pl1", 120)]);
    assert_eq!(a.chebyshev(&b), 10);

    let region = BlacklistRegion::around(a.clone(), 15);
    assert!(region.contains(&b));
    let far = TuningPoint::from_axes([("vcore", -200), ("pl1", 120)]);
    assert!(!region.contains(&far));
}

#[test]
fn missing_axis_treated_as_zero() {
    let a = TuningPoint::from_axes([("vcore", -30)]);
    let stock = TuningPoint::stock();
    assert_eq!(a.chebyshev(&stock), 30);
    assert!(stock.is_stock());
    assert!(!a.is_stock());
}

#[test]
fn recovery_clean_boot_reapplies_last_validated() {
    let mut rec = SafeLoopRecord::default();
    let good = TuningPoint::from_axes([("vcore", -40)]);
    rec.mark_validated(good.clone());

    let action = decide_recovery(None, CrashClass::Unknown, &rec);
    assert_eq!(action, RecoveryAction::ApplyLastValidated { point: good.clone() });
    assert_eq!(apply_recovery(&mut rec, &action), good);
}

#[test]
fn recovery_clean_boot_nothing_validated_is_idle() {
    let rec = SafeLoopRecord::default();
    assert_eq!(
        decide_recovery(None, CrashClass::Unknown, &rec),
        RecoveryAction::Idle
    );
}

#[test]
fn recovery_armed_flag_blacklists_and_recedes() {
    let mut rec = SafeLoopRecord::default();
    let good = TuningPoint::from_axes([("vcore", -40)]);
    rec.mark_validated(good.clone());
    let crashed = TuningPoint::from_axes([("vcore", -80)]);
    let flag = BootFlag::new(crashed.clone(), "probing", "2024-05-01T12:00:00+00:00");

    let action = decide_recovery(Some(&flag), CrashClass::OcInstability, &rec);
    assert_eq!(
        action,
        RecoveryAction::BlacklistAndRecede {
            crashed: crashed.clone(),
            recede_to: good.clone(),
            class: CrashClass::OcInstability,
        }
    );
    let applied = apply_recovery(&mut rec, &action);
    assert_eq!(applied, good);
    assert_eq!(rec.consecutive_crashes, 1);
    assert!(rec.is_blacklisted(&crashed));
    assert_eq!(rec.crash_log, vec![CrashClass::OcInstability]);
}

#[test]
fn three_consecutive_crashes_trip_safe_mode() {
    let mut rec = SafeLoopRecord::default();
    rec.consecutive_crashes = 2; // two prior crashes already on record
    let crashed = TuningPoint::from_axes([("vcore", -80)]);
    let flag = BootFlag::new(crashed, "probing", "2024-05-01T12:00:00+00:00");

    let action = decide_recovery(Some(&flag), CrashClass::OcInstability, &rec);
    assert_eq!(
        action,
        RecoveryAction::EnterSafeMode {
            stock: TuningPoint::stock()
        }
    );
    let applied = apply_recovery(&mut rec, &action);
    assert!(applied.is_stock());
    assert!(rec.safe_mode);
    assert_eq!(rec.state, SafeLoopState::SafeMode);
    assert_eq!(rec.consecutive_crashes, 3);
}

#[test]
fn safe_mode_persists_on_clean_boot() {
    let mut rec = SafeLoopRecord::default();
    rec.safe_mode = true;
    assert_eq!(
        decide_recovery(None, CrashClass::Unknown, &rec),
        RecoveryAction::EnterSafeMode {
            stock: TuningPoint::stock()
        }
    );
}

#[test]
fn chebyshev_distance_is_symmetric() {
    let a = TuningPoint::from_axes([("vcore", -30), ("ring", 5)]);
    let b = TuningPoint::from_axes([("vcore", -10), ("vsa", -25)]);
    assert_eq!(a.chebyshev(&b), 25);
    assert_eq!(b.chebyshev(&a), 25);
    assert_eq!(a.chebyshev(&a), 0);
}

#[test]
fn entries_are_sorted_with_each_axis_once() {
    let p = TuningPoint::from_entries(vec![
        ("vcore".to_string(), -40),
        ("ring".to_string(), 3),
        ("vcore".to_string(), -80),
    ]);
    assert_eq!(p.entries(), &vec![("ring".to_string(), 3), ("vcore".to_string(), -80)]);
    assert!(!p.is_stock());
    assert!(TuningPoint::from_entries(vec![("vcore".to_string(), 0), ("ring".to_string(), 0)]).is_stock());
    assert_eq!(TuningPoint::from_entries(Vec::new()), TuningPoint::stock());
}
