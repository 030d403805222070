use nidavellir::gpu_control::{GpuTuner, NvmlReadOnlyTuner, SimulatedGpuTuner, SimulatedSilicon};
use nidavellir::gpu_sweep::{StabilityResult, VfPoint};

#[test]
fn simulated_frontier_rises_with_frequency() {
    let s = SimulatedSilicon::default();
    assert!(s.frontier_mv(1950) > s.frontier_mv(1800));
    assert_eq!(s.frontier_mv(1800), 850);
}

#[test]
fn simulated_tuner_records_and_resets() {
    let stock = VfPoint { freq_mhz: 1800, voltage_mv: 1050 };
    let mut t = SimulatedGpuTuner::new(stock);
    assert_eq!(t.read_current(), Some(stock));
    let p = VfPoint { freq_mhz: 1800, voltage_mv: 900 };
    t.apply(p).unwrap();
    assert_eq!(t.read_current(), Some(p));
    t.reset().unwrap();
    assert_eq!(t.read_current(), Some(stock));
    assert!(!t.is_real());
}

#[test]
fn simulated_evaluator_three_zones() {
    let s = SimulatedSilicon::default();
    let f = s.frontier_mv(1800);
    assert_eq!(f, 850);
    assert_eq!(s.evaluate_point(VfPoint { freq_mhz: 1800, voltage_mv: f }), StabilityResult::Stable);
    assert_eq!(
        s.evaluate_point(VfPoint { freq_mhz: 1800, voltage_mv: f - 20 }),
        StabilityResult::SilentError
    );
    assert_eq!(
        s.evaluate_point(VfPoint { freq_mhz: 1800, voltage_mv: f - 200 }),
        StabilityResult::Crash
    );
}

#[test]
fn simulated_frontier_rounds_toward_zero_and_clamps_at_zero() {
    let s = SimulatedSilicon::default();
    // (1801 - 1800) * 800 / 1000 = 0.8 → 0; (1799 - 1800) * 800 / 1000 = -0.8 → 0.
    assert_eq!(s.frontier_mv(1801), 850);
    assert_eq!(s.frontier_mv(1799), 850);
    // 1950 MHz: 150 * 800 / 1000 = 120 mV above the base.
    assert_eq!(s.frontier_mv(1950), 970);
    // Far below the reference the frontier bottoms out at 0.
    assert_eq!(s.frontier_mv(0), 0);
}

#[test]
fn nvml_backend_refuses_writes() {
    let mut t = NvmlReadOnlyTuner { core_clock_mhz: None };
    assert!(t.is_real());
    assert!(t.apply(VfPoint { freq_mhz: 1800, voltage_mv: 900 }).is_err());
    assert!(t.reset().is_ok());
}

#[test]
fn nvml_backend_reads_the_live_clock_without_a_voltage() {
    let t = NvmlReadOnlyTuner { core_clock_mhz: Some(1905) };
    assert_eq!(t.backend_label(), "NVAPI (read-only)");
    assert_eq!(t.read_current(), Some(VfPoint { freq_mhz: 1905, voltage_mv: 0 }));
    assert_eq!(NvmlReadOnlyTuner { core_clock_mhz: None }.read_current(), None);
}
