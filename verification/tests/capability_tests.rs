use nidavellir::capability::build_capability_report;
use nidavellir::detector::{CpuInfo, GpuInfo, HardwareInfo, MotherboardInfo, RamInfo};

fn sample_hw(cpu: CpuInfo, ram: RamInfo) -> HardwareInfo {
    HardwareInfo {
        cpu,
        gpu: vec![GpuInfo {
            vendor: "NVIDIA".into(),
            model: "RTX 3060".into(),
            vram_mb: 12288,
            max_core_clock_mhz: None,
            max_memory_clock_mhz: None,
        }],
        ram,
        motherboard: MotherboardInfo {
            vendor: "Biostar".into(),
            model: "H610".into(),
            bios_version: "1.0".into(),
        },
    }
}

#[test]
fn intel_12th_blocks_runtime_undervolt() {
    let hw = sample_hw(
        CpuInfo {
            vendor: "Intel".into(),
            model: "Core i5-12400".into(),
            cores: 6,
            threads: 12,
            base_freq_mhz: 2500,
            max_freq_mhz: 4400,
            generation: Some(12),
        },
        RamInfo {
            total_mb: 16384,
            modules: vec![],
            xmp_enabled: false,
            configured_speed_mts: 2133,
            rated_speed_mts: None,
        },
    );
    let report = build_capability_report(&hw);
    assert!(report.blocked.iter().any(|i| i.id == "cpu_undervolt"));
    assert!(report.needs_action.iter().any(|i| i.id == "enable_xmp"));
    assert!(report.automatic.iter().any(|i| i.id == "gpu_tuning"));
}

#[test]
fn intel_10th_may_allow_undervolt() {
    let hw = sample_hw(
        CpuInfo {
            vendor: "Intel".into(),
            model: "Core i7-10700K".into(),
            cores: 8,
            threads: 16,
            base_freq_mhz: 3800,
            max_freq_mhz: 5100,
            generation: Some(10),
        },
        RamInfo {
            total_mb: 32768,
            modules: vec![],
            xmp_enabled: true,
            configured_speed_mts: 3200,
            rated_speed_mts: None,
        },
    );
    let report = build_capability_report(&hw);
    assert!(report.automatic.iter().any(|i| i.id == "cpu_undervolt"));
    assert!(report.needs_action.is_empty());
}

#[test]
fn xmp_advice_names_the_configured_speed_and_amd_gets_its_own_block() {
    let hw = sample_hw(
        CpuInfo {
            vendor: "AMD".into(),
            model: "Ryzen 5 5600X".into(),
            cores: 6,
            threads: 12,
            base_freq_mhz: 3700,
            max_freq_mhz: 4600,
            generation: None,
        },
        RamInfo {
            total_mb: 16384,
            modules: vec![],
            xmp_enabled: false,
            configured_speed_mts: 2133,
            rated_speed_mts: Some(3600),
        },
    );
    let report = build_capability_report(&hw);
    assert_eq!(report.needs_action.len(), 1);
    assert_eq!(
        report.needs_action[0].description,
        "RAM is running at 2133 MT/s — likely below module rating. Enable XMP in BIOS."
    );
    let blocked: Vec<&str> = report.blocked.iter().map(|i| i.id.as_str()).collect();
    assert_eq!(blocked, vec!["cpu_undervolt_amd", "ram_timings_runtime"]);
    let automatic: Vec<&str> = report.automatic.iter().map(|i| i.id.as_str()).collect();
    assert_eq!(automatic, vec!["gpu_tuning", "cpu_power_limits", "cpu_turbo_cstates"]);
    assert_eq!(report.fingerprint.hash.len(), 64);
}
