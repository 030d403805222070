use nidavellir::fingerprint::compute_fingerprint;
use nidavellir::detector::{CpuInfo, GpuInfo, HardwareInfo, MotherboardInfo, RamInfo};

#[test]
fn fingerprint_is_stable() {
    let hw = HardwareInfo {
        cpu: CpuInfo {
            vendor: "Intel".into(),
            model: "Core i7-12700K".into(),
            cores: 12,
            threads: 20,
            base_freq_mhz: 3600,
            max_freq_mhz: 5000,
            generation: Some(12),
        },
        gpu: vec![GpuInfo {
            vendor: "NVIDIA".into(),
            model: "RTX 3080".into(),
            vram_mb: 10240,
            max_core_clock_mhz: None,
            max_memory_clock_mhz: None,
        }],
        ram: RamInfo {
            total_mb: 32768,
            modules: vec![],
            xmp_enabled: false,
            configured_speed_mts: 2133,
            rated_speed_mts: None,
        },
        motherboard: MotherboardInfo {
            vendor: "ASUS".into(),
            model: "ROG STRIX Z690".into(),
            bios_version: "1401".into(),
        },
    };
    let a = compute_fingerprint(&hw);
    let b = compute_fingerprint(&hw);
    assert_eq!(a.hash, b.hash);
    assert_eq!(a.hash.len(), 64);
}

fn two_gpu_machine() -> HardwareInfo {
    let gpu = |model: &str| GpuInfo {
        vendor: "NVIDIA".into(),
        model: model.into(),
        vram_mb: 8192,
        max_core_clock_mhz: None,
        max_memory_clock_mhz: None,
    };
    HardwareInfo {
        cpu: CpuInfo {
            vendor: "Intel".into(),
            model: "Core i5-12400".into(),
            cores: 6,
            threads: 12,
            base_freq_mhz: 2500,
            max_freq_mhz: 4400,
            generation: Some(12),
        },
        gpu: vec![gpu("RTX 3060"), gpu("RTX 3070")],
        ram: RamInfo {
            total_mb: 16384,
            modules: vec![],
            xmp_enabled: true,
            configured_speed_mts: 3200,
            rated_speed_mts: None,
        },
        motherboard: MotherboardInfo {
            vendor: "Biostar".into(),
            model: "H610".into(),
            bios_version: "1.0".into(),
        },
    }
}

#[test]
fn fingerprint_hashes_the_pipe_joined_identity() {
    let fp = compute_fingerprint(&two_gpu_machine());
    // SHA-256 of "Core i5-12400|RTX 3060,RTX 3070|Biostar H610|1.0", lowercase hex.
    assert_eq!(fp.hash, "7169f3d6e2e941527b75393576d35a5aeb740d31f64002470232d1c886604046");
    assert_eq!(fp.board, "Biostar H610");
    assert_eq!(fp.gpu_models, vec!["RTX 3060".to_string(), "RTX 3070".to_string()]);
    assert_eq!(fp.cpu_model, "Core i5-12400");
    assert_eq!(fp.bios_version, "1.0");
}

#[test]
fn fingerprint_of_a_known_machine_is_pinned() {
    let hw = HardwareInfo {
        cpu: CpuInfo {
            vendor: "Intel".into(),
            model: "Core i7-12700K".into(),
            cores: 12,
            threads: 20,
            base_freq_mhz: 3600,
            max_freq_mhz: 5000,
            generation: Some(12),
        },
        gpu: vec![GpuInfo {
            vendor: "NVIDIA".into(),
            model: "RTX 3080".into(),
            vram_mb: 10240,
            max_core_clock_mhz: None,
            max_memory_clock_mhz: None,
        }],
        ram: RamInfo {
            total_mb: 32768,
            modules: vec![],
            xmp_enabled: false,
            configured_speed_mts: 2133,
            rated_speed_mts: None,
        },
        motherboard: MotherboardInfo {
            vendor: "ASUS".into(),
            model: "ROG STRIX Z690".into(),
            bios_version: "1401".into(),
        },
    };
    assert_eq!(
        compute_fingerprint(&hw).hash,
        "54a58a3bdcba471e379da33cfa03ff26d3c23bfee5d4f72e953eeba8f9868995"
    );
}
