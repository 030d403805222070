//! The detected hardware inventory the capability report and the machine fingerprint are built
//! from.
use vstd::prelude::*;

verus! {

/// The CPU as detected.
#[derive(Debug, Clone, PartialEq, Eq)]
pub struct CpuInfo {
    pub vendor: String,
    pub model: String,
    pub cores: u32,
    pub threads: u32,
    pub base_freq_mhz: u32,
    pub max_freq_mhz: u32,
    /// Intel core generation (e.g. 12 for Alder Lake), when known.
    pub generation: Option<u32>,
}

/// One GPU as detected.
#[derive(Debug, Clone, PartialEq, Eq)]
pub struct GpuInfo {
    pub vendor: String,
    pub model: String,
    pub vram_mb: u64,
    pub max_core_clock_mhz: Option<u32>,
    pub max_memory_clock_mhz: Option<u32>,
}

/// One installed memory module.
#[derive(Debug, Clone, PartialEq, Eq)]
pub struct RamModule {
    pub capacity_mb: u64,
    pub speed_mts: Option<u32>,
    pub manufacturer: String,
    pub part_number: String,
}

/// System memory as detected.
#[derive(Debug, Clone, PartialEq, Eq)]
pub struct RamInfo {
    pub total_mb: u64,
    pub modules: Vec<RamModule>,
    pub xmp_enabled: bool,
    pub configured_speed_mts: u32,
    pub rated_speed_mts: Option<u32>,
}

/// The motherboard identity (SMBIOS).
#[derive(Debug, Clone, PartialEq, Eq)]
pub struct MotherboardInfo {
    pub vendor: String,
    pub model: String,
    pub bios_version: String,
}

/// Everything detected about the machine.
#[derive(Debug, Clone, PartialEq, Eq)]
pub struct HardwareInfo {
    pub cpu: CpuInfo,
    pub gpu: Vec<GpuInfo>,
    pub ram: RamInfo,
    pub motherboard: MotherboardInfo,
}

} // verus!
