//! The service's request vocabulary and the plain status records it answers with.
use vstd::prelude::*;
use crate::gpu_sweep::{StabilityResult, VfPoint};
use crate::safe_loop::{BlacklistRegion, CrashClass, SafeLoopState, TuningPoint};

verus! {

/// What a client can ask the service.
#[derive(Debug, Clone, Copy, PartialEq, Eq)]
pub enum IpcRequest {
    Ping,
    DetectHardware,
    ReadSensors,
    GetCapabilityReport,
    GetDriverStatus,
    GetSafeLoopStatus,
    GetGpuCurve,
    StartGpuValidation,
    GetGpuValidation,
    StartRealSweep,
    StartRealSweepFast,
    StopRealSweep,
    GetRealSweepProgress,
    StartMemSweep,
    StopMemSweep,
    GetMemSweepProgress,
    ApplyGodforge,
    ApplyBrokkrs,
    ApplyDeepCalm,
    ApplyMemPeak,
    ResetGpuTuning,
    /// Deep reset: the emergency recovery of `ResetGpuTuning` that also discards all learning.
    ResetGpuTuningFull,
    GetAppliedProfile,
    VerifyAppliedProfile,
    StartForgeAll,
    StopForgeAll,
    GetForgeAllProgress,
    StartBenchmark,
    StopBenchmark,
    GetBenchmarkProgress,
    StartPowerSweep,
    /// Fast-evidence variant of `StartPowerSweep`.
    StartPowerSweepFast,
    /// High-confidence variant of `StartPowerSweep`.
    StartPowerSweepLong,
    StopPowerSweep,
    GetPowerSweepProgress,
    ApplyPowerGodforge,
    ApplyPowerBrokkrs,
    ApplyPowerDeepCalm,
    /// Write a human-readable log of the latest forge run under the data directory.
    ExportForgeLog,
}

/// Where the rich forge log was written and how much it covered.
#[derive(Debug, Clone, PartialEq, Eq)]
pub struct ForgeLogExport {
    pub path: String,
    pub raw_observations_path: String,
    pub bytes: u64,
    pub observation_count: usize,
    pub note: String,
}

/// Telemetry confidence for a dwell metric, from how many valid samples backed it.
#[derive(Debug, Clone, Copy, PartialEq, Eq)]
pub enum DwellQuality {
    High,
    Medium,
    Low,
    Unavailable,
}

/// Live status of the full auto pipeline.
#[derive(Debug, Clone, PartialEq, Eq)]
pub struct ForgeAllProgress {
    pub running: bool,
    pub phase: String,
    pub log: Vec<String>,
    pub note: Option<String>,
}

/// The GPU profile currently applied, plus the last action's message.
#[derive(Debug, Clone, PartialEq, Eq)]
pub struct GpuApplyStatus {
    pub label: Option<String>,
    pub core: Option<VfPoint>,
    pub mem_offset_mhz: Option<i32>,
    pub message: String,
}

/// Whether the live VF curve matches the applied profile.
#[derive(Debug, Clone, Copy, PartialEq, Eq)]
pub enum CurveVerification {
    NotApplicable,
    MetadataOnly,
    VerifiedCurve,
    LiveMismatch,
    VerificationFailed,
}

/// Whether the applied profile's stored dwell statistics support a load-level claim.
#[derive(Debug, Clone, Copy, PartialEq, Eq)]
pub enum LoadVerification {
    NotEvaluated,
    VerifiedUnderLoad,
    TelemetryInsufficient,
    LoadMismatch,
    WorkloadStateMismatch,
    LoadVerificationFailed,
}

/// The live V/F curve read from the GPU.
#[derive(Debug, Clone, PartialEq, Eq)]
pub struct GpuCurveSnapshot {
    pub name: String,
    pub points: Vec<VfPoint>,
    pub plateau: Option<VfPoint>,
    pub real: bool,
    pub vf_curve_supported: bool,
}

/// One completed stage of the validation battery.
#[derive(Debug, Clone, PartialEq, Eq)]
pub struct GpuStageResult {
    pub name: String,
    pub result: StabilityResult,
    pub mismatches: u32,
    pub elapsed_ms: u64,
}

/// Live status of the GPU compute-validation battery.
#[derive(Debug, Clone, PartialEq, Eq)]
pub struct GpuValidationStatus {
    pub running: bool,
    pub current_stage: Option<String>,
    pub stage_index: u32,
    pub total_stages: u32,
    pub stages: Vec<GpuStageResult>,
    pub result: Option<StabilityResult>,
    pub adapter: Option<String>,
    pub error: Option<String>,
}

/// Read-only snapshot of the Safe Loop.
#[derive(Debug, Clone, PartialEq, Eq)]
pub struct SafeLoopStatus {
    pub state: SafeLoopState,
    pub safe_mode: bool,
    pub consecutive_crashes: u32,
    pub crash_threshold: u32,
    pub boot_flag_armed: bool,
    pub last_validated: Option<TuningPoint>,
    pub blacklist: Vec<BlacklistRegion>,
    pub recent_crashes: Vec<CrashClass>,
}

/// The driver status as sent to clients.
#[derive(Debug, Clone, PartialEq, Eq)]
pub struct DriverStatusPayload {
    pub status: String,
    pub detail: Option<String>,
}

} // verus!
