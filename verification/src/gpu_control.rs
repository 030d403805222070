//! GPU tuning backends and the simulated stability frontier, so the pure sweep engine can run
//! against either real hardware or a deterministic simulation (never claiming to apply
//! something that was not applied).
use vstd::prelude::*;
use crate::gpu_sweep::{StabilityResult, VfPoint};

verus! {

/// Applies and reverts GPU V/F points. Reversible, no reboot.
pub trait GpuTuner {
    /// Whether this backend actually writes to hardware.
    fn is_real(&self) -> bool;

    /// A short human label for the UI.
    fn backend_label(&self) -> &'static str;

    /// Read the current V/F operating point, if available.
    fn read_current(&self) -> Option<VfPoint>;

    /// Apply a V/F point. Returns Err if the backend cannot write.
    fn apply(&mut self, point: VfPoint) -> Result<(), String>;

    /// Restore stock (remove all offsets).
    fn reset(&mut self) -> Result<(), String>;
}

/// Deterministic simulation of a silicon stability frontier (for tests, demos, and running the
/// full pipeline end-to-end without touching the GPU).
///
/// The minimum stable voltage rises linearly with frequency. A point a little below the
/// frontier produces *silent errors*; far below it *crashes*.
#[derive(Debug, Clone, Copy, PartialEq, Eq)]
pub struct SimulatedSilicon {
    /// vmin at `ref_freq_mhz`.
    pub base_mv: u32,
    /// Reference frequency for `base_mv`.
    pub ref_freq_mhz: u32,
    /// Added µV per MHz above the reference.
    pub slope_uv_per_mhz: u32,
    /// How far below the frontier (mV) tips from silent error into a crash.
    pub crash_margin_mv: u32,
}

impl Default for SimulatedSilicon {
    fn default() -> (r: Self)
        ensures
            r == (SimulatedSilicon {
                base_mv: 850,
                ref_freq_mhz: 1800,
                slope_uv_per_mhz: 800,
                crash_margin_mv: 60,
            }),
    {
        SimulatedSilicon { base_mv: 850, ref_freq_mhz: 1800, slope_uv_per_mhz: 800, crash_margin_mv: 60 }
    }
}

/// Integer division rounding toward zero (the machine's signed division).
pub open spec fn div_toward_zero(a: int, b: int) -> int {
    if a >= 0 {
        a / b
    } else {
        -((-a) / b)
    }
}

/// The simulated frontier before clamping: `base + (f − ref)·slope/1000`, the quotient rounded
/// toward zero.
pub open spec fn frontier_raw(s: SimulatedSilicon, freq_mhz: u32) -> int {
    s.base_mv + div_toward_zero((freq_mhz - s.ref_freq_mhz) * s.slope_uv_per_mhz, 1000)
}

/// The true minimum stable voltage at a frequency: the raw frontier clamped at 0 and kept to
/// its low 32 bits.
pub open spec fn frontier(s: SimulatedSilicon, freq_mhz: u32) -> u32 {
    let v = frontier_raw(s, freq_mhz);
    (if v > 0 {
        v
    } else {
        0
    }) as u32
}

/// What the simulated silicon does at a point: at or above the frontier it is stable, within
/// the crash margin below it it errs silently, further below it crashes.
pub open spec fn simulated_outcome(s: SimulatedSilicon, point: VfPoint) -> StabilityResult {
    let f = frontier(s, point.freq_mhz);
    if point.voltage_mv >= f {
        StabilityResult::Stable
    } else if point.voltage_mv + s.crash_margin_mv >= f {
        StabilityResult::SilentError
    } else {
        StabilityResult::Crash
    }
}

impl SimulatedSilicon {
    /// The true minimum stable voltage for a frequency.
    pub fn frontier_mv(&self, freq_mhz: u32) -> (r: u32)
        requires
            (freq_mhz - self.ref_freq_mhz) * self.slope_uv_per_mhz <= i64::MAX,
            (freq_mhz - self.ref_freq_mhz) * self.slope_uv_per_mhz >= i64::MIN,
        ensures
            r == frontier(*self, freq_mhz),
    {
        let delta_mhz: i64 = freq_mhz as i64 - self.ref_freq_mhz as i64;
        let product: i64 = delta_mhz * self.slope_uv_per_mhz as i64;
        let delta_mv: i64 = product / 1000;
        let v: i64 = self.base_mv as i64 + delta_mv;
        let clamped: i64 = if v > 0 {
            v
        } else {
            0
        };
        clamped as u32
    }

    /// Judge a point against the simulated frontier.
    pub fn evaluate_point(&self, point: VfPoint) -> (r: StabilityResult)
        requires
            (point.freq_mhz - self.ref_freq_mhz) * self.slope_uv_per_mhz <= i64::MAX,
            (point.freq_mhz - self.ref_freq_mhz) * self.slope_uv_per_mhz >= i64::MIN,
        ensures
            r == simulated_outcome(*self, point),
    {
        let frontier = self.frontier_mv(point.freq_mhz);
        if point.voltage_mv >= frontier {
            StabilityResult::Stable
        } else if point.voltage_mv as u64 + self.crash_margin_mv as u64 >= frontier as u64 {
            StabilityResult::SilentError
        } else {
            StabilityResult::Crash
        }
    }
}

/// Simulated tuner — records the last applied point; no hardware touched.
#[derive(Debug, Clone)]
pub struct SimulatedGpuTuner {
    pub applied: Option<VfPoint>,
    pub stock: Option<VfPoint>,
}

impl Default for SimulatedGpuTuner {
    fn default() -> (r: Self)
        ensures
            r.applied is None,
            r.stock is None,
    {
        SimulatedGpuTuner { applied: None, stock: None }
    }
}

impl SimulatedGpuTuner {
    pub fn new(stock: VfPoint) -> (r: Self)
        ensures
            r.applied == Some(stock),
            r.stock == Some(stock),
    {
        SimulatedGpuTuner { applied: Some(stock), stock: Some(stock) }
    }
}

impl GpuTuner for SimulatedGpuTuner {
    fn is_real(&self) -> (r: bool)
        ensures
            !r,
    {
        false
    }

    fn backend_label(&self) -> (r: &'static str)
        ensures
            r@ == "simulated"@,
    {
        "simulated"
    }

    fn read_current(&self) -> (r: Option<VfPoint>)
        ensures
            r == (if self.applied is Some {
                self.applied
            } else {
                self.stock
            }),
    {
        match self.applied {
            Some(p) => Some(p),
            None => self.stock,
        }
    }

    fn apply(&mut self, point: VfPoint) -> (r: Result<(), String>)
        ensures
            r is Ok,
            final(self).applied == Some(point),
            final(self).stock == old(self).stock,
    {
        self.applied = Some(point);
        Ok(())
    }

    fn reset(&mut self) -> (r: Result<(), String>)
        ensures
            r is Ok,
            final(self).applied == old(self).stock,
            final(self).stock == old(self).stock,
    {
        self.applied = self.stock;
        Ok(())
    }
}


/// The refusal of the read-only NVIDIA backend.
pub open spec fn nvml_write_refusal() -> Seq<char> {
    "Real V/F curve writes via NVAPI are not wired yet (v0.3 ships the engine; real writes land once the NVAPI bindings are validated). Use the simulated backend."@
}

/// Real NVIDIA backend, read-only: it reports the live core clock that the host last read from
/// the first GPU through NVML (consumer cards expose no per-point voltage, so the voltage reads
/// 0, never a made-up measurement) and refuses every write until the NVAPI curve path is wired.
#[derive(Debug, Clone, Copy, PartialEq, Eq)]
pub struct NvmlReadOnlyTuner {
    /// The first GPU's live core clock, when a reading had one.
    pub core_clock_mhz: Option<u32>,
}

impl GpuTuner for NvmlReadOnlyTuner {
    fn is_real(&self) -> (r: bool)
        ensures
            r,
    {
        true
    }

    fn backend_label(&self) -> (r: &'static str)
        ensures
            r@ == "NVAPI (read-only)"@,
    {
        "NVAPI (read-only)"
    }

    fn read_current(&self) -> (r: Option<VfPoint>)
        ensures
            r == match self.core_clock_mhz {
                Some(f) => Some(VfPoint { freq_mhz: f, voltage_mv: 0 }),
                None => None,
            },
    {
        match self.core_clock_mhz {
            Some(f) => Some(VfPoint { freq_mhz: f, voltage_mv: 0 }),
            None => None,
        }
    }

    fn apply(&mut self, point: VfPoint) -> (r: Result<(), String>)
        ensures
            r matches Err(e) && e@ == nvml_write_refusal(),
            *final(self) == *old(self),
    {
        Err(
            String::from_str(
                "Real V/F curve writes via NVAPI are not wired yet (v0.3 ships the engine; real writes land once the NVAPI bindings are validated). Use the simulated backend.",
            ),
        )
    }

    fn reset(&mut self) -> (r: Result<(), String>)
        ensures
            r is Ok,
            *final(self) == *old(self),
    {
        Ok(())
    }
}

} // verus!
