//! The board-level sensor inputs the sensor engine starts from: which voltage and temperature
//! readings are available, where each came from, and how far to trust it.
use vstd::prelude::*;
use crate::detector::MotherboardInfo;
use crate::sensor_meta::{SensorQuality, SensorSource};
use crate::superio_profile::{ResolvedRails, ResolvedSuperIo};

verus! {

/// The motherboard's sensor readings with their provenance.
#[derive(Debug, Clone)]
pub struct SensorInput {
    pub motherboard: MotherboardInfo,
    pub cpu_vcore_mv: Option<u32>,
    pub cpu_vcore_source: Option<SensorSource>,
    pub cpu_vcore_quality: SensorQuality,
    /// The CPU temperature in °C, as the IEEE-754 bits of its `f32` reading (carried through
    /// unchanged).
    pub cpu_temp_bits: Option<u32>,
    pub cpu_temp_source: Option<SensorSource>,
    pub dram_mv: Option<u32>,
    pub dram_source: Option<SensorSource>,
    pub dram_quality: SensorQuality,
    pub superio: Option<ResolvedSuperIo>,
}

/// Where a rail reading came from: the Super I/O chip when it was resolved there, else nowhere.
pub open spec fn rail_source(mv: Option<u32>) -> Option<SensorSource> {
    if mv is Some { Some(SensorSource::SuperIo) } else { None }
}

/// How far a rail reading is trusted: live when the Super I/O chip gave it, else unavailable.
pub open spec fn rail_quality(mv: Option<u32>) -> SensorQuality {
    if mv is Some { SensorQuality::Live } else { SensorQuality::Unavailable }
}

impl SensorInput {
    /// Assemble the inputs from the driver's parts: the Super I/O rails (when the chip was
    /// resolved) give the CPU core and DRAM voltages as live readings; the CPU temperature is
    /// attributed to the MSRs when it was read there, else to an unknown source.
    pub fn from_driver_parts(
        motherboard: MotherboardInfo,
        superio_resolved: Option<ResolvedRails>,
        cpu_temp_bits: Option<u32>,
        cpu_temp_from_msr: bool,
    ) -> (r: Self)
        ensures
            r.motherboard == motherboard,
            r.superio == (match superio_resolved {
                Some(rr) => Some(rr.meta),
                None => None,
            }),
            r.cpu_vcore_mv == (match superio_resolved {
                Some(rr) => rr.cpu_vcore_mv,
                None => None,
            }),
            r.cpu_vcore_source == rail_source(r.cpu_vcore_mv),
            r.cpu_vcore_quality == rail_quality(r.cpu_vcore_mv),
            r.dram_mv == (match superio_resolved {
                Some(rr) => rr.dram_mv,
                None => None,
            }),
            r.dram_source == rail_source(r.dram_mv),
            r.dram_quality == rail_quality(r.dram_mv),
            r.cpu_temp_bits == cpu_temp_bits,
            r.cpu_temp_source == (if cpu_temp_bits is None {
                None
            } else if cpu_temp_from_msr {
                Some(SensorSource::Msr)
            } else {
                Some(SensorSource::Unknown)
            }),
    {
        let mut input = SensorInput {
            motherboard,
            cpu_vcore_mv: None,
            cpu_vcore_source: None,
            cpu_vcore_quality: SensorQuality::Unavailable,
            cpu_temp_bits: None,
            cpu_temp_source: None,
            dram_mv: None,
            dram_source: None,
            dram_quality: SensorQuality::Unavailable,
            superio: None,
        };
        if let Some(r) = superio_resolved {
            input.superio = Some(r.meta);
            if let Some(mv) = r.cpu_vcore_mv {
                input.cpu_vcore_mv = Some(mv);
                input.cpu_vcore_source = Some(SensorSource::SuperIo);
                input.cpu_vcore_quality = SensorQuality::Live;
            }
            if let Some(mv) = r.dram_mv {
                input.dram_mv = Some(mv);
                input.dram_source = Some(SensorSource::SuperIo);
                input.dram_quality = SensorQuality::Live;
            }
        }
        if let Some(t) = cpu_temp_bits {
            input.cpu_temp_bits = Some(t);
            input.cpu_temp_source = if cpu_temp_from_msr {
                Some(SensorSource::Msr)
            } else {
                Some(SensorSource::Unknown)
            };
        }
        input
    }
}

} // verus!
