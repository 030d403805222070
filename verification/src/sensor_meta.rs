//! Where a sensor reading came from and how far it can be trusted.
use vstd::prelude::*;

verus! {

/// The subsystem a reading was taken from.
#[derive(Debug, Clone, Copy, PartialEq, Eq)]
pub enum SensorSource {
    SuperIo,
    Msr,
    Wmi,
    Nvml,
    NvidiaSmi,
    Unknown,
}

impl Default for SensorSource {
    fn default() -> (r: Self)
        ensures
            r == SensorSource::Unknown,
    {
        SensorSource::Unknown
    }
}

/// The wire name of a sensor source.
pub open spec fn source_name(s: SensorSource) -> Seq<char> {
    match s {
        SensorSource::SuperIo => "superio"@,
        SensorSource::Msr => "msr"@,
        SensorSource::Wmi => "wmi"@,
        SensorSource::Nvml => "nvml"@,
        SensorSource::NvidiaSmi => "nvidia_smi"@,
        SensorSource::Unknown => "unknown"@,
    }
}

impl SensorSource {
    pub fn as_str(self) -> (r: &'static str)
        ensures
            r@ == source_name(self),
    {
        match self {
            Self::SuperIo => "superio",
            Self::Msr => "msr",
            Self::Wmi => "wmi",
            Self::Nvml => "nvml",
            Self::NvidiaSmi => "nvidia_smi",
            Self::Unknown => "unknown",
        }
    }
}

/// How trustworthy a reading is.
#[derive(Debug, Clone, Copy, PartialEq, Eq)]
pub enum SensorQuality {
    Live,
    Nominal,
    Unavailable,
}

impl Default for SensorQuality {
    fn default() -> (r: Self)
        ensures
            r == SensorQuality::Unavailable,
    {
        SensorQuality::Unavailable
    }
}

/// The wire name of a reading quality.
pub open spec fn quality_name(q: SensorQuality) -> Seq<char> {
    match q {
        SensorQuality::Live => "live"@,
        SensorQuality::Nominal => "nominal"@,
        SensorQuality::Unavailable => "unavailable"@,
    }
}

impl SensorQuality {
    pub fn as_str(self) -> (r: &'static str)
        ensures
            r@ == quality_name(self),
    {
        match self {
            Self::Live => "live",
            Self::Nominal => "nominal",
            Self::Unavailable => "unavailable",
        }
    }
}

} // verus!
