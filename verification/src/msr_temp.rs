//! Intel CPU temperature from MSRs (IA32_THERM_STATUS + IA32_TEMPERATURE_TARGET).
use vstd::prelude::*;
use crate::msr::MsrValue;

verus! {

pub const IA32_THERM_STATUS: u32 = 0x19C;

pub const IA32_TEMPERATURE_TARGET: u32 = 0x1A2;

pub const IA32_PACKAGE_THERM_STATUS: u32 = 0x1B1;

/// The reading `tj_max − readout` in °C when it lies strictly between 0 and 125, else `None`.
pub open spec fn plausible_temp(tj_max: int, readout: int) -> Option<u32> {
    if tj_max == 0 || tj_max - readout <= 0 || tj_max - readout >= 125 {
        None
    } else {
        Some((tj_max - readout) as u32)
    }
}

/// The digital readout (bits 22:16) of a thermal status register.
pub open spec fn digital_readout(status: MsrValue) -> int {
    (status.eax as int / 0x1_0000) % 0x80
}

fn temp_from_fields(tj_max: u32, readout: u32) -> (r: Option<u32>)
    ensures
        r == plausible_temp(tj_max as int, readout as int),
{
    if tj_max == 0 || tj_max <= readout || tj_max - readout >= 125 {
        None
    } else {
        Some(tj_max - readout)
    }
}

/// Core temperature in °C from the digital readout (best-effort): TjMax (bits 23:16 of the
/// temperature target) minus the readout, when that lies strictly between 0 and 125.
pub fn core_temp_c_from_msrs(status: MsrValue, target: MsrValue) -> (r: Option<u32>)
    ensures
        r == plausible_temp((target.eax as int / 0x1_0000) % 0x100, digital_readout(status)),
{
    let s = status.eax;
    let t = target.eax;
    assert((s >> 16u32) & 0x7Fu32 == (s as int / 0x1_0000) % 0x80) by (bit_vector);
    assert((t >> 16u32) & 0xFFu32 == (t as int / 0x1_0000) % 0x100) by (bit_vector);
    let digital_readout = (s >> 16u32) & 0x7F;
    let tj_max = (t >> 16u32) & 0xFF;
    temp_from_fields(tj_max, digital_readout)
}

/// Package temperature from MSR 0x1B1 (when available): TjMax from bits 15:8 of the same
/// register minus the readout, when that lies strictly between 0 and 125.
pub fn package_temp_c_from_msr(status: MsrValue) -> (r: Option<u32>)
    ensures
        r == plausible_temp((status.eax as int / 0x100) % 0x100, digital_readout(status)),
{
    let s = status.eax;
    assert((s >> 16u32) & 0x7Fu32 == (s as int / 0x1_0000) % 0x80) by (bit_vector);
    assert((s >> 8u32) & 0xFFu32 == (s as int / 0x100) % 0x100) by (bit_vector);
    let digital_readout = (s >> 16u32) & 0x7F;
    let tj_max = (s >> 8u32) & 0xFF;
    temp_from_fields(tj_max, digital_readout)
}

} // verus!
