//! Decoding of Intel model-specific register values: turbo ratios, HWP capabilities, the OC
//! mailbox voltage-offset field and the legacy VID.
use vstd::prelude::*;

verus! {

/// A model-specific register value split into its low (`eax`) and high (`edx`) halves.
#[derive(Debug, Clone, Copy, PartialEq, Eq)]
pub struct MsrValue {
    pub eax: u32,
    pub edx: u32,
}

pub const IA32_PERF_STATUS: u32 = 0x198;

/// Intel MSR_TURBO_RATIO_LIMIT — per-core-count max turbo ratios (one byte each).
pub const MSR_TURBO_RATIO_LIMIT: u32 = 0x1AD;

/// Intel IA32_HWP_CAPABILITIES — bits 7:0 hold the guaranteed "Highest Performance" ratio.
pub const IA32_HWP_CAPABILITIES: u32 = 0x771;

/// Reference bus clock for modern Intel desktop parts: ratio * 100 MHz = core clock.
pub const INTEL_BCLK_MHZ: u32 = 100;

/// The 64-bit register value `edx:eax`.
pub open spec fn msr_raw(value: MsrValue) -> u64 {
    ((value.edx as u64) << 32u64) | (value.eax as u64)
}

/// Byte `k` (0 = least significant) of the register value.
pub open spec fn msr_byte(value: MsrValue, k: int) -> u32 {
    ((msr_raw(value) >> ((8 * k) as u64)) & 0xFFu64) as u32
}

/// Extract the maximum single-core turbo ratio from MSR_TURBO_RATIO_LIMIT.
///
/// The MSR packs up to eight per-core-count ratios (bits 0-7 = 1 active core,
/// 8-15 = 2 cores, …). The 1-core entry is the highest; the maximum of the
/// non-zero bytes is taken to stay robust across layouts.
pub fn max_turbo_ratio_from_turbo_limit(value: MsrValue) -> (r: Option<u32>)
    ensures
        r is None <==> forall|k: int| 0 <= k < 8 ==> #[trigger] msr_byte(value, k) == 0,
        r matches Some(m) ==> m > 0 && (exists|k: int| 0 <= k < 8 && #[trigger] msr_byte(value, k)
            == m) && forall|k: int| 0 <= k < 8 ==> #[trigger] msr_byte(value, k) <= m,
{
    let raw: u64 = ((value.edx as u64) << 32u64) | (value.eax as u64);
    let mut max: u32 = 0;
    let mut byte: u64 = 0;
    while byte < 8
        invariant
            byte <= 8,
            raw == msr_raw(value),
            forall|k: int| 0 <= k < byte ==> #[trigger] msr_byte(value, k) <= max,
            max == 0 || exists|k: int| 0 <= k < byte && #[trigger] msr_byte(value, k) == max,
        decreases 8 - byte,
    {
        let shifted = raw >> (byte * 8);
        let r = (shifted & 0xFF) as u32;
        assert(r == msr_byte(value, byte as int));
        if r > max {
            max = r;
        }
        byte = byte + 1;
    }
    if max > 0 {
        Some(max)
    } else {
        None
    }
}

/// Extract the "Highest Performance" ratio (bits 7:0) from IA32_HWP_CAPABILITIES.
pub fn highest_perf_ratio_from_hwp(value: MsrValue) -> (r: Option<u32>)
    ensures
        r == (if value.eax % 256 > 0 {
            Some((value.eax % 256) as u32)
        } else {
            None
        }),
{
    let eax = value.eax;
    let ratio = eax & 0xFF;
    assert(eax & 0xFF == eax % 256) by (bit_vector);
    if ratio > 0 {
        Some(ratio)
    } else {
        None
    }
}

/// Convert an Intel turbo ratio to a core clock in MHz (ratio * 100 MHz BCLK).
pub fn turbo_ratio_to_mhz(ratio: u32) -> (mhz: u32)
    requires
        ratio * 100 <= u32::MAX,
    ensures
        mhz == ratio * 100,
{
    ratio * INTEL_BCLK_MHZ
}

/// The voltage offset actually packed: clamped to ±500 mV.
pub open spec fn clamped_offset_mv(offset_mv: i32) -> int {
    if offset_mv < -500 {
        -500
    } else if offset_mv > 500 {
        500
    } else {
        offset_mv as int
    }
}

/// Pack OC mailbox voltage offset (mV) into IA32_OC_MAILBOX format: the clamped offset as a
/// 16-bit two's-complement field.
pub fn pack_oc_mailbox_voltage_offset_mv(offset_mv: i32) -> (r: u32)
    ensures
        r == (if clamped_offset_mv(offset_mv) >= 0 {
            clamped_offset_mv(offset_mv)
        } else {
            65536 + clamped_offset_mv(offset_mv)
        }),
{
    let clamped: i32 = if offset_mv < -500 {
        -500
    } else if offset_mv > 500 {
        500
    } else {
        offset_mv
    };
    let r = (clamped as u32) & 0xFFFF;
    assert(-500 <= clamped <= 500 ==> ((clamped as u32) & 0xFFFF) == (if clamped >= 0 {
        clamped as int
    } else {
        65536 + clamped
    })) by (bit_vector);
    r
}

/// Extract VID from IA32_PERF_STATUS (bits 0-12) for legacy Intel Vcore approximation.
pub fn extract_perf_status_vid(value: MsrValue) -> (r: u32)
    ensures
        r == value.eax % 8192,
{
    let eax = value.eax;
    assert(eax & 0x1FFF == eax % 8192) by (bit_vector);
    eax & 0x1FFF
}

/// Approximate Vcore in mV from VID (pre-Haswell formula `5·vid + 245`, saturating at the top
/// of `u32`; documented as approximate). `None` for VID 0.
pub fn vid_to_vcore_mv_pre_haswell(vid: u32) -> (r: Option<u32>)
    ensures
        vid == 0 ==> r is None,
        vid != 0 ==> r == Some(
            if vid * 5 + 245 > u32::MAX {
                u32::MAX
            } else {
                (vid * 5 + 245) as u32
            },
        ),
{
    if vid == 0 {
        return None;
    }
    let v: u64 = (vid as u64) * 5 + 245;
    if v > u32::MAX as u64 {
        Some(u32::MAX)
    } else {
        Some(v as u32)
    }
}

} // verus!
