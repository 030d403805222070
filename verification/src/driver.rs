//! The low-level driver interface's value types: the load status of the kernel driver, the
//! packing of MSR values for the driver's 64-bit ioctl interface, and the register decoding of a
//! Super I/O probe (chip id, hardware-monitor device and I/O base).
use vstd::prelude::*;
pub use crate::msr::MsrValue;
use crate::superio_profile::SuperIoVendor;

verus! {

/// Load status of the kernel driver.
#[derive(Debug, Clone, PartialEq, Eq)]
pub enum DriverStatus {
    Loaded,
    NotLoaded,
    Failed(String),
}

/// The status code of a driver status.
pub open spec fn status_code(s: DriverStatus) -> Seq<char> {
    match s {
        DriverStatus::Loaded => "loaded"@,
        DriverStatus::NotLoaded => "not_installed"@,
        DriverStatus::Failed(_) => "error"@,
    }
}

/// The advice shown when the driver is not installed.
pub open spec fn not_installed_detail() -> Seq<char> {
    "PawnIO not installed. Install from https://pawnio.eu/ and bundle IntelMSR.bin + LpcIO.bin."@
}

impl DriverStatus {
    pub fn code(&self) -> (r: &'static str)
        ensures
            r@ == status_code(*self),
    {
        match self {
            Self::Loaded => "loaded",
            Self::NotLoaded => "not_installed",
            Self::Failed(_) => "error",
        }
    }

    pub fn detail(&self) -> (r: Option<String>)
        ensures
            match *self {
                DriverStatus::Loaded => r is None,
                DriverStatus::NotLoaded => r matches Some(t) && t@ == not_installed_detail(),
                DriverStatus::Failed(msg) => r matches Some(t) && t@ == msg@,
            },
    {
        match self {
            Self::Loaded => None,
            Self::NotLoaded => Some(
                String::from_str(
                    "PawnIO not installed. Install from https://pawnio.eu/ and bundle IntelMSR.bin + LpcIO.bin.",
                ),
            ),
            Self::Failed(msg) => Some(msg.clone()),
        }
    }
}

/// The 64-bit word the driver's write ioctl takes: `edx` in the high half, `eax` in the low.
pub fn msr_pack(value: MsrValue) -> (r: u64)
    ensures
        r == value.edx as int * 0x1_0000_0000 + value.eax as int,
{
    let edx = value.edx;
    let eax = value.eax;
    assert(((edx as u64) << 32u64) | (eax as u64) == edx as int * 0x1_0000_0000 + eax as int)
        by (bit_vector);
    ((edx as u64) << 32u64) | (eax as u64)
}

/// Split the driver's 64-bit read result into its halves.
pub fn msr_unpack(raw: u64) -> (r: MsrValue)
    ensures
        r.eax == raw % 0x1_0000_0000,
        r.edx == raw / 0x1_0000_0000,
{
    assert((raw as u32) == raw % 0x1_0000_0000) by (bit_vector);
    assert(((raw >> 32u64) as u32) == raw / 0x1_0000_0000) by (bit_vector);
    MsrValue { eax: raw as u32, edx: (raw >> 32u64) as u32 }
}

/// Packing for the write ioctl and splitting the read result are inverse: a value survives the
/// round trip unchanged, and so does a raw word.
pub proof fn lemma_msr_round_trip(value: MsrValue, raw: u64)
    ensures
        ({
            let packed = value.edx as int * 0x1_0000_0000 + value.eax as int;
            &&& packed % 0x1_0000_0000 == value.eax
            &&& packed / 0x1_0000_0000 == value.edx
        }),
        (raw / 0x1_0000_0000) * 0x1_0000_0000 + raw % 0x1_0000_0000 == raw,
{
    let packed = value.edx as int * 0x1_0000_0000 + value.eax as int;
    vstd::arithmetic::div_mod::lemma_fundamental_div_mod(raw as int, 0x1_0000_0000);
    vstd::arithmetic::div_mod::lemma_fundamental_div_mod(packed, 0x1_0000_0000);
    vstd::arithmetic::div_mod::lemma_mod_multiples_vanish(value.edx as int, value.eax as int, 0x1_0000_0000);
    vstd::arithmetic::div_mod::lemma_small_mod(value.eax as nat, 0x1_0000_0000nat);
}


/// LPC configuration port of a Super I/O slot: `0x2E` for the first slot, `0x4E` otherwise.
pub fn superio_config_port(slot: u64) -> (r: u16)
    ensures
        r == if slot == 0 { 0x2eu16 } else { 0x4eu16 },
{
    if slot == 0 {
        0x2e
    } else {
        0x4e
    }
}

/// The 16-bit value of a big-endian register pair (`high` at the lower register).
pub fn register_pair(high: u8, low: u8) -> (r: u16)
    ensures
        r == high as int * 256 + low as int,
{
    let r = ((high as u16) << 8u16) | (low as u16);
    assert(((high as u16) << 8u16) | (low as u16) == (high as u16) * 256 + (low as u16)) by (bit_vector);
    r
}

/// Whether a chip id read in a vendor's configuration mode belongs to that vendor's hardware
/// monitors: ITE ids carry `0x87` in the high byte; Nuvoton ids are one of the known NCT67xx
/// families (revision nibble ignored). `0x0000` and `0xFFFF` are never plausible.
pub open spec fn vendor_chip_plausible(chip_id: u16, vendor: SuperIoVendor) -> bool {
    chip_id != 0 && chip_id != 0xFFFF && match vendor {
        SuperIoVendor::Ite => chip_id / 256 == 0x87,
        SuperIoVendor::Nuvoton => {
            let family = chip_id - chip_id % 16;
            family == 0xC800 || family == 0xC910 || family == 0xD120 || family == 0xD350 || family
                == 0xD420 || family == 0xD428 || family == 0xD42B
        },
    }
}

/// Whether `chip_id` is plausible for `vendor` (see [`vendor_chip_plausible`]).
pub fn vendor_chip_id_is_plausible(chip_id: u16, vendor: SuperIoVendor) -> (r: bool)
    ensures
        r == vendor_chip_plausible(chip_id, vendor),
{
    if chip_id == 0 || chip_id == 0xFFFF {
        return false;
    }
    match vendor {
        SuperIoVendor::Ite => {
            assert((chip_id >> 8u16) & 0xFFu16 == chip_id / 256) by (bit_vector);
            (chip_id >> 8u16) & 0xFF == 0x87
        },
        SuperIoVendor::Nuvoton => {
            let family = chip_id & 0xFFF0;
            assert(chip_id & 0xFFF0u16 == chip_id - chip_id % 16) by (bit_vector);
            family == 0xC800 || family == 0xC910 || family == 0xD120 || family == 0xD350 || family
                == 0xD420 || family == 0xD428 || family == 0xD42B
        },
    }
}

/// The logical device number of a vendor's hardware monitor.
pub fn hwm_logical_device(vendor: SuperIoVendor) -> (r: u8)
    ensures
        r == match vendor {
            SuperIoVendor::Ite => 0x04u8,
            SuperIoVendor::Nuvoton => 0x0Bu8,
        },
{
    match vendor {
        SuperIoVendor::Ite => 0x04,
        SuperIoVendor::Nuvoton => 0x0B,
    }
}

/// The hardware monitor's I/O base from its base-address register pair: a base ending in `5`
/// (modulo 8) is aligned down to 8, and the result is usable only from `0x100` up and when not
/// `0xFFFF`.
pub open spec fn hwm_base_value(high: u8, low: u8) -> Option<u16> {
    let raw = high as int * 256 + low as int;
    let base = if raw % 8 == 5 { raw - 5 } else { raw };
    if base < 0x100 || base == 0xFFFF {
        None
    } else {
        Some(base as u16)
    }
}

/// Decode the hardware monitor's I/O base (see [`hwm_base_value`]).
pub fn hwm_base(high: u8, low: u8) -> (r: Option<u16>)
    ensures
        r == hwm_base_value(high, low),
{
    let mut io_base = register_pair(high, low);
    if (io_base & 0x07) == 0x05 {
        assert((io_base & 0x07u16 == 0x05u16) == (io_base % 8 == 5)) by (bit_vector);
        assert(io_base % 8 == 5 ==> io_base & 0xFFF8u16 == io_base - 5) by (bit_vector);
        io_base = io_base & 0xFFF8;
    } else {
        assert((io_base & 0x07u16 == 0x05u16) == (io_base % 8 == 5)) by (bit_vector);
    }
    if io_base < 0x100 || io_base == 0xFFFF {
        None
    } else {
        Some(io_base)
    }
}

/// Bank and in-bank index of a banked Nuvoton hardware-monitor register.
pub fn nuvoton_bank_and_index(reg: u16) -> (r: (u8, u8))
    ensures
        r.0 == reg / 256,
        r.1 == reg % 256,
{
    assert((reg >> 8u16) as u8 == reg / 256 && (reg & 0xFFu16) as u8 == reg % 256) by (bit_vector);
    ((reg >> 8) as u8, (reg & 0xFF) as u8)
}

} // verus!
