use nidavellir::driver::{
    hwm_base, hwm_logical_device, msr_pack, msr_unpack, nuvoton_bank_and_index, register_pair, superio_config_port,
    vendor_chip_id_is_plausible, DriverStatus, MsrValue,
};
use nidavellir::superio_profile::SuperIoVendor;
use nidavellir::msr_temp::{core_temp_c_from_msrs, package_temp_c_from_msr};

#[test]
fn msr_pack_unpack_roundtrip() {
    let v = MsrValue {
        eax: 0x1234_5678,
        edx: 0x9ABC_DEF0,
    };
    let raw = (v.edx as u64) << 32 | v.eax as u64;
    let back = MsrValue {
        eax: raw as u32,
        edx: (raw >> 32) as u32,
    };
    assert_eq!(back, v);
}

#[test]
fn driver_packing_puts_edx_high_and_eax_low() {
    let v = MsrValue { eax: 0x1234_5678, edx: 0x9ABC_DEF0 };
    assert_eq!(msr_pack(v), 0x9ABC_DEF0_1234_5678);
    assert_eq!(msr_unpack(0x9ABC_DEF0_1234_5678), v);
    assert_eq!(msr_unpack(msr_pack(v)), v);
}

#[test]
fn driver_status_codes_and_details() {
    assert_eq!(DriverStatus::Loaded.code(), "loaded");
    assert_eq!(DriverStatus::NotLoaded.code(), "not_installed");
    assert_eq!(DriverStatus::Failed("boom".into()).code(), "error");
    assert_eq!(DriverStatus::Loaded.detail(), None);
    assert!(DriverStatus::NotLoaded.detail().unwrap().contains("pawnio.eu"));
    assert_eq!(DriverStatus::Failed("boom".into()).detail(), Some("boom".to_string()));
}

#[test]
fn cpu_temperature_is_tjmax_minus_readout_when_plausible() {
    // readout 40 (bits 22:16), TjMax 100 (bits 23:16 of the target) → 60 °C.
    let status = MsrValue { eax: 40 << 16, edx: 0 };
    let target = MsrValue { eax: 100 << 16, edx: 0 };
    assert_eq!(core_temp_c_from_msrs(status, target), Some(60));
    // TjMax 0 → no reading.
    assert_eq!(core_temp_c_from_msrs(status, MsrValue { eax: 0, edx: 0 }), None);
    // readout ≥ TjMax → implausible.
    assert_eq!(core_temp_c_from_msrs(MsrValue { eax: 100 << 16, edx: 0 }, target), None);
    // Package register: TjMax in bits 15:8 of the same register.
    let pkg = MsrValue { eax: (30 << 16) | (95 << 8), edx: 0 };
    assert_eq!(package_temp_c_from_msr(pkg), Some(65));
}

#[test]
fn superio_probe_registers_decode() {
    assert_eq!(superio_config_port(0), 0x2e);
    assert_eq!(superio_config_port(1), 0x4e);
    assert_eq!(register_pair(0xD4, 0x2B), 0xD42B);
    assert!(vendor_chip_id_is_plausible(0xD42B, SuperIoVendor::Nuvoton));
    assert!(!vendor_chip_id_is_plausible(0xD802, SuperIoVendor::Nuvoton));
    assert!(vendor_chip_id_is_plausible(0x8728, SuperIoVendor::Ite));
    assert!(!vendor_chip_id_is_plausible(0x8689, SuperIoVendor::Nuvoton));
    assert!(!vendor_chip_id_is_plausible(0xFFFF, SuperIoVendor::Ite));
    assert_eq!(hwm_logical_device(SuperIoVendor::Ite), 0x04);
    assert_eq!(hwm_logical_device(SuperIoVendor::Nuvoton), 0x0B);
    assert_eq!(hwm_base(0x02, 0x95), Some(0x0290));
    assert_eq!(hwm_base(0x0A, 0x30), Some(0x0A30));
    assert_eq!(hwm_base(0x00, 0x90), None);
    assert_eq!(hwm_base(0xFF, 0xFF), None);
    assert_eq!(nuvoton_bank_and_index(0x480 + 3), (0x04, 0x83));
}
