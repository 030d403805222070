use nidavellir::msr::{
    extract_perf_status_vid, highest_perf_ratio_from_hwp, max_turbo_ratio_from_turbo_limit,
    pack_oc_mailbox_voltage_offset_mv, turbo_ratio_to_mhz, vid_to_vcore_mv_pre_haswell, MsrValue,
};

#[test]
fn pack_clamps_voltage_offset() {
    assert_eq!(pack_oc_mailbox_voltage_offset_mv(-600), 65036);
    assert_eq!(pack_oc_mailbox_voltage_offset_mv(600), 500);
    assert_eq!(pack_oc_mailbox_voltage_offset_mv(-50), 65486);
}

#[test]
fn extract_vid_masks_correct_bits() {
    let val = MsrValue {
        eax: 0x0000005F,
        edx: 0,
    };
    assert_eq!(extract_perf_status_vid(val), 0x05F);
}

#[test]
fn vid_to_vcore_rejects_zero() {
    assert!(vid_to_vcore_mv_pre_haswell(0).is_none());
    assert_eq!(vid_to_vcore_mv_pre_haswell(100), Some(745));
}

#[test]
fn turbo_limit_picks_highest_ratio() {
    // i7-13700K style: 1-core=54, 2-core=54, then lower bins.
    // bytes (low->high): 0x36 0x36 0x35 0x35 0x34 0x34 0x33 0x33
    let raw: u64 = 0x3333_3434_3535_3636;
    let val = MsrValue {
        eax: raw as u32,
        edx: (raw >> 32) as u32,
    };
    assert_eq!(max_turbo_ratio_from_turbo_limit(val), Some(0x36));
    assert_eq!(turbo_ratio_to_mhz(0x36), 5400);
}

#[test]
fn turbo_limit_rejects_all_zero() {
    let val = MsrValue { eax: 0, edx: 0 };
    assert!(max_turbo_ratio_from_turbo_limit(val).is_none());
}

#[test]
fn hwp_extracts_low_byte() {
    let val = MsrValue {
        eax: 0x00FF_0036,
        edx: 0,
    };
    assert_eq!(highest_perf_ratio_from_hwp(val), Some(0x36));
    assert!(highest_perf_ratio_from_hwp(MsrValue { eax: 0, edx: 0 }).is_none());
}
