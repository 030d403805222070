use nidavellir::detector::MotherboardInfo;
use nidavellir::sensor_input::SensorInput;
use nidavellir::sensor_meta::{SensorQuality, SensorSource};
use nidavellir::superio_profile::{ResolvedRails, ResolvedSuperIo};

fn board() -> MotherboardInfo {
    MotherboardInfo { vendor: "ASUSTeK".to_string(), model: "PRIME B650".to_string(), bios_version: "1.0".to_string() }
}

fn meta() -> ResolvedSuperIo {
    ResolvedSuperIo {
        chip_id_hex: "0xD802".to_string(),
        profile_id: "nct6799-generic".to_string(),
        profile_source: "board".to_string(),
        board_vendor: "ASUSTeK".to_string(),
        board_model: "PRIME B650".to_string(),
        rails: Vec::new(),
    }
}

#[test]
fn superio_rails_become_live_readings() {
    let rails = ResolvedRails { meta: meta(), cpu_vcore_mv: Some(1212), dram_mv: None };
    let input = SensorInput::from_driver_parts(board(), Some(rails), Some(61.5f32.to_bits()), true);
    assert_eq!(input.motherboard, board());
    assert_eq!(input.superio, Some(meta()));
    assert_eq!(input.cpu_vcore_mv, Some(1212));
    assert_eq!(input.cpu_vcore_source, Some(SensorSource::SuperIo));
    assert_eq!(input.cpu_vcore_quality, SensorQuality::Live);
    assert_eq!(input.dram_mv, None);
    assert_eq!(input.dram_source, None);
    assert_eq!(input.dram_quality, SensorQuality::Unavailable);
    assert_eq!(input.cpu_temp_bits.map(f32::from_bits), Some(61.5));
    assert_eq!(input.cpu_temp_source, Some(SensorSource::Msr));
}

#[test]
fn missing_parts_leave_readings_unavailable() {
    let input = SensorInput::from_driver_parts(board(), None, None, true);
    assert_eq!(input.superio, None);
    assert_eq!(input.cpu_vcore_mv, None);
    assert_eq!(input.cpu_vcore_quality, SensorQuality::Unavailable);
    assert_eq!(input.cpu_temp_bits, None);
    assert_eq!(input.cpu_temp_source, None);
    let other = SensorInput::from_driver_parts(board(), None, Some(40.0f32.to_bits()), false);
    assert_eq!(other.cpu_temp_source, Some(SensorSource::Unknown));
}
