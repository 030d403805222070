use nidavellir::sensor_meta::{SensorQuality, SensorSource};

#[test]
fn sensor_names_are_the_wire_names() {
    assert_eq!(SensorSource::SuperIo.as_str(), "superio");
    assert_eq!(SensorSource::NvidiaSmi.as_str(), "nvidia_smi");
    assert_eq!(SensorSource::default(), SensorSource::Unknown);
    assert_eq!(SensorSource::default().as_str(), "unknown");
    assert_eq!(SensorQuality::Live.as_str(), "live");
    assert_eq!(SensorQuality::default(), SensorQuality::Unavailable);
    assert_eq!(SensorQuality::default().as_str(), "unavailable");
}
