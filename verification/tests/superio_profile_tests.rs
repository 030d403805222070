use nidavellir::detector::MotherboardInfo;
use nidavellir::superio_profile::{
    board_rule_matches, chip_id_is_plausible, is_board_specific_profile_id, is_plausible_for_role,
    normalize_id, nuvoton_base_mv, parse_chip_id, resolve_superio_rails, select_profile, BoardRule, ChannelReading,
    ProfileEntry, ProfileOrigin, RailRole, SuperIoProbe, SuperIoVendor,
};

#[test]
fn rail_role_names_round_trip() {
    let roles = [
        RailRole::CpuVcore,
        RailRole::Dram,
        RailRole::TwelveVolt,
        RailRole::FiveVolt,
        RailRole::CpuSa,
        RailRole::CpuVio,
        RailRole::Vsb,
        RailRole::V33,
        RailRole::Avcc,
    ];
    for role in roles {
        assert_eq!(RailRole::from_json(role.as_str()), role);
    }
    assert_eq!(RailRole::from_json("12v"), RailRole::TwelveVolt);
    assert_eq!(RailRole::from_json("vcore"), RailRole::Unknown);
    assert_eq!(RailRole::Unknown.as_str(), "unknown");
}

#[test]
fn nuvoton_scaling_defaults_to_eight_millivolts_per_lsb() {
    // 100 raw at the default scale reads 800 mV on the CPU Vcore channel.
    assert_eq!(nuvoton_base_mv(100, 0), 800);
    assert_eq!(nuvoton_base_mv(100, 800), 800);
    assert_eq!(nuvoton_base_mv(255, 1600), 4080);
    assert_eq!(nuvoton_base_mv(1, 50), 0);
}

#[test]
fn plausibility_ranges_per_role() {
    assert!(is_plausible_for_role(RailRole::CpuVcore, 800));
    assert!(!is_plausible_for_role(RailRole::CpuVcore, 399));
    assert!(is_plausible_for_role(RailRole::Dram, 1350));
    assert!(!is_plausible_for_role(RailRole::Dram, 800));
    assert!(is_plausible_for_role(RailRole::TwelveVolt, 12_100));
    assert!(!is_plausible_for_role(RailRole::FiveVolt, 3_300));
    assert!(is_plausible_for_role(RailRole::Unknown, 100));
    assert!(!is_plausible_for_role(RailRole::Unknown, 15_001));
}

#[test]
fn chip_ids_parse_like_the_profile_file_writes_them() {
    assert_eq!(parse_chip_id("0xD428"), Some(0xD428));
    assert_eq!(parse_chip_id(" 0x8688 "), Some(0x8688));
    assert_eq!(parse_chip_id("8688"), Some(0x8688));
    assert_eq!(parse_chip_id("0x1_0000"), None);
    assert_eq!(parse_chip_id("0x10000"), None);
    assert_eq!(parse_chip_id("zz"), None);
    assert!(chip_id_is_plausible(0xD428));
    assert!(!chip_id_is_plausible(0));
    assert!(!chip_id_is_plausible(0xFFFF));
}

#[test]
fn board_identity_normalisation_and_rule_matching() {
    let vendor = normalize_id("ASUSTeK COMPUTER INC.");
    let product = normalize_id("TUF GAMING Z690-PLUS D4");
    assert_eq!(vendor.iter().collect::<String>(), "asustekcomputerinc");
    assert_eq!(product.iter().collect::<String>(), "tufgamingz690plusd4");
    let rule = BoardRule {
        profile_id: "asus_tuf_z690_plus_d4".into(),
        vendor_contains: vec!["ASUS".into()],
        product_contains: vec!["Z690-PLUS D4".into()],
        chip_ids: vec!["0xD428".into()],
    };
    assert!(board_rule_matches(&rule, &vendor, &product, 0xD428));
    assert!(!board_rule_matches(&rule, &vendor, &product, 0x8688));
    let other = normalize_id("Unknown OEM");
    assert!(!board_rule_matches(&rule, &other, &product, 0xD428));
    assert!(is_board_specific_profile_id("asus_tuf_z690_plus_d4"));
    assert!(!is_board_specific_profile_id("ite8688_generic"));
}

fn profile(id: &str, vendor: &str, chips: &[&str]) -> ProfileEntry {
    ProfileEntry {
        id: id.into(),
        vendor: vendor.into(),
        chip_ids: chips.iter().map(|c| c.to_string()).collect(),
    }
}

fn rule(profile_id: &str, vendors: &[&str], products: &[&str], chips: &[&str]) -> BoardRule {
    BoardRule {
        profile_id: profile_id.into(),
        vendor_contains: vendors.iter().map(|c| c.to_string()).collect(),
        product_contains: products.iter().map(|c| c.to_string()).collect(),
        chip_ids: chips.iter().map(|c| c.to_string()).collect(),
    }
}

fn db() -> (Vec<BoardRule>, Vec<ProfileEntry>) {
    let rules = vec![
        rule("asus_z690_nct6798d", &["ASUSTeK"], &["Z690"], &["0xD42B"]),
        rule("msi_b650_it8689", &["Micro-Star"], &["B650"], &[]),
    ];
    // In id order, as the database keeps them.
    let profiles = vec![
        profile("asus_z690_nct6798d", "nuvoton", &["0xD42B"]),
        profile("it8689e", "ite", &["0x8689"]),
        profile("msi_b650_it8689", "ite", &["0x8689"]),
        profile("nct6798d_generic", "nuvoton", &["0xD428"]),
    ];
    (rules, profiles)
}

#[test]
fn board_rule_wins_over_chip_family() {
    let (rules, profiles) = db();
    let (id, origin) =
        select_profile(&rules, &profiles, "ASUSTeK COMPUTER INC.", "ROG STRIX Z690-A", SuperIoVendor::Nuvoton, 0xD42B);
    assert_eq!((id.as_str(), origin), ("asus_z690_nct6798d", ProfileOrigin::BoardMatch));
    let (id, origin) = select_profile(&rules, &profiles, "Micro-Star International", "MAG B650", SuperIoVendor::Ite, 0x8689);
    assert_eq!((id.as_str(), origin), ("msi_b650_it8689", ProfileOrigin::BoardMatch));
}

#[test]
fn chip_family_skips_board_specific_profiles_and_vendor_mismatches() {
    let (rules, profiles) = db();
    // The ASUS rule's chip list does not hold this chip: chip family decides, and the
    // board-specific MSI profile never serves by family.
    let (id, origin) = select_profile(&rules, &profiles, "ASUSTeK", "Z690", SuperIoVendor::Ite, 0x8689);
    assert_eq!((id.as_str(), origin), ("it8689e", ProfileOrigin::ChipFamily));
    // The MSI rule applies, but its profile is an ITE one: a Nuvoton probe falls through.
    let (id, origin) = select_profile(&rules, &profiles, "Micro-Star", "B650", SuperIoVendor::Nuvoton, 0xD428);
    assert_eq!((id.as_str(), origin), ("nct6798d_generic", ProfileOrigin::ChipFamily));
}

#[test]
fn unknown_chips_fall_back_to_generic_layouts() {
    let (rules, profiles) = db();
    let (id, origin) = select_profile(&rules, &profiles, "Acme", "Board", SuperIoVendor::Nuvoton, 0x1234);
    assert_eq!((id.as_str(), origin), ("nct6798d_generic", ProfileOrigin::ChipFamily));
    let (id, origin) = select_profile(&rules, &profiles, "Acme", "Board", SuperIoVendor::Ite, 0x1234);
    assert_eq!((id.as_str(), origin), ("generic_ite_9vin", ProfileOrigin::GenericIte));
    let (id, origin) = select_profile(&rules, &Vec::new(), "Acme", "Board", SuperIoVendor::Nuvoton, 0x1234);
    assert_eq!((id.as_str(), origin), ("generic_ite_9vin", ProfileOrigin::GenericIte));
}

fn board() -> MotherboardInfo {
    MotherboardInfo { vendor: "ASUSTeK".into(), model: "Z690".into(), bios_version: "1.0".into() }
}

fn reading(index: u8, label: &str, role: RailRole, voltage_mv: u32) -> ChannelReading {
    ChannelReading { index, label: label.into(), role, voltage_mv }
}

#[test]
fn rails_keep_real_channels_and_pick_live_core_and_dram() {
    let mut vin_raw = [0u8; 18];
    vin_raw[0] = 0x9C; // vcore
    vin_raw[1] = 0xFF; // floating input: skipped
    vin_raw[2] = 0xAA; // dram
    vin_raw[3] = 0x10; // 12 V rail read implausibly low
    let probe = SuperIoProbe { chip_id: 0xD42B, vendor: SuperIoVendor::Nuvoton, lpc_slot: 0, io_base: 0x290, vin_raw };
    let channels = vec![
        reading(0, "Vcore", RailRole::CpuVcore, 1248),
        reading(1, "VIN1", RailRole::Unknown, 2040),
        reading(2, "DRAM", RailRole::Dram, 1360),
        reading(3, "+12V", RailRole::TwelveVolt, 1536),
        reading(20, "beyond", RailRole::Unknown, 1000), // not a VIN input of the chip
    ];
    let r = resolve_superio_rails(&board(), Some(&probe), "asus_z690_nct6798d", ProfileOrigin::BoardMatch, &channels)
        .unwrap();
    assert_eq!(r.meta.chip_id_hex, "0xD42B");
    assert_eq!(r.meta.profile_source, "board_match");
    assert_eq!(r.meta.board_vendor, "ASUSTeK");
    let labels: Vec<&str> = r.meta.rails.iter().map(|x| x.label.as_str()).collect();
    assert_eq!(labels, vec!["Vcore", "DRAM", "+12V"]);
    assert_eq!(r.meta.rails[0].quality, "live");
    assert_eq!(r.meta.rails[0].source, "superio");
    assert_eq!(r.meta.rails[0].role, "cpu_vcore");
    assert_eq!(r.meta.rails[2].quality, "unavailable");
    assert_eq!(r.cpu_vcore_mv, Some(1248));
    assert_eq!(r.dram_mv, Some(1360));
}

#[test]
fn rails_need_a_plausible_chip_and_at_least_one_reading() {
    let probe = SuperIoProbe { chip_id: 0xFFFF, vendor: SuperIoVendor::Ite, lpc_slot: 1, io_base: 0xA30, vin_raw: [0x80; 18] };
    let channels = vec![reading(0, "VIN0", RailRole::Unknown, 1000)];
    assert!(resolve_superio_rails(&board(), Some(&probe), "generic_ite_9vin", ProfileOrigin::GenericIte, &channels).is_none());
    assert!(resolve_superio_rails(&board(), None, "generic_ite_9vin", ProfileOrigin::GenericIte, &channels).is_none());
    let empty = SuperIoProbe { chip_id: 0x8728, vendor: SuperIoVendor::Ite, lpc_slot: 1, io_base: 0xA30, vin_raw: [0; 18] };
    assert!(resolve_superio_rails(&board(), Some(&empty), "generic_ite_9vin", ProfileOrigin::GenericIte, &channels).is_none());
}

// The profile-database entries the resolution tests rely on: a board rule for the ASUS TUF
// Z690-PLUS D4 (Nuvoton NCT6798D, CPU core voltage on VIN0) and the ITE IT8688E chip family.
fn resolution_db() -> (Vec<BoardRule>, Vec<ProfileEntry>) {
    let rules = vec![rule("asus_tuf_z690_plus_d4", &["ASUSTeK"], &["TUF GAMING Z690-PLUS D4"], &["0xD428"])];
    let profiles = vec![
        profile("asus_tuf_z690_plus_d4", "nuvoton", &["0xD428"]),
        profile("ite8688_generic", "ite", &["0x8688"]),
        profile("nct6798d_generic", "nuvoton", &["0xD428", "0xD42B"]),
    ];
    (rules, profiles)
}

// VIN0 of each profile carries the CPU core voltage; Nuvoton scales by the default 8 mV per LSB,
// ITE by its 3.3 V / 256 LSB.
fn resolve(mb: &MotherboardInfo, probe: &SuperIoProbe) -> Option<nidavellir::superio_profile::ResolvedRails> {
    let (rules, profiles) = resolution_db();
    let (id, origin) = select_profile(&rules, &profiles, &mb.vendor, &mb.model, probe.vendor, probe.chip_id);
    let raw = probe.vin_raw[0];
    let mv = match probe.vendor {
        SuperIoVendor::Nuvoton => nuvoton_base_mv(raw, 0),
        SuperIoVendor::Ite => (raw as f32 * ((3.3 / 256.0) * 1000.0)) as u32,
    };
    let channels = vec![reading(0, "Vcore", RailRole::CpuVcore, mv)];
    resolve_superio_rails(mb, Some(probe), &id, origin, &channels)
}

#[test]
fn board_rule_matches_normalized_asus_z690_nuvoton() {
    let mb = MotherboardInfo {
        vendor: "ASUSTeK COMPUTER INC.".into(),
        model: "TUF GAMING Z690-PLUS D4".into(),
        bios_version: "1.0".into(),
    };
    let probe = SuperIoProbe { chip_id: 0xD428, vendor: SuperIoVendor::Nuvoton, lpc_slot: 0, io_base: 0x0A20, vin_raw: [100; 18] };
    let r = resolve(&mb, &probe).expect("resolved");
    assert_eq!(r.meta.profile_source, "board_match");
    assert_eq!(r.meta.profile_id, "asus_tuf_z690_plus_d4");
    assert!(r.cpu_vcore_mv.unwrap() > 0);
}

#[test]
fn nuvoton_scaling_uses_scale_not_ite_lsb() {
    let mb = MotherboardInfo {
        vendor: "ASUSTeK COMPUTER INC.".into(),
        model: "TUF GAMING Z690-PLUS D4".into(),
        bios_version: "1.0".into(),
    };
    let mut vin_raw = [0u8; 18];
    vin_raw[0] = 100;
    let probe = SuperIoProbe { chip_id: 0xD428, vendor: SuperIoVendor::Nuvoton, lpc_slot: 0, io_base: 0x0A20, vin_raw };
    let r = resolve(&mb, &probe).expect("resolved");
    assert_eq!(r.cpu_vcore_mv, Some(800));
}

#[test]
fn unknown_board_uses_chip_family_ite() {
    let mb = MotherboardInfo { vendor: "Unknown OEM".into(), model: "XYZ-9000".into(), bios_version: "?".into() };
    let probe = SuperIoProbe { chip_id: 0x8688, vendor: SuperIoVendor::Ite, lpc_slot: 0, io_base: 0x0A20, vin_raw: [50; 18] };
    let r = resolve(&mb, &probe).expect("resolved");
    assert_eq!(r.meta.profile_source, "chip_family");
    assert_eq!(r.meta.profile_id, "ite8688_generic");
}
