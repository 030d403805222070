use nidavellir::sensors::parse_percentage;

#[test]
fn percentage_parser_preserves_unavailable_instead_of_fabricating_zero() {
    assert_eq!(parse_percentage("37"), Some(37));
    assert_eq!(parse_percentage("37 %"), Some(37));
    assert_eq!(parse_percentage("N/A"), None);
    assert_eq!(parse_percentage("[N/A]"), None);
    assert_eq!(parse_percentage("101"), None);
}

#[test]
fn percentage_parser_edge_cases() {
    assert_eq!(parse_percentage("  100%%  "), Some(100));
    assert_eq!(parse_percentage("0"), Some(0));
    assert_eq!(parse_percentage("+7"), Some(7));
    assert_eq!(parse_percentage("n/a"), None);
    assert_eq!(parse_percentage(""), None);
    assert_eq!(parse_percentage("%"), None);
    assert_eq!(parse_percentage("-5"), None);
    assert_eq!(parse_percentage("4 2"), None);
    assert_eq!(parse_percentage("99999999999"), None);
}
