use ogonek::models::datetime_serialization::{format_instant, parse_instant};

#[test]
fn instants_are_written_in_whole_seconds() {
    assert_eq!(format_instant(0), "1970-01-01T00:00:00Z");
    assert_eq!(format_instant(1_731_319_200_123_456), "2024-11-11T10:00:00Z");
    assert_eq!(format_instant(-1_000_000), "1969-12-31T23:59:59Z");
}

#[test]
fn instants_are_read_from_rfc3339() {
    assert_eq!(parse_instant("2024-11-11T10:00:00Z"), Some(1_731_319_200_000_000));
    assert_eq!(parse_instant("2024-11-11T12:00:00+02:00"), Some(1_731_319_200_000_000));
    assert_eq!(parse_instant("2024-11-11T10:00:00.5Z"), Some(1_731_319_200_500_000));
    assert_eq!(parse_instant("2024-11-11"), None);
    assert_eq!(parse_instant("20241111T100000Z"), None);
}

#[test]
fn written_instants_read_back() {
    for t in [0i64, 1_731_319_200_000_000, -86_400_000_000] {
        assert_eq!(parse_instant(&format_instant(t)), Some(t));
    }
}
