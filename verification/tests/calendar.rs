use quicfs::calendar::{date_of_day, iso8601_text, parse_iso8601};

#[test]
fn dates_are_those_of_the_calendar() {
    assert_eq!(date_of_day(0), (1970, 1, 1));
    assert_eq!(date_of_day(58), (1970, 2, 28));
    assert_eq!(date_of_day(59), (1970, 3, 1));
    assert_eq!(date_of_day(364), (1970, 12, 31));
    assert_eq!(date_of_day(365), (1971, 1, 1));
    assert_eq!(date_of_day(11016), (2000, 2, 29));
    assert_eq!(date_of_day(19771), (2024, 2, 18));
    assert_eq!(date_of_day(47541), (2100, 3, 1));
    assert_eq!(date_of_day(146097), (2370, 1, 1));
}

#[test]
fn times_are_written_in_iso_8601() {
    assert_eq!(iso8601_text(0), "1970-01-01T00:00:00Z");
    assert_eq!(iso8601_text(1708268645), "2024-02-18T15:04:05Z");
    assert_eq!(iso8601_text(951868799), "2000-02-29T23:59:59Z");
    assert_eq!(iso8601_text(253402300800), "10000-01-01T00:00:00Z");
}

#[test]
fn times_read_back_as_written() {
    for secs in [0, 59, 86399, 86400, 951868799, 1708268645, 4107542400, 253402300800, u64::MAX] {
        assert_eq!(parse_iso8601(&iso8601_text(secs)), Some(secs));
    }
    assert_eq!(parse_iso8601("2024-02-18T15:04:05Z"), Some(1708268645));
}

#[test]
fn other_texts_are_no_times() {
    for text in [
        "",
        "yesterday",
        "1708268645",
        "2024-02-18 15:04:05Z",
        "2024-02-18T15:04:05",
        "2024-02-30T00:00:00Z",
        "2023-02-29T00:00:00Z",
        "2024-13-01T00:00:00Z",
        "2024-00-01T00:00:00Z",
        "2024-01-00T00:00:00Z",
        "2024-01-01T24:00:00Z",
        "2024-01-01T00:60:00Z",
        "2024-01-01T00:00:60Z",
        "1969-12-31T23:59:59Z",
        "02024-02-18T15:04:05Z",
        "2024-+2-18T15:04:05Z",
        "2024-02-18T15:04:05ä",
        "18446744073709551615-01-01T00:00:00Z",
    ] {
        assert_eq!(parse_iso8601(text), None, "{text:?}");
    }
}
