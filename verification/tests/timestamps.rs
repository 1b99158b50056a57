use argmax::timestamps::{days_from_civil, days_in_month, parse_rfc3339_millis};

#[test]
fn calendar_days() {
    assert!(days_from_civil(1970, 1, 1) == 0);
    assert!(days_from_civil(1969, 12, 31) == -1);
    assert!(days_from_civil(2000, 2, 29) == 11_016);
    assert!(days_from_civil(2000, 3, 1) == 11_017);
    assert!(days_from_civil(2024, 12, 31) == 20_088);
    assert!(days_from_civil(0, 1, 1) == -719_528);
    assert!(days_in_month(1900, 2) == 28 && days_in_month(2000, 2) == 29);
    assert!(days_in_month(2023, 4) == 30 && days_in_month(2023, 13) == 0);
}

#[test]
fn timestamps_are_read_exactly() {
    let cases: &[(&str, Option<Option<u64>>)] = &[
        ("2009-02-13T23:31:30Z", Some(Some(1_234_567_890_000))),
        ("2009-02-13t23:31:30z", Some(Some(1_234_567_890_000))),
        ("1970-01-01T00:00:00.123456789Z", Some(Some(123))),
        ("1970-01-01T00:00:00.5Z", Some(Some(500))),
        ("1970-01-01T00:00:00.05+00:00", Some(Some(50))),
        ("1970-01-01T01:00:00+01:00", Some(Some(0))),
        ("1969-12-31T23:00:00-01:30", Some(Some(1_800_000))),
        ("1970-01-01T00:59:59+01:00", Some(None)),
        ("9999-12-31T23:59:59Z", Some(Some(253_402_300_799_000))),
        ("2023-02-29T00:00:00Z", None),
        ("2024-13-01T00:00:00Z", None),
        ("2024-00-01T00:00:00Z", None),
        ("2024-01-00T00:00:00Z", None),
        ("2024-01-01T24:00:00Z", None),
        ("2024-01-01T00:60:00Z", None),
        ("2024-01-01T00:00:60Z", None),
        ("2024-01-01T00:00:00.Z", None),
        ("2024-01-01T00:00:00.0123456789Z", None),
        ("2024-01-01T00:00:00", None),
        ("2024-01-01 00:00:00Z", None),
        ("2024-1-01T00:00:00Z", None),
        ("2024-01-01T00:00:00+24:00", None),
        ("2024-01-01T00:00:00+0100", None),
        ("", None),
    ];
    for (text, want) in cases {
        assert!(parse_rfc3339_millis(text.as_bytes()) == *want);
    }
}
