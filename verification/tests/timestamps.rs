use convergio_billing::timestamps::stored_instant;

#[test]
fn rfc3339_text_gives_its_instant() {
    assert_eq!(stored_instant(Some("1970-01-01T00:00:00Z")), Some((0, 0)));
    assert_eq!(
        stored_instant(Some("2026-04-01T12:30:05.250+02:00")),
        Some((1775039405, 250_000_000))
    );
}

#[test]
fn unparsable_or_missing_time_gives_none() {
    // The database's default datetime('now') form is not RFC 3339.
    assert_eq!(stored_instant(Some("2026-04-01 12:30:05")), None);
    assert_eq!(stored_instant(Some("")), None);
    assert_eq!(stored_instant(None), None);
}
