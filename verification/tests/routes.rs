use convergio_billing::routes::{validate_id, IdError, RatesQuery, UsageQuery, MAX_ID_LEN};

#[test]
fn empty_id_is_refused() {
    assert_eq!(validate_id(""), Err(IdError::Empty));
}

#[test]
fn overlong_id_is_refused() {
    let long = "a".repeat(MAX_ID_LEN + 1);
    assert_eq!(validate_id(&long), Err(IdError::TooLong));
    let at_limit = "a".repeat(MAX_ID_LEN);
    assert_eq!(validate_id(&at_limit), Ok(()));
}

#[test]
fn id_length_counts_bytes() {
    // 128 two-byte characters: 256 bytes, at the limit; one more is over it.
    let at_limit = "é".repeat(128);
    assert_eq!(validate_id(&at_limit), Ok(()));
    let over = "é".repeat(129);
    assert_eq!(validate_id(&over), Err(IdError::TooLong));
}

#[test]
fn ordinary_id_is_accepted() {
    assert_eq!(validate_id("acme-corp"), Ok(()));
}

#[test]
fn usage_period_defaults_to_widest() {
    let q = UsageQuery { org_id: "org1".to_string(), from: None, to: None };
    assert_eq!(q.period(), ("2020-01-01".to_string(), "2099-12-31".to_string()));
}

#[test]
fn usage_period_keeps_given_bounds() {
    let q = UsageQuery {
        org_id: "org1".to_string(),
        from: Some("2026-01-01".to_string()),
        to: None,
    };
    assert_eq!(q.period(), ("2026-01-01".to_string(), "2099-12-31".to_string()));
    let q = UsageQuery {
        org_id: "org1".to_string(),
        from: None,
        to: Some("2026-02-01".to_string()),
    };
    assert_eq!(q.period(), ("2020-01-01".to_string(), "2026-02-01".to_string()));
}

#[test]
fn rates_query_requires_org() {
    let q = RatesQuery { org_id: None };
    assert_eq!(q.required_org_id(), Err(IdError::Missing));
    let q = RatesQuery { org_id: Some("legal-corp".to_string()) };
    assert_eq!(q.required_org_id(), Ok("legal-corp".to_string()));
}
