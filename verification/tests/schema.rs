use convergio_billing::schema::migrations;

#[test]
fn migrations_are_ordered() {
    let m = migrations();
    assert_eq!(m.len(), 1);
    assert_eq!(m[0].version, 1);
}

#[test]
fn migration_creates_every_billing_table() {
    let m = migrations();
    assert_eq!(m[0].description, "billing tables");
    for table in [
        "billing_usage",
        "billing_budgets",
        "billing_rate_cards",
        "billing_invoices",
        "billing_settlements",
        "billing_audit",
        "billing_quotas",
    ] {
        assert!(m[0].up.contains(&format!("CREATE TABLE IF NOT EXISTS {table}")));
    }
}

#[test]
fn migration_applies_to_sqlite() {
    let conn = rusqlite::Connection::open_in_memory().unwrap();
    for m in migrations() {
        conn.execute_batch(m.up).unwrap();
    }
    let n: i64 = conn
        .query_row(
            "SELECT COUNT(*) FROM sqlite_master WHERE type = 'table' AND name LIKE 'billing_%'",
            [],
            |r| r.get(0),
        )
        .unwrap();
    assert_eq!(n, 7);
}
