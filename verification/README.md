# convergio-billing

Billing, metering and inter-org economics for the Convergio platform.

- `src/` is the verified core (Verus): category and budget-scope codes, the
  SHA-256 audit hash chain (hashing, linking and chain verification, with the
  laws that appends keep a chain valid and that rewriting, deleting or
  inserting a link is reported), the reading of stored RFC 3339 times
  (through `chrono`), the checks on HTTP parameters and the table schema.
- `app/` is the service around it: SQLite storage through `rusqlite`, the
  amounts in USD (floating point: budgets, percentages, alerts, invoices,
  settlements) and the `axum` routes.
- `tests/` runs the core on concrete values.
