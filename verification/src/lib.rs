//! Billing, metering and inter-org economics: the verified core.
//!
//! Category and scope codes, the tamper-evident audit hash chain, the checks
//! on API parameters and the table schema live here; the database access and
//! the floating-point arithmetic on money live in the application around it.

pub mod audit;
pub mod budget;
pub mod hashing;
pub mod routes;
pub mod schema;
pub mod text;
pub mod timestamps;
pub mod types;
