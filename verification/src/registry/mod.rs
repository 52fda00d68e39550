//! Hostname registry: several sources may claim one hostname, and the claim
//! of the highest priority decides the DNS record.

pub mod laws;
pub mod manager;
pub mod types;
