//! RouterOS REST API: record types, request planning and query encoding.

pub mod client;
pub mod types;
pub mod urlencoding;
