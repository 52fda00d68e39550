//! GL.Inet router DNS: custom host entries and the client's decisions.

pub mod client;
pub mod types;
