//! Decisions of a Kubernetes controller that keeps DNS A records in a
//! RouterOS or GL.Inet router in step with Harvester VirtualMachineNetworkConfig
//! and LoadBalancer resources.

pub mod config;
pub mod controller;
pub mod dns;
pub mod health;
pub mod keyed;
pub mod kubernetes;
pub mod registry;
pub mod routeros;
pub mod text;
