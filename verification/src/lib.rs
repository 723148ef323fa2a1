//! Control plane for a traffic-filtering sidecar: admission-time sidecar
//! injection, policy resolution, bootstrap rendering and idempotent
//! provisioning, and a pull-only discovery service.

pub mod admission;
pub mod discovery;
pub mod enforce;
pub mod policy;
pub mod provision;
pub mod store;
pub mod text;
pub mod workload;
