//! Worker capability declarations, their attestation and revocation, and the
//! matching of workers against capability requirements.
//!
//! A worker declares its tools in a [`Capabilities`] bundle. Each
//! [`ToolCapability`] can carry an attestation over a hash of its claims, a
//! permission scope, a time of expiry and a revocation. A
//! [`CapabilityRegistry`] holds the bundles of many workers and answers which
//! of them meet a requirement, given a check that tells which tools are
//! available.

pub mod attestation;
pub mod capabilities;
pub mod checker;
pub mod clock;
pub mod constants;
pub mod digest;
pub mod laws;
pub mod model;
pub mod registry;
pub mod store;
pub mod text;
pub mod types;

pub use attestation::AttestationManager;
pub use capabilities::{Capabilities, CapabilityStatistics};
pub use registry::{CapabilityRegistry, RegistryStatistics};
pub use store::KeyedStore;
pub use types::{
    CapabilityAttestation, CapabilityCategory, CapabilityExpiration, CapabilityPermissions,
    CapabilitySecurityReport, ToolCapability,
};
