//! Limits, defaults and the fixed names of permissions and capability
//! categories.

use vstd::prelude::*;

verus! {

// Default capability limits
pub const DEFAULT_MEMORY_LIMIT_MB: u64 = 128;

pub const DEFAULT_CPU_LIMIT_PERCENT: u8 = 50;

pub const DEFAULT_TIMEOUT_SECONDS: u64 = 30;

// Default expiration times
pub const DEFAULT_EXPIRATION_HOURS: u64 = 24;

pub const MAX_EXPIRATION_DAYS: u64 = 365;

// Attestation constants
pub const ATTESTATION_EXPIRY_DAYS: u64 = 365;

pub const DEFAULT_ATTESTATION_ALGORITHM: &'static str = "SHA256-RSA";

// Security limits
pub const MAX_TOOL_NAME_LENGTH: usize = 256;

pub const MAX_ALTERNATIVE_TOOLS: usize = 10;

pub const MAX_CAPABILITY_FLAGS: usize = 100;

pub const MAX_METADATA_ENTRIES: usize = 50;

// Hash constants
/// Length of a capability hash: a SHA-256 digest in hexadecimal.
pub const CAPABILITY_HASH_LENGTH: usize = 64;

// Registry limits
pub const MAX_REGISTERED_WORKERS: usize = 1000;

pub const MAX_TOOLS_PER_WORKER: usize = 100;

// Permission names
pub const PERMISSION_FILESYSTEM_ACCESS: &'static str = "filesystem_access";

pub const PERMISSION_NETWORK_ACCESS: &'static str = "network_access";

pub const PERMISSION_PROCESS_SPAWN: &'static str = "process_spawn";

pub const PERMISSION_ENV_ACCESS: &'static str = "env_access";

pub const PERMISSION_SYSTEM_ACCESS: &'static str = "system_access";

// Capability categories
pub const CAPABILITY_STATIC_ANALYSIS: &'static str = "static_analysis";

pub const CAPABILITY_SECURITY_SCANNING: &'static str = "security_scanning";

pub const CAPABILITY_DYNAMIC_ANALYSIS: &'static str = "dynamic_analysis";

pub const CAPABILITY_FUZZING: &'static str = "fuzzing";

pub const CAPABILITY_TEST_FRAMEWORK: &'static str = "test_framework";

/// Seconds that a default expiration lies after the moment of creation.
pub open spec fn default_lifetime_seconds() -> int {
    DEFAULT_EXPIRATION_HOURS * 60 * 60
}

/// Seconds after which an attestation is no longer accepted.
pub open spec fn attestation_window_seconds() -> int {
    ATTESTATION_EXPIRY_DAYS * 24 * 60 * 60
}

} // verus!
