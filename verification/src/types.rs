//! The records of a capability declaration: attestation, permissions,
//! expiration, and the tool capability that holds them.

use crate::checker::{answers_any_name, answers_match, any_available, is_available};
use crate::clock::unix_time_now;
use crate::constants::{
    DEFAULT_CPU_LIMIT_PERCENT, DEFAULT_EXPIRATION_HOURS, DEFAULT_MEMORY_LIMIT_MB,
    DEFAULT_TIMEOUT_SECONDS, PERMISSION_ENV_ACCESS, PERMISSION_FILESYSTEM_ACCESS,
    PERMISSION_NETWORK_ACCESS, PERMISSION_PROCESS_SPAWN, PERMISSION_SYSTEM_ACCESS,
};
use crate::model::{
    default_permissions, AttestationView, ExpirationView, SecurityReportView, ToolCapabilityView,
};
use crate::text::str_eq;
use vstd::prelude::*;

verus! {

/// The five fixed categories that a worker's tools fall into.
#[derive(Debug, Clone, Copy, PartialEq, Eq, Structural)]
pub enum CapabilityCategory {
    StaticAnalysis,
    SecurityScanning,
    DynamicAnalysis,
    Fuzzing,
    TestFramework,
}

/// Capability attestation for cryptographic verification
#[derive(Debug)]
pub struct CapabilityAttestation {
    /// Hash of the capability claims
    pub capability_hash: String,
    /// Digital signature of the hash
    pub signature: String,
    /// Public key used for verification
    pub public_key: String,
    /// Timestamp when attested
    pub timestamp: u64,
    /// Attestation algorithm used
    pub algorithm: String,
    /// Attester identity
    pub attester: String,
}

impl View for CapabilityAttestation {
    type V = AttestationView;

    open spec fn view(&self) -> AttestationView {
        AttestationView {
            capability_hash: self.capability_hash@,
            signature: self.signature@,
            public_key: self.public_key@,
            timestamp: self.timestamp,
            algorithm: self.algorithm@,
            attester: self.attester@,
        }
    }
}

impl Clone for CapabilityAttestation {
    fn clone(&self) -> (copy: Self)
        ensures
            copy == *self,
    {
        CapabilityAttestation {
            capability_hash: self.capability_hash.clone(),
            signature: self.signature.clone(),
            public_key: self.public_key.clone(),
            timestamp: self.timestamp,
            algorithm: self.algorithm.clone(),
            attester: self.attester.clone(),
        }
    }
}

/// Capability permissions and boundaries
#[derive(Debug)]
pub struct CapabilityPermissions {
    /// Can access filesystem
    pub filesystem_access: bool,
    /// Can make network calls
    pub network_access: bool,
    /// Can spawn processes
    pub process_spawn: bool,
    /// Can access environment variables
    pub env_access: bool,
    /// Can access system resources
    pub system_access: bool,
    /// Maximum memory usage in MB
    pub memory_limit_mb: u64,
    /// Maximum CPU usage percentage
    pub cpu_limit_percent: u8,
    /// Maximum execution time in seconds
    pub timeout_seconds: u64,
}

impl Clone for CapabilityPermissions {
    fn clone(&self) -> (copy: Self)
        ensures
            copy == *self,
    {
        CapabilityPermissions {
            filesystem_access: self.filesystem_access,
            network_access: self.network_access,
            process_spawn: self.process_spawn,
            env_access: self.env_access,
            system_access: self.system_access,
            memory_limit_mb: self.memory_limit_mb,
            cpu_limit_percent: self.cpu_limit_percent,
            timeout_seconds: self.timeout_seconds,
        }
    }
}

impl Default for CapabilityPermissions {
    fn default() -> (permissions: Self)
        ensures
            permissions == default_permissions(),
    {
        CapabilityPermissions {
            filesystem_access: false,
            network_access: false,
            process_spawn: false,
            env_access: false,
            system_access: false,
            memory_limit_mb: DEFAULT_MEMORY_LIMIT_MB,
            cpu_limit_percent: DEFAULT_CPU_LIMIT_PERCENT,
            timeout_seconds: DEFAULT_TIMEOUT_SECONDS,
        }
    }
}

/// Capability expiration and revocation
#[derive(Debug)]
pub struct CapabilityExpiration {
    /// Expiration timestamp
    pub expires_at: u64,
    /// Whether capability is revoked
    pub revoked: bool,
    /// Revocation reason (if revoked)
    pub revocation_reason: Option<String>,
    /// Revocation timestamp (if revoked)
    pub revoked_at: Option<u64>,
    /// Revoker identity (if revoked)
    pub revoked_by: Option<String>,
}

/// The characters of an optional string.
pub open spec fn optional_text(text: Option<String>) -> Option<Seq<char>> {
    match text {
        Some(s) => Some(s@),
        None => None,
    }
}

impl View for CapabilityExpiration {
    type V = ExpirationView;

    open spec fn view(&self) -> ExpirationView {
        ExpirationView {
            expires_at: self.expires_at,
            revoked: self.revoked,
            revocation_reason: optional_text(self.revocation_reason),
            revoked_at: self.revoked_at,
            revoked_by: optional_text(self.revoked_by),
        }
    }
}

fn clone_optional_text(text: &Option<String>) -> (copy: Option<String>)
    ensures
        copy == *text,
{
    match text {
        Some(s) => Some(s.clone()),
        None => None,
    }
}

impl Clone for CapabilityExpiration {
    fn clone(&self) -> (copy: Self)
        ensures
            copy == *self,
    {
        CapabilityExpiration {
            expires_at: self.expires_at,
            revoked: self.revoked,
            revocation_reason: clone_optional_text(&self.revocation_reason),
            revoked_at: self.revoked_at,
            revoked_by: clone_optional_text(&self.revoked_by),
        }
    }
}

impl CapabilityExpiration {
    /// The expiration of a capability created at `now`: a default lifetime
    /// ahead, not revoked.
    pub fn starting_at(now: u64) -> (expiration: Self)
        ensures
            expiration@ == ExpirationView::starting_at(now),
            expiration@.is_consistent(),
    {
        let lifetime: u64 = DEFAULT_EXPIRATION_HOURS * 60 * 60;
        let expires_at: u64 = if now <= u64::MAX - lifetime {
            now + lifetime
        } else {
            u64::MAX
        };
        CapabilityExpiration {
            expires_at,
            revoked: false,
            revocation_reason: None,
            revoked_at: None,
            revoked_by: None,
        }
    }
}

impl Default for CapabilityExpiration {
    /// The expiration of a capability created now, by the system clock.
    fn default() -> (expiration: Self)
        ensures
            exists|now: u64| expiration@ == #[trigger] ExpirationView::starting_at(now),
            expiration@.is_consistent(),
    {
        CapabilityExpiration::starting_at(unix_time_now())
    }
}

/// Tool capability definition with security features
#[derive(Debug)]
pub struct ToolCapability {
    /// Name of the tool
    pub tool_name: String,
    /// Whether this tool is required (vs optional)
    pub required: bool,
    /// Alternative tools that can substitute
    pub alternatives: Vec<String>,
    /// Capability attestation
    pub attestation: Option<CapabilityAttestation>,
    /// Capability permissions
    pub permissions: CapabilityPermissions,
    /// Capability expiration
    pub expiration: CapabilityExpiration,
    /// Whether capability is verified
    pub verified: bool,
}

/// What an optional attestation holds.
pub open spec fn optional_attestation(attestation: Option<CapabilityAttestation>) -> Option<
    AttestationView,
> {
    match attestation {
        Some(a) => Some(a@),
        None => None,
    }
}

impl Clone for ToolCapability {
    fn clone(&self) -> (copy: Self)
        ensures
            copy@ == self@,
    {
        let alternatives = self.alternatives.clone();
        proof {
            assert forall|i: int| 0 <= i < alternatives@.len() implies alternatives@[i]@
                == self.alternatives@[i]@ by {
                assert(cloned::<String>(self.alternatives@[i], alternatives@[i]));
            }
            assert(alternatives.deep_view() =~= self.alternatives.deep_view());
        }
        ToolCapability {
            tool_name: self.tool_name.clone(),
            required: self.required,
            alternatives,
            attestation: match &self.attestation {
                Some(attestation) => Some(attestation.clone()),
                None => None,
            },
            permissions: self.permissions.clone(),
            expiration: self.expiration.clone(),
            verified: self.verified,
        }
    }
}

impl View for ToolCapability {
    type V = ToolCapabilityView;

    open spec fn view(&self) -> ToolCapabilityView {
        ToolCapabilityView {
            tool_name: self.tool_name@,
            required: self.required,
            alternatives: self.alternatives.deep_view(),
            attestation: optional_attestation(self.attestation),
            permissions: self.permissions,
            expiration: self.expiration@,
            verified: self.verified,
        }
    }
}

impl ToolCapability {
    /// Create a new tool capability, with the default permissions and a
    /// default lifetime that starts now, by the system clock.
    pub fn new(tool_name: &str, required: bool) -> (tool: Self)
        ensures
            exists|now: u64|
                tool@ == #[trigger] ToolCapabilityView::with_defaults(tool_name@, required, now),
    {
        let expiration = CapabilityExpiration::default();
        let ghost now = choose|now: u64| expiration@ == ExpirationView::starting_at(now);
        let tool = Self::new_secure(
            tool_name,
            required,
            CapabilityPermissions::default(),
            expiration,
        );
        assert(tool@ == ToolCapabilityView::with_defaults(tool_name@, required, now));
        tool
    }

    /// Create a new secure tool capability
    pub fn new_secure(
        tool_name: &str,
        required: bool,
        permissions: CapabilityPermissions,
        expiration: CapabilityExpiration,
    ) -> (tool: Self)
        ensures
            tool@ == ToolCapabilityView::fresh(tool_name@, required, permissions, expiration@),
    {
        let tool = ToolCapability {
            tool_name: tool_name.to_owned(),
            required,
            alternatives: Vec::new(),
            attestation: None,
            permissions,
            expiration,
            verified: false,
        };
        assert(tool.alternatives.deep_view() =~= Seq::<Seq<char>>::empty());
        tool
    }

    /// Add alternative tools
    pub fn with_alternatives(self, alternatives: Vec<String>) -> (tool: Self)
        ensures
            tool@ == self@.with_alternatives(alternatives.deep_view()),
    {
        let mut tool = self;
        tool.alternatives = alternatives;
        tool
    }

    /// Add attestation to capability
    pub fn with_attestation(self, attestation: CapabilityAttestation) -> (tool: Self)
        ensures
            tool@ == self@.with_attestation(attestation@),
    {
        let mut tool = self;
        tool.attestation = Some(attestation);
        tool.verified = true;
        tool
    }

    /// Set permissions
    pub fn with_permissions(self, permissions: CapabilityPermissions) -> (tool: Self)
        ensures
            tool@ == self@.with_permissions(permissions),
    {
        let mut tool = self;
        tool.permissions = permissions;
        tool
    }

    /// Set expiration. A capability that is revoked stays revoked and keeps
    /// reason, time and revoker of its revocation: only the time of expiry
    /// is taken from the new record.
    pub fn with_expiration(self, expiration: CapabilityExpiration) -> (tool: Self)
        ensures
            tool@ == self@.with_expiration(expiration@),
            self@.is_revoked() ==> tool@.is_revoked(),
            tool@.expiration.expires_at == expiration@.expires_at,
    {
        let mut tool = self;
        if tool.expiration.revoked {
            tool.expiration.expires_at = expiration.expires_at;
        } else {
            tool.expiration = expiration;
        }
        tool
    }

    /// Check if this capability is satisfied at the time `now`.
    pub fn is_satisfied_at<F: Fn(&str) -> bool>(
        &self,
        tool_checker: &F,
        now: u64,
    ) -> (satisfied: bool)
        requires
            answers_any_name(tool_checker),
        ensures
            forall|available: Set<Seq<char>>| #[trigger]
                answers_match(tool_checker, available) ==> satisfied == self@.is_satisfied(
                    now,
                    available,
                ),
    {
        // Check if capability is expired
        if self.is_expired_at(now) {
            return false;
        }
        // Check if capability is revoked
        if self.is_revoked() {
            return false;
        }
        let ghost names = self@.names();
        // Check primary tool
        if is_available(tool_checker, self.tool_name.as_str()) {
            assert forall|available: Set<Seq<char>>| #[trigger]
                answers_match(tool_checker, available) implies self@.is_present(available) by {
                assert(available.contains(names[0]));
            }
            return true;
        }
        // Check alternatives
        let found = any_available(tool_checker, &self.alternatives);
        assert forall|available: Set<Seq<char>>| #[trigger]
            answers_match(tool_checker, available) implies found == self@.is_present(
            available,
        ) by {
            let alternatives = self.alternatives.deep_view();
            if found {
                let i = choose|i: int|
                    0 <= i < alternatives.len() && available.contains(#[trigger] alternatives[i]);
                assert(available.contains(names[i + 1]));
            }
            if self@.is_present(available) {
                let k = choose|k: int|
                    0 <= k < names.len() && available.contains(#[trigger] names[k]);
                assert(k > 0);
                assert(available.contains(alternatives[k - 1]));
            }
        }
        found
    }

    /// Check if this capability is satisfied now, by the system clock.
    pub fn is_satisfied<F: Fn(&str) -> bool>(&self, tool_checker: &F) -> (satisfied: bool)
        requires
            answers_any_name(tool_checker),
        ensures
            forall|available: Set<Seq<char>>| #[trigger]
                answers_match(tool_checker, available) ==> exists|now: u64|
                    satisfied == #[trigger] self@.is_satisfied(now, available),
    {
        let now = unix_time_now();
        let satisfied = self.is_satisfied_at(tool_checker, now);
        assert forall|available: Set<Seq<char>>| #[trigger]
            answers_match(tool_checker, available) implies exists|now: u64|
            satisfied == #[trigger] self@.is_satisfied(now, available) by {
            assert(satisfied == self@.is_satisfied(now, available));
        }
        satisfied
    }

    /// Check if capability is expired at the time `now`.
    pub fn is_expired_at(&self, now: u64) -> (expired: bool)
        ensures
            expired == self@.is_expired(now),
    {
        now > self.expiration.expires_at
    }

    /// Check if capability is expired now, by the system clock.
    pub fn is_expired(&self) -> (expired: bool)
        ensures
            exists|now: u64| expired == #[trigger] self@.is_expired(now),
    {
        let now = unix_time_now();
        let expired = self.is_expired_at(now);
        assert(expired == self@.is_expired(now));
        expired
    }

    /// Check if capability is revoked
    pub fn is_revoked(&self) -> (revoked: bool)
        ensures
            revoked == self@.is_revoked(),
    {
        self.expiration.revoked
    }

    /// Check if capability has required permissions
    pub fn has_permission(&self, permission: &str) -> (granted: bool)
        ensures
            granted == self@.has_permission(permission@),
    {
        if str_eq(permission, PERMISSION_FILESYSTEM_ACCESS) {
            self.permissions.filesystem_access
        } else if str_eq(permission, PERMISSION_NETWORK_ACCESS) {
            self.permissions.network_access
        } else if str_eq(permission, PERMISSION_PROCESS_SPAWN) {
            self.permissions.process_spawn
        } else if str_eq(permission, PERMISSION_ENV_ACCESS) {
            self.permissions.env_access
        } else if str_eq(permission, PERMISSION_SYSTEM_ACCESS) {
            self.permissions.system_access
        } else {
            false
        }
    }

    /// Revoke capability at the time `now`. A capability that is revoked
    /// already stays revoked; reason, time and revoker are overwritten.
    pub fn revoke_at(&mut self, reason: String, revoked_by: String, now: u64)
        ensures
            final(self)@ == old(self)@.revoke(reason@, revoked_by@, now),
            final(self)@.is_revoked(),
            final(self)@.expiration.is_consistent(),
    {
        self.expiration.revoked = true;
        self.expiration.revocation_reason = Some(reason);
        self.expiration.revoked_at = Some(now);
        self.expiration.revoked_by = Some(revoked_by);
    }

    /// Revoke capability now, by the system clock.
    pub fn revoke(&mut self, reason: String, revoked_by: String)
        ensures
            exists|now: u64|
                final(self)@ == #[trigger] old(self)@.revoke(reason@, revoked_by@, now),
            final(self)@.is_revoked(),
            final(self)@.expiration.is_consistent(),
    {
        let now = unix_time_now();
        self.revoke_at(reason, revoked_by, now);
        assert(self@ == old(self)@.revoke(reason@, revoked_by@, now));
    }
}

/// Security report for a capability
#[derive(Debug)]
pub struct CapabilitySecurityReport {
    pub tool_name: String,
    pub has_attestation: bool,
    pub attestation_verified: bool,
    pub is_expired: bool,
    pub is_revoked: bool,
    pub permissions: CapabilityPermissions,
    pub expiration: CapabilityExpiration,
}

impl View for CapabilitySecurityReport {
    type V = SecurityReportView;

    open spec fn view(&self) -> SecurityReportView {
        SecurityReportView {
            tool_name: self.tool_name@,
            has_attestation: self.has_attestation,
            attestation_verified: self.attestation_verified,
            is_expired: self.is_expired,
            is_revoked: self.is_revoked,
            permissions: self.permissions,
            expiration: self.expiration@,
        }
    }
}

impl Clone for CapabilitySecurityReport {
    fn clone(&self) -> (copy: Self)
        ensures
            copy == *self,
    {
        CapabilitySecurityReport {
            tool_name: self.tool_name.clone(),
            has_attestation: self.has_attestation,
            attestation_verified: self.attestation_verified,
            is_expired: self.is_expired,
            is_revoked: self.is_revoked,
            permissions: self.permissions.clone(),
            expiration: self.expiration.clone(),
        }
    }
}

} // verus!
