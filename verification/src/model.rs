//! The mathematical model of capabilities: what each record stands for, and
//! what the queries over it mean.

use crate::constants::{
    attestation_window_seconds, default_lifetime_seconds, CAPABILITY_DYNAMIC_ANALYSIS,
    CAPABILITY_FUZZING, CAPABILITY_SECURITY_SCANNING, CAPABILITY_STATIC_ANALYSIS,
    CAPABILITY_TEST_FRAMEWORK, DEFAULT_ATTESTATION_ALGORITHM, DEFAULT_CPU_LIMIT_PERCENT,
    DEFAULT_MEMORY_LIMIT_MB, DEFAULT_TIMEOUT_SECONDS, PERMISSION_ENV_ACCESS,
    PERMISSION_FILESYSTEM_ACCESS, PERMISSION_NETWORK_ACCESS, PERMISSION_PROCESS_SPAWN,
    PERMISSION_SYSTEM_ACCESS,
};
use crate::digest::sha256_hex_of_text;
use crate::text::{bool_text, decimal_text, joined_text};
use crate::types::{CapabilityCategory, CapabilityPermissions};
use vstd::prelude::*;

verus! {

/// What an attestation record holds, as plain values.
pub struct AttestationView {
    pub capability_hash: Seq<char>,
    pub signature: Seq<char>,
    pub public_key: Seq<char>,
    pub timestamp: u64,
    pub algorithm: Seq<char>,
    pub attester: Seq<char>,
}

/// What an expiration record holds, as plain values.
pub struct ExpirationView {
    pub expires_at: u64,
    pub revoked: bool,
    pub revocation_reason: Option<Seq<char>>,
    pub revoked_at: Option<u64>,
    pub revoked_by: Option<Seq<char>>,
}

/// What a tool capability holds, as plain values.
pub struct ToolCapabilityView {
    pub tool_name: Seq<char>,
    pub required: bool,
    pub alternatives: Seq<Seq<char>>,
    pub attestation: Option<AttestationView>,
    pub permissions: CapabilityPermissions,
    pub expiration: ExpirationView,
    pub verified: bool,
}

/// What a security report on one tool holds, as plain values.
pub struct SecurityReportView {
    pub tool_name: Seq<char>,
    pub has_attestation: bool,
    pub attestation_verified: bool,
    pub is_expired: bool,
    pub is_revoked: bool,
    pub permissions: CapabilityPermissions,
    pub expiration: ExpirationView,
}

/// The permissions of a capability that was given none: every scope closed,
/// the default limits.
pub open spec fn default_permissions() -> CapabilityPermissions {
    CapabilityPermissions {
        filesystem_access: false,
        network_access: false,
        process_spawn: false,
        env_access: false,
        system_access: false,
        memory_limit_mb: DEFAULT_MEMORY_LIMIT_MB,
        cpu_limit_percent: DEFAULT_CPU_LIMIT_PERCENT,
        timeout_seconds: DEFAULT_TIMEOUT_SECONDS,
    }
}

/// When a capability created at `now` expires by default: a day later, or at
/// the largest representable time where a day later cannot be represented.
pub open spec fn default_expiry(now: u64) -> u64 {
    if now + default_lifetime_seconds() <= u64::MAX {
        (now + default_lifetime_seconds()) as u64
    } else {
        u64::MAX
    }
}

/// Whether the permission called `name` is granted. A name that is none of
/// the five scopes is granted by nothing.
pub open spec fn permission_granted(permissions: CapabilityPermissions, name: Seq<char>) -> bool {
    if name == PERMISSION_FILESYSTEM_ACCESS@ {
        permissions.filesystem_access
    } else if name == PERMISSION_NETWORK_ACCESS@ {
        permissions.network_access
    } else if name == PERMISSION_PROCESS_SPAWN@ {
        permissions.process_spawn
    } else if name == PERMISSION_ENV_ACCESS@ {
        permissions.env_access
    } else if name == PERMISSION_SYSTEM_ACCESS@ {
        permissions.system_access
    } else {
        false
    }
}

impl ExpirationView {
    /// The expiration of a capability created at `now`: a default lifetime
    /// ahead, not revoked.
    pub open spec fn starting_at(now: u64) -> ExpirationView {
        ExpirationView {
            expires_at: default_expiry(now),
            revoked: false,
            revocation_reason: None,
            revoked_at: None,
            revoked_by: None,
        }
    }

    /// Reason, time and revoker are present together exactly when the record
    /// is revoked, and absent together otherwise.
    pub open spec fn is_consistent(self) -> bool {
        if self.revoked {
            self.revocation_reason is Some && self.revoked_at is Some && self.revoked_by is Some
        } else {
            self.revocation_reason is None && self.revoked_at is None && self.revoked_by is None
        }
    }

    /// The record after a revocation at `now`.
    pub open spec fn revoke(
        self,
        reason: Seq<char>,
        revoked_by: Seq<char>,
        now: u64,
    ) -> ExpirationView {
        ExpirationView {
            expires_at: self.expires_at,
            revoked: true,
            revocation_reason: Some(reason),
            revoked_at: Some(now),
            revoked_by: Some(revoked_by),
        }
    }
}

impl AttestationView {
    /// Whether the attestation is older at `now` than the attestation window
    /// allows. One dated after `now` has no age yet.
    pub open spec fn is_outdated(self, now: u64) -> bool {
        now - self.timestamp > attestation_window_seconds()
    }

    /// Whether the attestation can be accepted at `now` as far as it alone
    /// shows: dated no later than `now`, young enough, made with the default
    /// algorithm, and carrying a signature and a public key.
    pub open spec fn is_acceptable(self, now: u64) -> bool {
        &&& self.timestamp <= now
        &&& !self.is_outdated(now)
        &&& self.algorithm == DEFAULT_ATTESTATION_ALGORITHM@
        &&& self.signature.len() > 0
        &&& self.public_key.len() > 0
    }
}

/// Whether every one of `attestations` can be accepted at `now`.
pub open spec fn all_acceptable(attestations: Seq<AttestationView>, now: u64) -> bool {
    forall|i: int| 0 <= i < attestations.len() ==> (#[trigger] attestations[i]).is_acceptable(now)
}

/// Those of `names` whose attestation, at the same position, is outdated at
/// `now`, in order.
pub open spec fn outdated_names(
    names: Seq<Seq<char>>,
    attestations: Seq<AttestationView>,
    now: u64,
) -> Seq<Seq<char>>
    decreases names.len(),
{
    if names.len() == 0 || attestations.len() != names.len() {
        Seq::empty()
    } else if attestations.last().is_outdated(now) {
        outdated_names(names.drop_last(), attestations.drop_last(), now).push(names.last())
    } else {
        outdated_names(names.drop_last(), attestations.drop_last(), now)
    }
}

/// The signature that stands for a signing of `hash` at `timestamp`.
pub open spec fn signature_text(hash: Seq<char>, timestamp: u64) -> Seq<char> {
    "signature_"@ + hash + "_"@ + decimal_text(timestamp as nat)
}

/// The public key that belongs to a signer's private key.
pub open spec fn public_key_text(signer_private_key: Seq<char>) -> Seq<char> {
    "pubkey_"@ + signer_private_key
}

impl ToolCapabilityView {
    /// A capability as it is first made: no alternatives, no attestation,
    /// not verified.
    pub open spec fn fresh(
        tool_name: Seq<char>,
        required: bool,
        permissions: CapabilityPermissions,
        expiration: ExpirationView,
    ) -> ToolCapabilityView {
        ToolCapabilityView {
            tool_name,
            required,
            alternatives: Seq::empty(),
            attestation: None,
            permissions,
            expiration,
            verified: false,
        }
    }

    /// A capability made at `now` with the default permissions and the
    /// default lifetime.
    pub open spec fn with_defaults(
        tool_name: Seq<char>,
        required: bool,
        now: u64,
    ) -> ToolCapabilityView {
        Self::fresh(tool_name, required, default_permissions(), ExpirationView::starting_at(now))
    }

    /// Whether `now` lies after the time of expiry.
    pub open spec fn is_expired(self, now: u64) -> bool {
        now > self.expiration.expires_at
    }

    pub open spec fn is_revoked(self) -> bool {
        self.expiration.revoked
    }

    /// The names under which the tool may be found: its own, then its
    /// alternatives.
    pub open spec fn names(self) -> Seq<Seq<char>> {
        seq![self.tool_name] + self.alternatives
    }

    /// Whether one of the tool's names is among the available ones.
    pub open spec fn is_present(self, available: Set<Seq<char>>) -> bool {
        exists|i: int| 0 <= i < self.names().len() && available.contains(#[trigger] self.names()[i])
    }

    /// A capability is satisfied at `now` when it is neither expired nor
    /// revoked and the tool, under its own name or an alternative, is
    /// available.
    pub open spec fn is_satisfied(self, now: u64, available: Set<Seq<char>>) -> bool {
        !self.is_expired(now) && !self.is_revoked() && self.is_present(available)
    }

    pub open spec fn has_permission(self, permission: Seq<char>) -> bool {
        permission_granted(self.permissions, permission)
    }

    /// The text that the capability hash is taken of: the name, whether the
    /// tool is required, the alternatives joined by commas, the five
    /// permission scopes, the three limits and the time of expiry, one after
    /// the other.
    pub open spec fn hash_input(self) -> Seq<char> {
        self.tool_name + bool_text(self.required) + joined_text(self.alternatives) + bool_text(
            self.permissions.filesystem_access,
        ) + bool_text(self.permissions.network_access) + bool_text(self.permissions.process_spawn)
            + bool_text(self.permissions.env_access) + bool_text(self.permissions.system_access)
            + decimal_text(self.permissions.memory_limit_mb as nat) + decimal_text(
            self.permissions.cpu_limit_percent as nat,
        ) + decimal_text(self.permissions.timeout_seconds as nat) + decimal_text(
            self.expiration.expires_at as nat,
        )
    }

    /// The capability hash: the SHA-256 digest of the hash input, in
    /// hexadecimal.
    pub open spec fn capability_hash(self) -> Seq<char> {
        sha256_hex_of_text(self.hash_input())
    }

    /// Whether an attestation is attached whose hash is the capability's own.
    pub open spec fn hash_matches(self) -> bool {
        match self.attestation {
            Some(attestation) => attestation.capability_hash == self.capability_hash(),
            None => false,
        }
    }

    /// Whether the attached attestation holds at `now`: it is acceptable by
    /// itself and its hash is the capability's own.
    pub open spec fn attestation_is_valid(self, now: u64) -> bool {
        match self.attestation {
            Some(attestation) => attestation.is_acceptable(now) && self.hash_matches(),
            None => false,
        }
    }

    /// The attestation issued for this capability at `now`.
    pub open spec fn attestation_at(
        self,
        signer_private_key: Seq<char>,
        attester: Seq<char>,
        now: u64,
    ) -> AttestationView {
        AttestationView {
            capability_hash: self.capability_hash(),
            signature: signature_text(self.capability_hash(), now),
            public_key: public_key_text(signer_private_key),
            timestamp: now,
            algorithm: DEFAULT_ATTESTATION_ALGORITHM@,
            attester,
        }
    }

    pub open spec fn with_alternatives(self, alternatives: Seq<Seq<char>>) -> ToolCapabilityView {
        ToolCapabilityView { alternatives, ..self }
    }

    /// The capability with `attestation` attached; it then counts as verified.
    pub open spec fn with_attestation(self, attestation: AttestationView) -> ToolCapabilityView {
        ToolCapabilityView { attestation: Some(attestation), verified: true, ..self }
    }

    pub open spec fn with_permissions(
        self,
        permissions: CapabilityPermissions,
    ) -> ToolCapabilityView {
        ToolCapabilityView { permissions, ..self }
    }

    /// The capability with a new expiration record. A capability that is
    /// not revoked takes the record as it is given. A revoked one stays
    /// revoked, with its reason, time and revoker: it takes the time of
    /// expiry from the record and nothing else.
    pub open spec fn with_expiration(self, expiration: ExpirationView) -> ToolCapabilityView {
        if self.is_revoked() {
            ToolCapabilityView {
                expiration: ExpirationView { expires_at: expiration.expires_at, ..self.expiration },
                ..self
            }
        } else {
            ToolCapabilityView { expiration, ..self }
        }
    }

    /// The capability after a revocation at `now`.
    pub open spec fn revoke(
        self,
        reason: Seq<char>,
        revoked_by: Seq<char>,
        now: u64,
    ) -> ToolCapabilityView {
        ToolCapabilityView { expiration: self.expiration.revoke(reason, revoked_by, now), ..self }
    }

    /// The security report on this capability at `now`.
    pub open spec fn report(self, now: u64) -> SecurityReportView {
        SecurityReportView {
            tool_name: self.tool_name,
            has_attestation: self.attestation is Some,
            attestation_verified: self.attestation_is_valid(now),
            is_expired: self.is_expired(now),
            is_revoked: self.is_revoked(),
            permissions: self.permissions,
            expiration: self.expiration,
        }
    }
}

/// Whether one of `tools` is satisfied at `now`.
pub open spec fn any_satisfied(
    tools: Seq<ToolCapabilityView>,
    now: u64,
    available: Set<Seq<char>>,
) -> bool {
    exists|i: int| 0 <= i < tools.len() && (#[trigger] tools[i]).is_satisfied(now, available)
}

/// Whether every required tool among `tools` is satisfied at `now`.
pub open spec fn all_required_satisfied(
    tools: Seq<ToolCapabilityView>,
    now: u64,
    available: Set<Seq<char>>,
) -> bool {
    forall|i: int|
        0 <= i < tools.len() && (#[trigger] tools[i]).required ==> tools[i].is_satisfied(
            now,
            available,
        )
}

/// Whether a tool can be trusted at `now`: neither expired nor revoked, and
/// its attestation holds.
pub open spec fn is_trusted(tool: ToolCapabilityView, now: u64) -> bool {
    !tool.is_expired(now) && !tool.is_revoked() && tool.attestation_is_valid(now)
}

/// Whether every one of `tools` can be trusted at `now`.
pub open spec fn all_trusted(tools: Seq<ToolCapabilityView>, now: u64) -> bool {
    forall|i: int| 0 <= i < tools.len() ==> is_trusted(#[trigger] tools[i], now)
}

/// Whether one of `tools` grants the permission called `permission`.
pub open spec fn any_grants(tools: Seq<ToolCapabilityView>, permission: Seq<char>) -> bool {
    exists|i: int| 0 <= i < tools.len() && (#[trigger] tools[i]).has_permission(permission)
}

/// The names of `tools`, each followed by its alternatives, in order.
pub open spec fn names_of(tools: Seq<ToolCapabilityView>) -> Seq<Seq<char>>
    decreases tools.len(),
{
    if tools.len() == 0 {
        Seq::empty()
    } else {
        names_of(tools.drop_last()) + tools.last().names()
    }
}

/// The names of `tools` themselves, without their alternatives, in order.
pub open spec fn primary_names(tools: Seq<ToolCapabilityView>) -> Seq<Seq<char>> {
    tools.map_values(|tool: ToolCapabilityView| tool.tool_name)
}

/// The reports in `base`, overlaid with the security reports on `tools` at
/// `now` by tool name, one tool after the other: a later report replaces an
/// earlier one under the same name.
pub open spec fn reports_onto(
    base: Map<Seq<char>, SecurityReportView>,
    tools: Seq<ToolCapabilityView>,
    now: u64,
) -> Map<Seq<char>, SecurityReportView>
    decreases tools.len(),
{
    if tools.len() == 0 {
        base
    } else {
        reports_onto(base, tools.drop_last(), now).insert(
            tools.last().tool_name,
            tools.last().report(now),
        )
    }
}

/// The security reports on `tools` at `now`, by tool name. Where two tools
/// share a name, the report on the later one stands.
pub open spec fn reports_of(tools: Seq<ToolCapabilityView>, now: u64) -> Map<
    Seq<char>,
    SecurityReportView,
> {
    reports_onto(Map::empty(), tools, now)
}

/// Reporting on two runs of tools is reporting on the first and then on the
/// second.
pub proof fn lemma_reports_onto_concat(
    base: Map<Seq<char>, SecurityReportView>,
    a: Seq<ToolCapabilityView>,
    b: Seq<ToolCapabilityView>,
    now: u64,
)
    ensures
        reports_onto(base, a + b, now) == reports_onto(reports_onto(base, a, now), b, now),
    decreases b.len(),
{
    if b.len() == 0 {
        assert(a + b =~= a);
    } else {
        assert((a + b).drop_last() =~= a + b.drop_last());
        assert((a + b).last() == b.last());
        lemma_reports_onto_concat(base, a, b.drop_last(), now);
    }
}

/// How many of `tools` are required.
pub open spec fn count_required(tools: Seq<ToolCapabilityView>) -> nat
    decreases tools.len(),
{
    if tools.len() == 0 {
        0
    } else {
        count_required(tools.drop_last()) + if tools.last().required {
            1nat
        } else {
            0nat
        }
    }
}

/// How many of `tools` carry an attestation that holds at `now`.
pub open spec fn count_attested(tools: Seq<ToolCapabilityView>, now: u64) -> nat
    decreases tools.len(),
{
    if tools.len() == 0 {
        0
    } else {
        count_attested(tools.drop_last(), now) + if tools.last().attestation_is_valid(now) {
            1nat
        } else {
            0nat
        }
    }
}

/// Whether `after` is `before` revoked for `reason` by `revoked_by` at some
/// time, and nothing else changed.
pub open spec fn is_revocation_of(
    before: ToolCapabilityView,
    after: ToolCapabilityView,
    reason: Seq<char>,
    revoked_by: Seq<char>,
) -> bool {
    exists|now: u64| after == #[trigger] before.revoke(reason, revoked_by, now)
}

/// Whether `after` is `before` with every tool revoked for `reason` by
/// `revoked_by`, each at a time of its own, and nothing else changed.
pub open spec fn all_revoked(
    before: Seq<ToolCapabilityView>,
    after: Seq<ToolCapabilityView>,
    reason: Seq<char>,
    revoked_by: Seq<char>,
) -> bool {
    &&& after.len() == before.len()
    &&& forall|i: int|
        0 <= i < before.len() ==> #[trigger] is_revocation_of(
            before[i],
            after[i],
            reason,
            revoked_by,
        )
}

/// The category that a category name stands for, if it is one of the five.
pub open spec fn category_named(name: Seq<char>) -> Option<CapabilityCategory> {
    if name == CAPABILITY_STATIC_ANALYSIS@ {
        Some(CapabilityCategory::StaticAnalysis)
    } else if name == CAPABILITY_SECURITY_SCANNING@ {
        Some(CapabilityCategory::SecurityScanning)
    } else if name == CAPABILITY_DYNAMIC_ANALYSIS@ {
        Some(CapabilityCategory::DynamicAnalysis)
    } else if name == CAPABILITY_FUZZING@ {
        Some(CapabilityCategory::Fuzzing)
    } else if name == CAPABILITY_TEST_FRAMEWORK@ {
        Some(CapabilityCategory::TestFramework)
    } else {
        None
    }
}

/// What a worker's bundle of capabilities holds, as plain values.
pub struct CapabilitiesView {
    pub id: Seq<char>,
    pub static_analysis_tools: Seq<ToolCapabilityView>,
    pub security_scanning_tools: Seq<ToolCapabilityView>,
    pub dynamic_analysis_tools: Seq<ToolCapabilityView>,
    pub fuzzing_tools: Seq<ToolCapabilityView>,
    pub test_framework_tools: Seq<ToolCapabilityView>,
    pub flags: Map<Seq<char>, bool>,
    pub metadata: Map<Seq<char>, Seq<char>>,
}

/// The counts that describe one bundle.
pub struct StatisticsView {
    pub total_tools: nat,
    pub required_tools: nat,
    pub verified_tools: nat,
    pub flags_count: nat,
    pub metadata_count: nat,
}

impl CapabilitiesView {
    /// A bundle that declares nothing.
    pub open spec fn empty(id: Seq<char>) -> CapabilitiesView {
        CapabilitiesView {
            id,
            static_analysis_tools: Seq::empty(),
            security_scanning_tools: Seq::empty(),
            dynamic_analysis_tools: Seq::empty(),
            fuzzing_tools: Seq::empty(),
            test_framework_tools: Seq::empty(),
            flags: Map::empty(),
            metadata: Map::empty(),
        }
    }

    /// The tools of one category.
    pub open spec fn tools_in(self, category: CapabilityCategory) -> Seq<ToolCapabilityView> {
        match category {
            CapabilityCategory::StaticAnalysis => self.static_analysis_tools,
            CapabilityCategory::SecurityScanning => self.security_scanning_tools,
            CapabilityCategory::DynamicAnalysis => self.dynamic_analysis_tools,
            CapabilityCategory::Fuzzing => self.fuzzing_tools,
            CapabilityCategory::TestFramework => self.test_framework_tools,
        }
    }

    /// The tools of the category called `name`; none where the name is not
    /// that of a category.
    pub open spec fn tools_named(self, name: Seq<char>) -> Seq<ToolCapabilityView> {
        match category_named(name) {
            Some(category) => self.tools_in(category),
            None => Seq::empty(),
        }
    }

    /// The bundle with `tool` added at the end of `category`.
    pub open spec fn with_tool(
        self,
        category: CapabilityCategory,
        tool: ToolCapabilityView,
    ) -> CapabilitiesView {
        match category {
            CapabilityCategory::StaticAnalysis => CapabilitiesView {
                static_analysis_tools: self.static_analysis_tools.push(tool),
                ..self
            },
            CapabilityCategory::SecurityScanning => CapabilitiesView {
                security_scanning_tools: self.security_scanning_tools.push(tool),
                ..self
            },
            CapabilityCategory::DynamicAnalysis => CapabilitiesView {
                dynamic_analysis_tools: self.dynamic_analysis_tools.push(tool),
                ..self
            },
            CapabilityCategory::Fuzzing => CapabilitiesView {
                fuzzing_tools: self.fuzzing_tools.push(tool),
                ..self
            },
            CapabilityCategory::TestFramework => CapabilitiesView {
                test_framework_tools: self.test_framework_tools.push(tool),
                ..self
            },
        }
    }

    pub open spec fn with_flag(self, flag: Seq<char>) -> CapabilitiesView {
        CapabilitiesView { flags: self.flags.insert(flag, true), ..self }
    }

    pub open spec fn with_metadata(self, key: Seq<char>, value: Seq<char>) -> CapabilitiesView {
        CapabilitiesView { metadata: self.metadata.insert(key, value), ..self }
    }

    /// The tools of all five categories: static analysis first, then
    /// security scanning, dynamic analysis, fuzzing and test frameworks.
    pub open spec fn all_tools(self) -> Seq<ToolCapabilityView> {
        self.static_analysis_tools + self.security_scanning_tools + self.dynamic_analysis_tools
            + self.fuzzing_tools + self.test_framework_tools
    }

    /// A bundle has a capability when a tool of that category is satisfied.
    /// A category without tools, or a name that is no category, has none.
    pub open spec fn has_capability(
        self,
        category_name: Seq<char>,
        now: u64,
        available: Set<Seq<char>>,
    ) -> bool {
        any_satisfied(self.tools_named(category_name), now, available)
    }

    /// Whether every required tool of the bundle is satisfied. Optional
    /// tools do not count.
    pub open spec fn has_all_required_tools(self, now: u64, available: Set<Seq<char>>) -> bool {
        all_required_satisfied(self.all_tools(), now, available)
    }

    /// Every tool name and alternative of the bundle, in order.
    pub open spec fn tool_names(self) -> Seq<Seq<char>> {
        names_of(self.all_tools())
    }

    /// A flag is set when it is present with the value true.
    pub open spec fn has_flag(self, flag: Seq<char>) -> bool {
        self.flags.contains_key(flag) && self.flags[flag]
    }

    pub open spec fn metadata_value(self, key: Seq<char>) -> Option<Seq<char>> {
        if self.metadata.contains_key(key) {
            Some(self.metadata[key])
        } else {
            None
        }
    }

    /// Whether every tool of the bundle can be trusted at `now`.
    pub open spec fn is_verified(self, now: u64) -> bool {
        all_trusted(self.all_tools(), now)
    }

    /// Whether a tool of the named category grants the named permission.
    pub open spec fn has_required_permissions(
        self,
        category_name: Seq<char>,
        permission: Seq<char>,
    ) -> bool {
        any_grants(self.tools_named(category_name), permission)
    }

    /// Whether `after` is this bundle with every tool in every category
    /// revoked for `reason` by `revoked_by`, and nothing else changed.
    pub open spec fn revoked_as(
        self,
        after: CapabilitiesView,
        reason: Seq<char>,
        revoked_by: Seq<char>,
    ) -> bool {
        &&& after.id == self.id
        &&& after.flags == self.flags
        &&& after.metadata == self.metadata
        &&& all_revoked(self.static_analysis_tools, after.static_analysis_tools, reason, revoked_by)
        &&& all_revoked(
            self.security_scanning_tools,
            after.security_scanning_tools,
            reason,
            revoked_by,
        )
        &&& all_revoked(
            self.dynamic_analysis_tools,
            after.dynamic_analysis_tools,
            reason,
            revoked_by,
        )
        &&& all_revoked(self.fuzzing_tools, after.fuzzing_tools, reason, revoked_by)
        &&& all_revoked(self.test_framework_tools, after.test_framework_tools, reason, revoked_by)
    }

    /// The security reports on the bundle's tools at `now`, by tool name.
    pub open spec fn security_report(self, now: u64) -> Map<Seq<char>, SecurityReportView> {
        reports_of(self.all_tools(), now)
    }

    /// The names under which the security reports stand: each tool name
    /// once, in the order of its first occurrence.
    pub open spec fn reported_names(self) -> Seq<Seq<char>> {
        distinct(primary_names(self.all_tools()))
    }

    /// The bundle's counts at `now`.
    pub open spec fn statistics(self, now: u64) -> StatisticsView {
        StatisticsView {
            total_tools: self.all_tools().len(),
            required_tools: count_required(self.all_tools()),
            verified_tools: count_attested(self.all_tools(), now),
            flags_count: self.flags.dom().len(),
            metadata_count: self.metadata.dom().len(),
        }
    }
}

/// Every required tool of two runs of tools is satisfied exactly when that
/// holds of each run.
pub proof fn lemma_all_required_concat(
    a: Seq<ToolCapabilityView>,
    b: Seq<ToolCapabilityView>,
    now: u64,
    available: Set<Seq<char>>,
)
    ensures
        all_required_satisfied(a + b, now, available) == (all_required_satisfied(a, now, available)
            && all_required_satisfied(b, now, available)),
{
    let joined = a + b;
    if all_required_satisfied(joined, now, available) {
        assert forall|i: int|
            0 <= i < a.len() && (#[trigger] a[i]).required implies a[i].is_satisfied(
            now,
            available,
        ) by {
            assert(joined[i] == a[i]);
        }
        assert forall|i: int|
            0 <= i < b.len() && (#[trigger] b[i]).required implies b[i].is_satisfied(
            now,
            available,
        ) by {
            assert(joined[a.len() + i] == b[i]);
        }
    }
    if all_required_satisfied(a, now, available) && all_required_satisfied(b, now, available) {
        assert forall|i: int|
            0 <= i < joined.len() && (#[trigger] joined[i]).required implies joined[i].is_satisfied(
            now,
            available,
        ) by {
            if i < a.len() {
                assert(joined[i] == a[i]);
            } else {
                assert(joined[i] == b[i - a.len()]);
            }
        }
    }
}

/// Two runs of tools can all be trusted exactly when each run can.
pub proof fn lemma_all_trusted_concat(
    a: Seq<ToolCapabilityView>,
    b: Seq<ToolCapabilityView>,
    now: u64,
)
    ensures
        all_trusted(a + b, now) == (all_trusted(a, now) && all_trusted(b, now)),
{
    let joined = a + b;
    if all_trusted(joined, now) {
        assert forall|i: int| 0 <= i < a.len() implies is_trusted(#[trigger] a[i], now) by {
            assert(joined[i] == a[i]);
        }
        assert forall|i: int| 0 <= i < b.len() implies is_trusted(#[trigger] b[i], now) by {
            assert(joined[a.len() + i] == b[i]);
        }
    }
    if all_trusted(a, now) && all_trusted(b, now) {
        assert forall|i: int| 0 <= i < joined.len() implies is_trusted(
            #[trigger] joined[i],
            now,
        ) by {
            if i < a.len() {
                assert(joined[i] == a[i]);
            } else {
                assert(joined[i] == b[i - a.len()]);
            }
        }
    }
}

/// The names of two runs of tools are the names of the first, then those of
/// the second.
pub proof fn lemma_names_of_concat(a: Seq<ToolCapabilityView>, b: Seq<ToolCapabilityView>)
    ensures
        names_of(a + b) == names_of(a) + names_of(b),
    decreases b.len(),
{
    if b.len() == 0 {
        assert(a + b =~= a);
        assert(names_of(a) + names_of(b) =~= names_of(a));
    } else {
        assert((a + b).drop_last() =~= a + b.drop_last());
        assert((a + b).last() == b.last());
        lemma_names_of_concat(a, b.drop_last());
        assert(names_of(a + b) =~= names_of(a) + names_of(b));
    }
}

/// The required tools of two runs are counted run by run.
pub proof fn lemma_count_required_concat(a: Seq<ToolCapabilityView>, b: Seq<ToolCapabilityView>)
    ensures
        count_required(a + b) == count_required(a) + count_required(b),
        count_required(a) <= a.len(),
    decreases b.len(), a.len(),
{
    if a.len() > 0 {
        lemma_count_required_concat(a.drop_last(), Seq::empty());
    }
    if b.len() == 0 {
        assert(a + b =~= a);
    } else {
        assert((a + b).drop_last() =~= a + b.drop_last());
        assert((a + b).last() == b.last());
        lemma_count_required_concat(a, b.drop_last());
    }
}

/// The attested tools of two runs are counted run by run.
pub proof fn lemma_count_attested_concat(
    a: Seq<ToolCapabilityView>,
    b: Seq<ToolCapabilityView>,
    now: u64,
)
    ensures
        count_attested(a + b, now) == count_attested(a, now) + count_attested(b, now),
        count_attested(a, now) <= a.len(),
    decreases b.len(), a.len(),
{
    if a.len() > 0 {
        lemma_count_attested_concat(a.drop_last(), Seq::empty(), now);
    }
    if b.len() == 0 {
        assert(a + b =~= a);
    } else {
        assert((a + b).drop_last() =~= a + b.drop_last());
        assert((a + b).last() == b.last());
        lemma_count_attested_concat(a, b.drop_last(), now);
    }
}

/// The test that keeps the bundles with the named capability at `now`.
pub open spec fn has_capability_test(
    category_name: Seq<char>,
    now: u64,
    available: Set<Seq<char>>,
) -> spec_fn(CapabilitiesView) -> bool {
    |bundle: CapabilitiesView| bundle.has_capability(category_name, now, available)
}

/// The test that keeps the bundles whose required tools are all satisfied at
/// `now`.
pub open spec fn has_all_required_tools_test(now: u64, available: Set<Seq<char>>) -> spec_fn(
    CapabilitiesView,
) -> bool {
    |bundle: CapabilitiesView| bundle.has_all_required_tools(now, available)
}

/// The test that keeps the bundles whose tools can all be trusted at `now`.
pub open spec fn is_verified_test(now: u64) -> spec_fn(CapabilitiesView) -> bool {
    |bundle: CapabilitiesView| bundle.is_verified(now)
}

/// The test that keeps the bundles with a tool of the named category that
/// grants the named permission.
pub open spec fn has_permission_test(category_name: Seq<char>, permission: Seq<char>) -> spec_fn(
    CapabilitiesView,
) -> bool {
    |bundle: CapabilitiesView| bundle.has_required_permissions(category_name, permission)
}

/// The test that keeps the bundles on which `flag` is set.
pub open spec fn has_flag_test(flag: Seq<char>) -> spec_fn(CapabilitiesView) -> bool {
    |bundle: CapabilitiesView| bundle.has_flag(flag)
}

/// The test that keeps the bundles whose metadata holds `value` under `key`.
pub open spec fn has_metadata_test(key: Seq<char>, value: Seq<char>) -> spec_fn(
    CapabilitiesView,
) -> bool {
    |bundle: CapabilitiesView| bundle.metadata_value(key) == Some(value)
}

/// Filtering starts from nothing, and each further element is kept exactly
/// when it passes the test.
pub proof fn lemma_filter_next<A>(s: Seq<A>, test: spec_fn(A) -> bool, i: int)
    requires
        0 <= i < s.len(),
    ensures
        s.take(0).filter(test) == Seq::<A>::empty(),
        s.take(i + 1).filter(test) == if test(s[i]) {
            s.take(i).filter(test).push(s[i])
        } else {
            s.take(i).filter(test)
        },
{
    reveal(Seq::filter);
    assert(s.take(i + 1).drop_last() =~= s.take(i));
    assert(s.take(0).filter(test) =~= Seq::<A>::empty());
}

/// Filtering nothing gives nothing.
pub proof fn lemma_filter_none<A>(test: spec_fn(A) -> bool)
    ensures
        Seq::<A>::empty().filter(test) == Seq::<A>::empty(),
{
    reveal(Seq::filter);
}

/// `base`, followed by those of `names` that did not occur before, in order.
pub open spec fn distinct_onto(base: Seq<Seq<char>>, names: Seq<Seq<char>>) -> Seq<Seq<char>>
    decreases names.len(),
{
    if names.len() == 0 {
        base
    } else {
        let earlier = distinct_onto(base, names.drop_last());
        if earlier.contains(names.last()) {
            earlier
        } else {
            earlier.push(names.last())
        }
    }
}

/// The first occurrence of each of `names`, in order.
pub open spec fn distinct(names: Seq<Seq<char>>) -> Seq<Seq<char>> {
    distinct_onto(Seq::empty(), names)
}

/// Adding the distinct names of two runs is adding those of the first and
/// then those of the second.
pub proof fn lemma_distinct_onto_concat(
    base: Seq<Seq<char>>,
    a: Seq<Seq<char>>,
    b: Seq<Seq<char>>,
)
    ensures
        distinct_onto(base, a + b) == distinct_onto(distinct_onto(base, a), b),
    decreases b.len(),
{
    if b.len() == 0 {
        assert(a + b =~= a);
    } else {
        assert((a + b).drop_last() =~= a + b.drop_last());
        assert((a + b).last() == b.last());
        lemma_distinct_onto_concat(base, a, b.drop_last());
    }
}

/// Adding distinct names keeps a sequence free of duplicates, and the result
/// holds exactly the names of both.
pub proof fn lemma_distinct_onto(base: Seq<Seq<char>>, names: Seq<Seq<char>>)
    requires
        base.no_duplicates(),
    ensures
        distinct_onto(base, names).no_duplicates(),
        forall|name: Seq<char>|
            distinct_onto(base, names).contains(name) <==> (base.contains(name) || names.contains(
                name,
            )),
    decreases names.len(),
{
    let result = distinct_onto(base, names);
    if names.len() == 0 {
    } else {
        let shorter = names.drop_last();
        let earlier = distinct_onto(base, shorter);
        lemma_distinct_onto(base, shorter);
        assert forall|name: Seq<char>|
            names.contains(name) <==> (shorter.contains(name) || name == names.last()) by {
            if names.contains(name) {
                let i = names.index_of(name);
                if i < shorter.len() {
                    assert(shorter[i] == name);
                }
            }
            if shorter.contains(name) {
                let i = shorter.index_of(name);
                assert(names[i] == name);
            }
            if name == names.last() {
                assert(names[names.len() - 1] == name);
            }
        }
        if !earlier.contains(names.last()) {
            assert forall|name: Seq<char>|
                result.contains(name) <==> (earlier.contains(name) || name == names.last()) by {
                if result.contains(name) {
                    let i = result.index_of(name);
                    if i < earlier.len() {
                        assert(earlier[i] == name);
                    }
                }
                if earlier.contains(name) {
                    let i = earlier.index_of(name);
                    assert(result[i] == name);
                }
                if name == names.last() {
                    assert(result[earlier.len() as int] == name);
                }
            }
            assert forall|i: int, j: int|
                0 <= i < result.len() && 0 <= j < result.len() && i != j implies result[i]
                != result[j] by {
                if i < earlier.len() {
                    assert(earlier[i] == result[i]);
                }
                if j < earlier.len() {
                    assert(earlier[j] == result[j]);
                }
            }
        }
    }
}

/// Every tool name and alternative of `bundles`, bundle after bundle.
pub open spec fn all_tool_names(bundles: Seq<CapabilitiesView>) -> Seq<Seq<char>>
    decreases bundles.len(),
{
    if bundles.len() == 0 {
        Seq::empty()
    } else {
        all_tool_names(bundles.drop_last()) + bundles.last().tool_names()
    }
}

/// How many tools `bundles` declare together.
pub open spec fn tool_count(bundles: Seq<CapabilitiesView>) -> nat
    decreases bundles.len(),
{
    if bundles.len() == 0 {
        0
    } else {
        tool_count(bundles.drop_last()) + bundles.last().all_tools().len()
    }
}

/// How many required tools `bundles` declare together.
pub open spec fn required_tool_count(bundles: Seq<CapabilitiesView>) -> nat
    decreases bundles.len(),
{
    if bundles.len() == 0 {
        0
    } else {
        required_tool_count(bundles.drop_last()) + count_required(bundles.last().all_tools())
    }
}

/// How many tools of `bundles` carry an attestation that holds at `now`.
pub open spec fn attested_tool_count(bundles: Seq<CapabilitiesView>, now: u64) -> nat
    decreases bundles.len(),
{
    if bundles.len() == 0 {
        0
    } else {
        attested_tool_count(bundles.drop_last(), now) + count_attested(
            bundles.last().all_tools(),
            now,
        )
    }
}

/// The tools of the first bundles of a sequence are no more than the tools
/// of all of them, and the required and the attested tools are no more than
/// the tools.
pub proof fn lemma_tool_count_bounds(bundles: Seq<CapabilitiesView>, i: int, now: u64)
    requires
        0 <= i <= bundles.len(),
    ensures
        tool_count(bundles.take(i)) <= tool_count(bundles),
        i < bundles.len() ==> tool_count(bundles.take(i)) + bundles[i].all_tools().len()
            <= tool_count(bundles),
        required_tool_count(bundles) <= tool_count(bundles),
        attested_tool_count(bundles, now) <= tool_count(bundles),
    decreases bundles.len(),
{
    if bundles.len() == 0 {
        assert(bundles.take(i) =~= bundles);
    } else {
        let shorter = bundles.drop_last();
        lemma_count_required_concat(bundles.last().all_tools(), Seq::empty());
        lemma_count_attested_concat(bundles.last().all_tools(), Seq::empty(), now);
        if i == bundles.len() {
            assert(bundles.take(i) =~= bundles);
            lemma_tool_count_bounds(shorter, i - 1, now);
        } else {
            assert(shorter.take(i) =~= bundles.take(i));
            lemma_tool_count_bounds(shorter, i, now);
            if i == shorter.len() {
                assert(shorter.take(i) =~= shorter);
            } else {
                assert(shorter[i] == bundles[i]);
            }
        }
    }
}

/// The counts that describe a registry.
pub struct RegistryStatisticsView {
    pub total_workers: nat,
    pub verified_workers: nat,
    pub total_tools: nat,
    pub total_required_tools: nat,
    pub total_verified_tools: nat,
}

/// The counts of a registry that holds `bundles`, at `now`.
pub open spec fn registry_statistics(
    bundles: Seq<CapabilitiesView>,
    now: u64,
) -> RegistryStatisticsView {
    RegistryStatisticsView {
        total_workers: bundles.len(),
        verified_workers: bundles.filter(is_verified_test(now)).len(),
        total_tools: tool_count(bundles),
        total_required_tools: required_tool_count(bundles),
        total_verified_tools: attested_tool_count(bundles, now),
    }
}

} // verus!
