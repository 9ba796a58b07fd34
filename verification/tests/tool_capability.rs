use worker_capabilities::clock::unix_time_now;
use worker_capabilities::{
    CapabilityExpiration, CapabilityPermissions, ToolCapability,
};

fn expiring_at(expires_at: u64) -> CapabilityExpiration {
    CapabilityExpiration {
        expires_at,
        revoked: false,
        revocation_reason: None,
        revoked_at: None,
        revoked_by: None,
    }
}

fn tool_expiring_at(name: &str, expires_at: u64) -> ToolCapability {
    ToolCapability::new_secure(name, true, CapabilityPermissions::default(), expiring_at(expires_at))
}

#[test]
fn default_permissions_are_closed_with_default_limits() {
    let permissions = CapabilityPermissions::default();
    assert!(!permissions.filesystem_access);
    assert!(!permissions.network_access);
    assert!(!permissions.process_spawn);
    assert!(!permissions.env_access);
    assert!(!permissions.system_access);
    assert_eq!(permissions.memory_limit_mb, 128);
    assert_eq!(permissions.cpu_limit_percent, 50);
    assert_eq!(permissions.timeout_seconds, 30);
}

#[test]
fn expiration_starts_a_day_ahead() {
    let expiration = CapabilityExpiration::starting_at(1_000);
    assert_eq!(expiration.expires_at, 87_400);
    assert!(!expiration.revoked);
    assert!(expiration.revocation_reason.is_none());
    assert!(expiration.revoked_at.is_none());
    assert!(expiration.revoked_by.is_none());
    assert_eq!(CapabilityExpiration::starting_at(0).expires_at, 86_400);
}

#[test]
fn expiration_saturates_at_the_largest_time() {
    assert_eq!(CapabilityExpiration::starting_at(u64::MAX).expires_at, u64::MAX);
    assert_eq!(CapabilityExpiration::starting_at(u64::MAX - 86_400).expires_at, u64::MAX);
    assert_eq!(CapabilityExpiration::starting_at(u64::MAX - 86_401).expires_at, u64::MAX - 1);
}

#[test]
fn default_expiration_follows_the_clock() {
    let before = unix_time_now();
    let expiration = CapabilityExpiration::default();
    let after = unix_time_now();
    assert!(expiration.expires_at >= before + 86_400);
    assert!(expiration.expires_at <= after + 86_400);
    assert!(!expiration.revoked);
}

#[test]
fn new_tool_has_defaults() {
    let before = unix_time_now();
    let tool = ToolCapability::new("clippy", false);
    assert_eq!(tool.tool_name, "clippy");
    assert!(!tool.required);
    assert!(tool.alternatives.is_empty());
    assert!(tool.attestation.is_none());
    assert!(!tool.verified);
    assert_eq!(tool.permissions.memory_limit_mb, 128);
    assert!(tool.expiration.expires_at >= before + 86_400);
    assert!(!tool.is_revoked());
    assert!(!tool.is_expired());
}

#[test]
fn new_secure_keeps_what_it_is_given() {
    let permissions = CapabilityPermissions {
        filesystem_access: true,
        network_access: false,
        process_spawn: true,
        env_access: false,
        system_access: false,
        memory_limit_mb: 512,
        cpu_limit_percent: 75,
        timeout_seconds: 60,
    };
    let tool = ToolCapability::new_secure("scanner", true, permissions, expiring_at(42));
    assert_eq!(tool.tool_name, "scanner");
    assert!(tool.required);
    assert!(tool.alternatives.is_empty());
    assert!(tool.attestation.is_none());
    assert!(!tool.verified);
    assert!(tool.permissions.filesystem_access);
    assert!(tool.permissions.process_spawn);
    assert_eq!(tool.permissions.memory_limit_mb, 512);
    assert_eq!(tool.permissions.cpu_limit_percent, 75);
    assert_eq!(tool.permissions.timeout_seconds, 60);
    assert_eq!(tool.expiration.expires_at, 42);
}

#[test]
fn builders_set_one_field_each() {
    let tool = tool_expiring_at("a", 10)
        .with_alternatives(vec!["b".to_string(), "c".to_string()])
        .with_expiration(expiring_at(20));
    assert_eq!(tool.alternatives, vec!["b".to_string(), "c".to_string()]);
    assert_eq!(tool.expiration.expires_at, 20);
    assert_eq!(tool.tool_name, "a");
    let mut permissions = CapabilityPermissions::default();
    permissions.network_access = true;
    let tool = tool.with_permissions(permissions);
    assert!(tool.permissions.network_access);
    assert_eq!(tool.alternatives.len(), 2);
}

#[test]
fn expiry_is_strictly_after_the_time_of_expiry() {
    let now: u64 = 1_700_000_000;
    assert!(tool_expiring_at("t", now - 1).is_expired_at(now));
    assert!(!tool_expiring_at("t", now).is_expired_at(now));
    assert!(!tool_expiring_at("t", now + 1).is_expired_at(now));
    assert!(!tool_expiring_at("t", 0).is_expired_at(0));
    assert!(tool_expiring_at("t", 0).is_expired_at(1));
    assert!(!tool_expiring_at("t", u64::MAX).is_expired_at(u64::MAX));
}

#[test]
fn expiry_by_the_system_clock() {
    let now = unix_time_now();
    assert!(tool_expiring_at("t", now - 1).is_expired());
    assert!(!tool_expiring_at("t", now + 3_600).is_expired());
}

#[test]
fn satisfied_by_name_or_alternative_when_live() {
    let now: u64 = 1_000;
    let tool = tool_expiring_at("clippy", 2_000).with_alternatives(vec![
        "cargo-clippy".to_string(),
        "clippy-driver".to_string(),
    ]);
    assert!(tool.is_satisfied_at(&|t: &str| t == "clippy", now));
    assert!(tool.is_satisfied_at(&|t: &str| t == "cargo-clippy", now));
    assert!(tool.is_satisfied_at(&|t: &str| t == "clippy-driver", now));
    assert!(!tool.is_satisfied_at(&|t: &str| t == "eslint", now));
    assert!(!tool.is_satisfied_at(&|_: &str| false, now));
    // At the time of expiry the capability is still live, a second later not.
    assert!(tool.is_satisfied_at(&|_: &str| true, 2_000));
    assert!(!tool.is_satisfied_at(&|_: &str| true, 2_001));
}

#[test]
fn revoked_or_expired_is_never_satisfied() {
    let now = unix_time_now();
    let expired = tool_expiring_at("clippy", now - 1);
    assert!(!expired.is_satisfied(&|_: &str| true));
    let mut revoked = tool_expiring_at("clippy", now + 3_600);
    assert!(revoked.is_satisfied(&|_: &str| true));
    revoked.revoke("compromised".to_string(), "admin".to_string());
    assert!(!revoked.is_satisfied(&|_: &str| true));
    assert!(!revoked.is_satisfied_at(&|_: &str| true, now));
}

#[test]
fn revoke_fills_the_revocation_record() {
    let mut tool = tool_expiring_at("clippy", 5_000);
    assert!(!tool.is_revoked());
    tool.revoke_at("key leaked".to_string(), "security-team".to_string(), 1_234);
    assert!(tool.is_revoked());
    assert!(tool.expiration.revoked);
    assert_eq!(tool.expiration.revocation_reason, Some("key leaked".to_string()));
    assert_eq!(tool.expiration.revoked_at, Some(1_234));
    assert_eq!(tool.expiration.revoked_by, Some("security-team".to_string()));
    assert_eq!(tool.expiration.expires_at, 5_000);
    assert_eq!(tool.tool_name, "clippy");
}

#[test]
fn revoke_again_overwrites_and_stays_revoked() {
    let mut tool = tool_expiring_at("clippy", 5_000);
    tool.revoke_at("first".to_string(), "alice".to_string(), 10);
    tool.revoke_at("second".to_string(), "bob".to_string(), 20);
    assert!(tool.is_revoked());
    assert_eq!(tool.expiration.revocation_reason, Some("second".to_string()));
    assert_eq!(tool.expiration.revoked_at, Some(20));
    assert_eq!(tool.expiration.revoked_by, Some("bob".to_string()));
}

#[test]
fn revoke_by_the_system_clock() {
    let before = unix_time_now();
    let mut tool = tool_expiring_at("clippy", before + 3_600);
    tool.revoke("r".to_string(), "b".to_string());
    let after = unix_time_now();
    assert!(tool.is_revoked());
    let at = tool.expiration.revoked_at.unwrap();
    assert!(before <= at && at <= after);
}

#[test]
fn revocation_survives_other_operations() {
    let mut tool = tool_expiring_at("clippy", 5_000);
    tool.revoke_at("r".to_string(), "b".to_string(), 10);
    let attestation = tool.create_attestation_at("key", "attester".to_string(), 11);
    let tool = tool
        .with_alternatives(vec!["x".to_string()])
        .with_permissions(CapabilityPermissions::default())
        .with_expiration(expiring_at(9_000))
        .with_attestation(attestation);
    assert!(tool.is_revoked());
    assert!(!tool.is_satisfied_at(&|_: &str| true, 12));
    assert!(!tool.is_expired_at(12));
    assert!(tool.has_permission("nothing") == false);
    let _ = tool.generate_capability_hash();
    let _ = tool.create_attestation_at("key", "attester".to_string(), 13);
    let _ = tool.verify_attestation_at(13);
    assert!(tool.is_expired_at(9_001));
    assert!(tool.is_revoked());
    assert_eq!(tool.expiration.revocation_reason, Some("r".to_string()));
    assert_eq!(tool.expiration.revoked_at, Some(10));
    assert_eq!(tool.expiration.revoked_by, Some("b".to_string()));
}

#[test]
fn has_permission_maps_names_and_fails_closed() {
    let permissions = CapabilityPermissions {
        filesystem_access: true,
        network_access: false,
        process_spawn: true,
        env_access: false,
        system_access: true,
        memory_limit_mb: 1,
        cpu_limit_percent: 1,
        timeout_seconds: 1,
    };
    let tool = ToolCapability::new_secure("t", false, permissions, expiring_at(1));
    assert!(tool.has_permission("filesystem_access"));
    assert!(!tool.has_permission("network_access"));
    assert!(tool.has_permission("process_spawn"));
    assert!(!tool.has_permission("env_access"));
    assert!(tool.has_permission("system_access"));
    assert!(!tool.has_permission("root"));
    assert!(!tool.has_permission(""));
    assert!(!tool.has_permission("Filesystem_access"));

    let all = CapabilityPermissions {
        filesystem_access: true,
        network_access: true,
        process_spawn: true,
        env_access: true,
        system_access: true,
        memory_limit_mb: 1,
        cpu_limit_percent: 1,
        timeout_seconds: 1,
    };
    let tool = ToolCapability::new_secure("t", false, all, expiring_at(1));
    assert!(tool.has_permission("network_access"));
    assert!(tool.has_permission("env_access"));
    assert!(!tool.has_permission("memory_limit_mb"));
}

#[test]
fn with_expiration_never_clears_a_revocation() {
    let mut tool = tool_expiring_at("clippy", 5_000);
    tool.revoke_at("key leaked".to_string(), "ops".to_string(), 10);
    let tool = tool.with_expiration(expiring_at(6_000));
    assert!(tool.is_revoked());
    assert!(tool.expiration.revoked);
    assert_eq!(tool.expiration.expires_at, 6_000);
    assert_eq!(tool.expiration.revocation_reason, Some("key leaked".to_string()));
    assert_eq!(tool.expiration.revoked_at, Some(10));
    assert_eq!(tool.expiration.revoked_by, Some("ops".to_string()));
    assert!(!tool.is_satisfied_at(&|_: &str| true, 11));
    // Another revoked record changes the time of expiry only.
    let other = CapabilityExpiration {
        expires_at: 7_000,
        revoked: true,
        revocation_reason: Some("other".to_string()),
        revoked_at: Some(99),
        revoked_by: Some("someone".to_string()),
    };
    let tool = tool.with_expiration(other);
    assert!(tool.is_revoked());
    assert_eq!(tool.expiration.expires_at, 7_000);
    assert_eq!(tool.expiration.revocation_reason, Some("key leaked".to_string()));
    assert_eq!(tool.expiration.revoked_at, Some(10));
    assert_eq!(tool.expiration.revoked_by, Some("ops".to_string()));
}

#[test]
fn with_expiration_on_a_live_tool_takes_the_record_as_given() {
    let tool = tool_expiring_at("clippy", 5_000).with_expiration(expiring_at(6_000));
    assert!(!tool.is_revoked());
    assert_eq!(tool.expiration.expires_at, 6_000);
    assert!(tool.expiration.revocation_reason.is_none());
    assert!(tool.expiration.revoked_at.is_none());
    assert!(tool.expiration.revoked_by.is_none());
    let revoked_record = CapabilityExpiration {
        expires_at: 7_000,
        revoked: true,
        revocation_reason: Some("r".to_string()),
        revoked_at: Some(3),
        revoked_by: Some("b".to_string()),
    };
    let tool = tool.with_expiration(revoked_record);
    assert!(tool.is_revoked());
    assert_eq!(tool.expiration.expires_at, 7_000);
    assert_eq!(tool.expiration.revocation_reason, Some("r".to_string()));
    assert_eq!(tool.expiration.revoked_at, Some(3));
    assert_eq!(tool.expiration.revoked_by, Some("b".to_string()));
}
