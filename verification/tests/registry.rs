use worker_capabilities::{
    Capabilities, CapabilityCategory, CapabilityExpiration, CapabilityPermissions,
    CapabilityRegistry, ToolCapability,
};

fn expiring_at(expires_at: u64) -> CapabilityExpiration {
    CapabilityExpiration {
        expires_at,
        revoked: false,
        revocation_reason: None,
        revoked_at: None,
        revoked_by: None,
    }
}

fn tool(name: &str, required: bool, expires_at: u64) -> ToolCapability {
    ToolCapability::new_secure(name, required, CapabilityPermissions::default(), expiring_at(expires_at))
}

fn attested(name: &str, required: bool, expires_at: u64, issued: u64) -> ToolCapability {
    let tool = tool(name, required, expires_at);
    let attestation = tool.create_attestation_at("key", "attester".to_string(), issued);
    tool.with_attestation(attestation)
}

fn ids(workers: &Vec<&Capabilities>) -> Vec<String> {
    workers.iter().map(|caps| caps.id.clone()).collect()
}

fn three_workers() -> CapabilityRegistry {
    let mut registry = CapabilityRegistry::new();
    registry.register(Capabilities::new("A").with_static_analysis("clippy", false));
    registry.register(Capabilities::new("B").with_security_tool("audit", false));
    registry.register(Capabilities::new("C").with_static_analysis("eslint", false));
    registry
}

#[test]
fn new_registry_is_empty() {
    let registry = CapabilityRegistry::new();
    assert_eq!(registry.worker_count(), 0);
    assert!(registry.list_ids().is_empty());
    assert!(registry.get("a").is_none());
    assert!(!registry.contains_worker("a"));
    assert_eq!(CapabilityRegistry::default().worker_count(), 0);
}

#[test]
fn find_with_capability_returns_exactly_the_matching_workers() {
    let registry = three_workers();
    let checker = |t: &str| t == "clippy" || t == "eslint";
    let workers = registry.find_with_capability("static_analysis", &checker);
    assert_eq!(ids(&workers), vec!["A", "C"]);
    let workers = registry.find_with_capability("security_scanning", &checker);
    assert!(workers.is_empty());
    let workers = registry.find_with_capability("security_scanning", &|_: &str| true);
    assert_eq!(ids(&workers), vec!["B"]);
    assert!(registry.find_with_capability("unknown", &|_: &str| true).is_empty());
    assert!(registry.find_with_capability("fuzzing", &|_: &str| true).is_empty());
}

#[test]
fn find_with_capability_leaves_out_expired_and_revoked_bundles() {
    let mut registry = CapabilityRegistry::new();
    registry.register(
        Capabilities::new("live").with_capability(CapabilityCategory::Fuzzing, tool("afl", false, 100)),
    );
    registry.register(
        Capabilities::new("stale").with_capability(CapabilityCategory::Fuzzing, tool("afl", false, 50)),
    );
    registry.register(
        Capabilities::new("gone").with_capability(CapabilityCategory::Fuzzing, tool("afl", false, 100)),
    );
    assert!(registry.revoke_worker_capabilities("gone", "r".to_string(), "b".to_string()));
    let checker = |t: &str| t == "afl";
    assert_eq!(ids(&registry.find_with_capability_at("fuzzing", &checker, 50)), vec!["live", "stale"]);
    assert_eq!(ids(&registry.find_with_capability_at("fuzzing", &checker, 51)), vec!["live"]);
    assert!(registry.find_with_capability_at("fuzzing", &checker, 101).is_empty());
}

#[test]
fn register_overwrites_as_a_whole() {
    let mut registry = CapabilityRegistry::new();
    registry.register(
        Capabilities::new("w")
            .with_static_analysis("clippy", true)
            .with_flag("old_flag")
            .with_metadata("version", "1"),
    );
    registry.register(Capabilities::new("x").with_tool("t", false));
    registry.register(Capabilities::new("w").with_security_tool("audit", false).with_flag("new_flag"));
    assert_eq!(registry.worker_count(), 2);
    assert_eq!(registry.list_ids(), vec!["w", "x"]);
    let caps = registry.get("w").unwrap();
    assert!(caps.static_analysis_tools.is_empty());
    assert_eq!(caps.security_scanning_tools.len(), 1);
    assert!(!caps.has_flag("old_flag"));
    assert!(caps.has_flag("new_flag"));
    assert_eq!(caps.get_metadata("version"), None);
}

#[test]
fn get_mut_writes_to_the_registered_bundle() {
    let mut registry = three_workers();
    assert!(registry.get_mut("Z").is_none());
    if let Some(caps) = registry.get_mut("B") {
        caps.static_analysis_tools.push(ToolCapability::new("clippy", false));
    }
    let workers = registry.find_with_capability("static_analysis", &|t: &str| t == "clippy");
    assert_eq!(ids(&workers), vec!["A", "B"]);
    assert_eq!(registry.list_ids(), vec!["A", "B", "C"]);
}

#[test]
fn revoking_an_unregistered_worker_changes_nothing() {
    let mut registry = three_workers();
    assert!(!registry.revoke_worker_capabilities("nobody", "r".to_string(), "b".to_string()));
    assert_eq!(registry.worker_count(), 3);
    assert_eq!(registry.list_ids(), vec!["A", "B", "C"]);
    for id in ["A", "B", "C"] {
        let caps = registry.get(id).unwrap();
        let tools = caps.all_tools();
        assert_eq!(tools.len(), 1);
        for category in [
            &caps.static_analysis_tools,
            &caps.security_scanning_tools,
            &caps.dynamic_analysis_tools,
            &caps.fuzzing_tools,
            &caps.test_framework_tools,
        ] {
            for tool in category.iter() {
                assert!(!tool.is_revoked());
                assert!(tool.expiration.revocation_reason.is_none());
                assert!(tool.expiration.revoked_at.is_none());
                assert!(tool.expiration.revoked_by.is_none());
            }
        }
    }
    let checker = |t: &str| t == "clippy" || t == "eslint";
    assert_eq!(ids(&registry.find_with_capability("static_analysis", &checker)), vec!["A", "C"]);

    let mut empty = CapabilityRegistry::new();
    assert!(!empty.revoke_worker_capabilities("nobody", "r".to_string(), "b".to_string()));
    assert_eq!(empty.worker_count(), 0);
}

#[test]
fn revoking_a_worker_revokes_only_its_tools() {
    let mut registry = three_workers();
    assert!(registry.revoke_worker_capabilities("A", "breach".to_string(), "ops".to_string()));
    let a = registry.get("A").unwrap();
    assert!(a.static_analysis_tools[0].is_revoked());
    assert_eq!(a.static_analysis_tools[0].expiration.revoked_by, Some("ops".to_string()));
    assert!(!registry.get("C").unwrap().static_analysis_tools[0].is_revoked());
    assert!(!registry.get("B").unwrap().security_scanning_tools[0].is_revoked());
    let checker = |t: &str| t == "clippy" || t == "eslint";
    assert_eq!(ids(&registry.find_with_capability("static_analysis", &checker)), vec!["C"]);
    // Revoking again is no error.
    assert!(registry.revoke_worker_capabilities("A", "again".to_string(), "ops".to_string()));
    assert!(registry.get("A").unwrap().static_analysis_tools[0].is_revoked());
    assert_eq!(registry.worker_count(), 3);
}

#[test]
fn remove_clear_and_contains() {
    let mut registry = three_workers();
    assert!(registry.contains_worker("B"));
    assert!(!registry.contains_worker("b"));
    let removed = registry.remove_worker("B").unwrap();
    assert_eq!(removed.id, "B");
    assert!(registry.remove_worker("B").is_none());
    assert!(!registry.contains_worker("B"));
    assert_eq!(registry.list_ids(), vec!["A", "C"]);
    registry.clear_all();
    assert_eq!(registry.worker_count(), 0);
    assert!(registry.get("A").is_none());
    assert!(registry.find_with_capability("static_analysis", &|_: &str| true).is_empty());
}

#[test]
fn all_tool_names_are_a_duplicate_free_union() {
    let mut registry = CapabilityRegistry::new();
    assert!(registry.get_all_tool_names().is_empty());
    registry.register(
        Capabilities::new("w1")
            .with_alternative("rustfmt", vec!["cargo-fmt", "rustfmt"])
            .with_static_analysis("clippy", true),
    );
    registry.register(
        Capabilities::new("w2")
            .with_security_tool("clippy", false)
            .with_fuzzing_tool("afl", false)
            .with_alternative("eslint", vec!["cargo-fmt"]),
    );
    registry.register(Capabilities::new("w3"));
    let names = registry.get_all_tool_names();
    assert_eq!(names, vec!["rustfmt", "cargo-fmt", "clippy", "eslint", "afl"]);
    let mut sorted = names.clone();
    sorted.sort();
    sorted.dedup();
    assert_eq!(sorted.len(), names.len());
    for caps in [registry.get("w1").unwrap(), registry.get("w2").unwrap()] {
        for name in caps.all_tools() {
            assert!(names.contains(&name));
        }
    }
}

#[test]
fn find_verified_workers_and_verify_all_workers() {
    let mut registry = CapabilityRegistry::new();
    registry.register(
        Capabilities::new("trusted")
            .with_capability(CapabilityCategory::StaticAnalysis, attested("a", true, 5_000, 1_000)),
    );
    registry.register(
        Capabilities::new("plain").with_capability(CapabilityCategory::StaticAnalysis, tool("b", true, 5_000)),
    );
    registry.register(Capabilities::new("empty"));
    registry.register(
        Capabilities::new("short")
            .with_capability(CapabilityCategory::Fuzzing, attested("c", false, 1_500, 1_000)),
    );
    assert_eq!(ids(&registry.find_verified_workers_at(1_200)), vec!["trusted", "empty", "short"]);
    assert_eq!(ids(&registry.find_verified_workers_at(2_000)), vec!["trusted", "empty"]);
    assert_eq!(ids(&registry.find_verified_workers_at(6_000)), vec!["empty"]);
    assert_eq!(ids(&registry.find_verified_workers()), vec!["empty"]);

    let results = registry.verify_all_workers_at(2_000);
    assert_eq!(results.len(), 4);
    assert_eq!(results.get("trusted"), Some(&true));
    assert_eq!(results.get("plain"), Some(&false));
    assert_eq!(results.get("empty"), Some(&true));
    assert_eq!(results.get("short"), Some(&false));
    assert_eq!(results.get("absent"), None);
    assert_eq!(results.key_at(0), "trusted");
    assert_eq!(results.key_at(3), "short");
    let by_clock = registry.verify_all_workers();
    assert_eq!(by_clock.len(), 4);
    assert_eq!(by_clock.get("empty"), Some(&true));
    assert_eq!(by_clock.get("trusted"), Some(&false));
}

#[test]
fn find_workers_with_permissions_flag_and_metadata() {
    let mut network = CapabilityPermissions::default();
    network.network_access = true;
    let mut registry = CapabilityRegistry::new();
    registry.register(
        Capabilities::new("net")
            .with_capability(
                CapabilityCategory::SecurityScanning,
                tool("scanner", false, 10).with_permissions(network),
            )
            .with_flag("evm_support")
            .with_metadata("platform", "linux"),
    );
    registry.register(
        Capabilities::new("offline")
            .with_security_tool("audit", false)
            .with_flag("ast_support")
            .with_metadata("platform", "macos"),
    );
    registry.register(
        Capabilities::new("both").with_flag("ast_support").with_flag("evm_support").with_metadata("platform", "linux"),
    );
    assert_eq!(ids(&registry.find_workers_with_permissions("security_scanning", "network_access")), vec!["net"]);
    assert!(registry.find_workers_with_permissions("static_analysis", "network_access").is_empty());
    assert!(registry.find_workers_with_permissions("security_scanning", "system_access").is_empty());
    assert!(registry.find_workers_with_permissions("unknown", "network_access").is_empty());
    assert_eq!(ids(&registry.find_workers_with_flag("ast_support")), vec!["offline", "both"]);
    assert_eq!(ids(&registry.find_workers_with_flag("evm_support")), vec!["net", "both"]);
    assert!(registry.find_workers_with_flag("llm_support").is_empty());
    assert_eq!(ids(&registry.find_workers_with_metadata("platform", "linux")), vec!["net", "both"]);
    assert_eq!(ids(&registry.find_workers_with_metadata("platform", "macos")), vec!["offline"]);
    assert!(registry.find_workers_with_metadata("platform", "Linux").is_empty());
    assert!(registry.find_workers_with_metadata("arch", "linux").is_empty());
}

#[test]
fn find_workers_with_all_required_tools() {
    let mut registry = CapabilityRegistry::new();
    registry.register(
        Capabilities::new("strict-worker")
            .with_static_analysis("required-tool", true)
            .with_security_tool("optional-tool", false),
    );
    registry.register(Capabilities::new("easy").with_fuzzing_tool("fuzz", false));
    registry.register(Capabilities::new("other").with_dynamic_tool("runner", true));
    let only_required = |t: &str| t == "required-tool";
    assert_eq!(
        ids(&registry.find_workers_with_all_required_tools(&only_required)),
        vec!["strict-worker", "easy"]
    );
    assert_eq!(ids(&registry.find_workers_with_all_required_tools(&|_: &str| false)), vec!["easy"]);
    assert_eq!(
        ids(&registry.find_workers_with_all_required_tools(&|_: &str| true)),
        vec!["strict-worker", "easy", "other"]
    );
    // A day and a second after creation every default tool is expired.
    let late = worker_capabilities::clock::unix_time_now() + 86_401 + 5;
    assert_eq!(
        ids(&registry.find_workers_with_all_required_tools_at(&|_: &str| true, late)),
        vec!["easy"]
    );
}

#[test]
fn registry_statistics_sum_over_workers() {
    let mut registry = CapabilityRegistry::new();
    registry.register(
        Capabilities::new("w1")
            .with_capability(CapabilityCategory::StaticAnalysis, attested("a", true, 5_000, 1_000))
            .with_capability(CapabilityCategory::Fuzzing, attested("b", false, 5_000, 1_000)),
    );
    registry.register(
        Capabilities::new("w2")
            .with_capability(CapabilityCategory::StaticAnalysis, attested("c", true, 5_000, 1_000))
            .with_capability(CapabilityCategory::TestFramework, tool("d", true, 5_000))
            .with_capability(CapabilityCategory::TestFramework, tool("e", false, 5_000)),
    );
    registry.register(Capabilities::new("w3"));
    let stats = registry.get_statistics_at(2_000);
    assert_eq!(stats.total_workers, 3);
    assert_eq!(stats.verified_workers, 2);
    assert_eq!(stats.total_tools, 5);
    assert_eq!(stats.total_required_tools, 3);
    assert_eq!(stats.total_verified_tools, 3);
    let copy = stats.clone();
    assert_eq!(copy.total_tools, 5);
    let late = registry.get_statistics_at(6_000);
    assert_eq!(late.verified_workers, 1);
    assert_eq!(late.total_verified_tools, 3);
    let by_clock = registry.get_statistics();
    assert_eq!(by_clock.total_workers, 3);
    assert_eq!(by_clock.total_tools, 5);
    assert_eq!(by_clock.total_verified_tools, 0);
    let empty = CapabilityRegistry::new().get_statistics();
    assert_eq!(empty.total_workers, 0);
    assert_eq!(empty.verified_workers, 0);
    assert_eq!(empty.total_tools, 0);
}

#[test]
fn registry_security_report_is_by_worker_then_by_tool() {
    let mut registry = CapabilityRegistry::new();
    registry.register(
        Capabilities::new("w1")
            .with_capability(CapabilityCategory::StaticAnalysis, attested("a", true, 5_000, 1_000)),
    );
    registry.register(
        Capabilities::new("w2").with_capability(CapabilityCategory::Fuzzing, tool("b", false, 1_000)),
    );
    registry.register(Capabilities::new("w3"));
    let report = registry.get_security_report_at(2_000);
    assert_eq!(report.len(), 3);
    assert_eq!(report.key_at(0), "w1");
    assert_eq!(report.key_at(1), "w2");
    assert_eq!(report.key_at(2), "w3");
    let w1 = report.get("w1").unwrap();
    assert_eq!(w1.len(), 1);
    assert!(w1.get("a").unwrap().attestation_verified);
    assert!(!w1.get("a").unwrap().is_expired);
    let w2 = report.get("w2").unwrap();
    assert!(w2.get("b").unwrap().is_expired);
    assert!(!w2.get("b").unwrap().has_attestation);
    assert_eq!(report.get("w3").unwrap().len(), 0);
    assert!(report.get("w4").is_none());
    assert_eq!(registry.get_security_report().len(), 3);
}
