use worker_capabilities::capabilities::parse_category;
use worker_capabilities::clock::unix_time_now;
use worker_capabilities::{
    Capabilities, CapabilityCategory, CapabilityExpiration, CapabilityPermissions, ToolCapability,
};

fn expiring_at(expires_at: u64) -> CapabilityExpiration {
    CapabilityExpiration {
        expires_at,
        revoked: false,
        revocation_reason: None,
        revoked_at: None,
        revoked_by: None,
    }
}

fn tool(name: &str, required: bool, expires_at: u64) -> ToolCapability {
    ToolCapability::new_secure(name, required, CapabilityPermissions::default(), expiring_at(expires_at))
}

fn attested(name: &str, required: bool, expires_at: u64, issued: u64) -> ToolCapability {
    let tool = tool(name, required, expires_at);
    let attestation = tool.create_attestation_at("key", "attester".to_string(), issued);
    tool.with_attestation(attestation)
}

#[test]
fn category_names_are_the_five_fixed_ones() {
    assert_eq!(parse_category("static_analysis"), Some(CapabilityCategory::StaticAnalysis));
    assert_eq!(parse_category("security_scanning"), Some(CapabilityCategory::SecurityScanning));
    assert_eq!(parse_category("dynamic_analysis"), Some(CapabilityCategory::DynamicAnalysis));
    assert_eq!(parse_category("fuzzing"), Some(CapabilityCategory::Fuzzing));
    assert_eq!(parse_category("test_framework"), Some(CapabilityCategory::TestFramework));
    assert_eq!(parse_category("Static_Analysis"), None);
    assert_eq!(parse_category(""), None);
    assert_eq!(parse_category("linting"), None);
}

#[test]
fn each_builder_adds_to_its_own_category() {
    let caps = Capabilities::new("w")
        .with_static_analysis("a", true)
        .with_security_tool("b", false)
        .with_dynamic_tool("c", true)
        .with_fuzzing_tool("d", false)
        .with_test_framework("e", true)
        .with_tool("f", false)
        .with_alternative("g", vec!["g1", "g2"]);
    assert_eq!(caps.id, "w");
    let names = |tools: &Vec<ToolCapability>| -> Vec<String> {
        tools.iter().map(|t| t.tool_name.clone()).collect()
    };
    assert_eq!(names(&caps.static_analysis_tools), vec!["a", "f", "g"]);
    assert_eq!(names(&caps.security_scanning_tools), vec!["b"]);
    assert_eq!(names(&caps.dynamic_analysis_tools), vec!["c"]);
    assert_eq!(names(&caps.fuzzing_tools), vec!["d"]);
    assert_eq!(names(&caps.test_framework_tools), vec!["e"]);
    assert!(caps.static_analysis_tools[0].required);
    assert!(!caps.static_analysis_tools[1].required);
    assert!(!caps.static_analysis_tools[2].required);
    assert_eq!(caps.static_analysis_tools[2].alternatives, vec!["g1", "g2"]);
    assert!(caps.test_framework_tools[0].required);
    assert_eq!(names(caps.tools_in(CapabilityCategory::Fuzzing)), vec!["d"]);
    assert_eq!(names(caps.tools_in(CapabilityCategory::StaticAnalysis)), vec!["a", "f", "g"]);
}

#[test]
fn with_capability_appends_the_given_tool() {
    let caps = Capabilities::new("w")
        .with_capability(CapabilityCategory::Fuzzing, tool("afl", true, 77))
        .with_capability(CapabilityCategory::Fuzzing, tool("honggfuzz", false, 78));
    assert_eq!(caps.fuzzing_tools.len(), 2);
    assert_eq!(caps.fuzzing_tools[0].tool_name, "afl");
    assert_eq!(caps.fuzzing_tools[0].expiration.expires_at, 77);
    assert_eq!(caps.fuzzing_tools[1].tool_name, "honggfuzz");
    assert!(caps.static_analysis_tools.is_empty());
}

#[test]
fn all_tools_lists_names_then_alternatives_category_by_category() {
    let caps = Capabilities::new("w")
        .with_test_framework("e", true)
        .with_security_tool("b", false)
        .with_alternative("g", vec!["g1", "g2"])
        .with_static_analysis("a", true)
        .with_fuzzing_tool("d", false)
        .with_dynamic_tool("c", true)
        .with_static_analysis("g1", false);
    assert_eq!(caps.all_tools(), vec!["g", "g1", "g2", "a", "g1", "b", "c", "d", "e"]);
    assert!(Capabilities::new("empty").all_tools().is_empty());
}

#[test]
fn flags_and_metadata() {
    let caps = Capabilities::new("w")
        .with_flag("ast_support")
        .with_flag("ast_support")
        .with_metadata("version", "1.0.0")
        .with_metadata("platform", "linux")
        .with_metadata("version", "2.0.0");
    assert!(caps.has_flag("ast_support"));
    assert!(!caps.has_flag("llm_support"));
    assert!(!caps.has_flag(""));
    assert_eq!(caps.get_metadata("version"), Some(&"2.0.0".to_string()));
    assert_eq!(caps.get_metadata("platform"), Some(&"linux".to_string()));
    assert_eq!(caps.get_metadata("arch"), None);
    assert_eq!(caps.flags.len(), 1);
    assert_eq!(caps.metadata.len(), 2);

    let mut caps = caps;
    caps.flags.insert("ast_support".to_string(), false);
    assert!(!caps.has_flag("ast_support"));
}

#[test]
fn has_capability_needs_one_satisfied_tool_of_the_category() {
    let now: u64 = 1_000;
    let caps = Capabilities::new("w")
        .with_capability(CapabilityCategory::StaticAnalysis, tool("clippy", false, 2_000))
        .with_capability(
            CapabilityCategory::StaticAnalysis,
            tool("rustfmt", false, 2_000).with_alternatives(vec!["cargo-fmt".to_string()]),
        )
        .with_capability(CapabilityCategory::SecurityScanning, tool("audit", false, 500));
    assert!(caps.has_capability_at("static_analysis", &|t: &str| t == "clippy", now));
    assert!(caps.has_capability_at("static_analysis", &|t: &str| t == "cargo-fmt", now));
    assert!(!caps.has_capability_at("static_analysis", &|t: &str| t == "audit", now));
    // The only security tool is expired at 1000, but not at 500.
    assert!(!caps.has_capability_at("security_scanning", &|_: &str| true, now));
    assert!(caps.has_capability_at("security_scanning", &|_: &str| true, 500));
    // A category without tools is never satisfied, nor is an unknown one.
    assert!(!caps.has_capability_at("fuzzing", &|_: &str| true, now));
    assert!(!caps.has_capability_at("test_framework", &|_: &str| true, now));
    assert!(!caps.has_capability_at("dynamic_analysis", &|_: &str| true, now));
    assert!(!caps.has_capability_at("no_such_category", &|_: &str| true, now));
    assert!(!caps.has_capability("no_such_category", &|_: &str| true));
    assert!(!Capabilities::new("empty").has_capability("static_analysis", &|_: &str| true));
}

#[test]
fn has_capability_fails_once_all_tools_are_revoked() {
    let mut caps = Capabilities::new("w").with_static_analysis("clippy", false);
    assert!(caps.has_capability("static_analysis", &|_: &str| true));
    caps.revoke_all_capabilities("r".to_string(), "b".to_string());
    assert!(!caps.has_capability("static_analysis", &|_: &str| true));
}

#[test]
fn required_tools_decide_optional_ones_never_block() {
    let caps = Capabilities::new("lint-worker")
        .with_static_analysis("lint", true)
        .with_fuzzing_tool("fuzz", false);
    assert!(caps.has_all_required_tools(&|t: &str| t == "lint"));
    assert!(!caps.has_all_required_tools(&|t: &str| t == "fuzz"));
    assert!(caps.has_all_required_tools(&|_: &str| true));
    // No required tool at all: nothing can block.
    let optional_only = Capabilities::new("o").with_fuzzing_tool("fuzz", false);
    assert!(optional_only.has_all_required_tools(&|_: &str| false));
    assert!(Capabilities::new("empty").has_all_required_tools(&|_: &str| false));
}

#[test]
fn strict_worker_needs_its_required_tool() {
    let caps = Capabilities::new("strict-worker")
        .with_static_analysis("required-tool", true)
        .with_security_tool("optional-tool", false);
    assert!(caps.has_all_required_tools(&|t: &str| t == "required-tool"));
    assert!(!caps.has_all_required_tools(&|_: &str| false));
}

#[test]
fn required_tools_in_every_category_count() {
    let now: u64 = 10;
    let build = |missing: &str| {
        let mut caps = Capabilities::new("w");
        for (category, name) in [
            (CapabilityCategory::StaticAnalysis, "a"),
            (CapabilityCategory::SecurityScanning, "b"),
            (CapabilityCategory::DynamicAnalysis, "c"),
            (CapabilityCategory::Fuzzing, "d"),
            (CapabilityCategory::TestFramework, "e"),
        ] {
            caps = caps.with_capability(category, tool(name, true, 100));
        }
        let missing = missing.to_string();
        caps.has_all_required_tools_at(&move |t: &str| t != missing, now)
    };
    assert!(build("none"));
    assert!(!build("a"));
    assert!(!build("b"));
    assert!(!build("c"));
    assert!(!build("d"));
    assert!(!build("e"));
}

#[test]
fn required_tool_that_is_expired_or_revoked_blocks() {
    let caps = Capabilities::new("w").with_capability(
        CapabilityCategory::DynamicAnalysis,
        tool("runner", true, 100),
    );
    assert!(caps.has_all_required_tools_at(&|_: &str| true, 100));
    assert!(!caps.has_all_required_tools_at(&|_: &str| true, 101));
    let mut caps = caps;
    caps.revoke_all_capabilities("r".to_string(), "b".to_string());
    assert!(!caps.has_all_required_tools_at(&|_: &str| true, 100));
}

#[test]
fn verify_all_capabilities_asks_for_live_attested_tools() {
    let issued: u64 = 1_000;
    let now: u64 = 2_000;
    let caps = Capabilities::new("w")
        .with_capability(CapabilityCategory::StaticAnalysis, attested("a", true, 5_000, issued))
        .with_capability(CapabilityCategory::TestFramework, attested("b", false, 5_000, issued));
    assert!(caps.verify_all_capabilities_at(now));
    assert!(caps.verify_all_capabilities_at(5_000));
    // Expired tools fail it.
    assert!(!caps.verify_all_capabilities_at(5_001));
    // An unattested tool fails it, though a checker would find it present.
    let with_plain = Capabilities::new("w")
        .with_capability(CapabilityCategory::StaticAnalysis, attested("a", true, 5_000, issued))
        .with_capability(CapabilityCategory::Fuzzing, tool("plain", false, 5_000));
    assert!(!with_plain.verify_all_capabilities_at(now));
    assert!(with_plain.has_capability_at("fuzzing", &|_: &str| true, now));
    // A revoked tool fails it.
    let mut revoked = caps;
    revoked.revoke_all_capabilities("r".to_string(), "b".to_string());
    assert!(!revoked.verify_all_capabilities_at(now));
    // Nothing declared: nothing to distrust.
    assert!(Capabilities::new("empty").verify_all_capabilities_at(now));
    assert!(Capabilities::new("empty").verify_all_capabilities());
    // Tools made by the builders carry no attestation.
    assert!(!Capabilities::new("w").with_tool("t", false).verify_all_capabilities());
}

#[test]
fn has_required_permissions_looks_in_one_category() {
    let mut permissions = CapabilityPermissions::default();
    permissions.network_access = true;
    let caps = Capabilities::new("w")
        .with_capability(CapabilityCategory::StaticAnalysis, tool("plain", false, 10))
        .with_capability(
            CapabilityCategory::SecurityScanning,
            tool("scanner", false, 10).with_permissions(permissions),
        );
    assert!(caps.has_required_permissions("security_scanning", "network_access"));
    assert!(!caps.has_required_permissions("security_scanning", "filesystem_access"));
    assert!(!caps.has_required_permissions("static_analysis", "network_access"));
    assert!(!caps.has_required_permissions("fuzzing", "network_access"));
    assert!(!caps.has_required_permissions("unknown", "network_access"));
    assert!(!caps.has_required_permissions("security_scanning", "unknown"));
}

#[test]
fn revoke_all_reaches_every_tool_in_every_category() {
    let before = unix_time_now();
    let mut caps = Capabilities::new("w")
        .with_static_analysis("a", true)
        .with_security_tool("b", false)
        .with_dynamic_tool("c", true)
        .with_fuzzing_tool("d", false)
        .with_test_framework("e", true)
        .with_flag("f")
        .with_metadata("k", "v");
    caps.revoke_all_capabilities("breach".to_string(), "ops".to_string());
    let after = unix_time_now();
    let categories = [
        &caps.static_analysis_tools,
        &caps.security_scanning_tools,
        &caps.dynamic_analysis_tools,
        &caps.fuzzing_tools,
        &caps.test_framework_tools,
    ];
    let mut seen = 0;
    for tools in categories {
        for tool in tools {
            seen += 1;
            assert!(tool.is_revoked());
            assert_eq!(tool.expiration.revocation_reason, Some("breach".to_string()));
            assert_eq!(tool.expiration.revoked_by, Some("ops".to_string()));
            let at = tool.expiration.revoked_at.unwrap();
            assert!(before <= at && at <= after);
        }
    }
    assert_eq!(seen, 5);
    assert_eq!(caps.id, "w");
    assert_eq!(caps.all_tools(), vec!["a", "b", "c", "d", "e"]);
    assert!(caps.has_flag("f"));
    assert_eq!(caps.get_metadata("k"), Some(&"v".to_string()));
}

#[test]
fn security_report_has_four_independent_answers_per_tool() {
    let now: u64 = 2_000;
    let mut gone = tool("gone", false, 5_000);
    gone.revoke_at("r".to_string(), "b".to_string(), 1_500);
    let mut permissions = CapabilityPermissions::default();
    permissions.env_access = true;
    let caps = Capabilities::new("w")
        .with_capability(CapabilityCategory::StaticAnalysis, attested("good", true, 5_000, 1_000))
        .with_capability(CapabilityCategory::StaticAnalysis, tool("stale", false, 1_999))
        .with_capability(CapabilityCategory::Fuzzing, gone)
        .with_capability(
            CapabilityCategory::TestFramework,
            tool("plain", false, 5_000).with_permissions(permissions),
        );
    let report = caps.get_security_report_at(now);
    assert_eq!(report.len(), 4);
    assert_eq!(report.key_at(0), "good");
    assert_eq!(report.key_at(1), "stale");
    assert_eq!(report.key_at(2), "gone");
    assert_eq!(report.key_at(3), "plain");

    let good = report.get("good").unwrap();
    assert_eq!(good.tool_name, "good");
    assert!(good.has_attestation);
    assert!(good.attestation_verified);
    assert!(!good.is_expired);
    assert!(!good.is_revoked);
    assert_eq!(good.expiration.expires_at, 5_000);

    let stale = report.get("stale").unwrap();
    assert!(!stale.has_attestation);
    assert!(!stale.attestation_verified);
    assert!(stale.is_expired);
    assert!(!stale.is_revoked);

    let gone = report.get("gone").unwrap();
    assert!(!gone.is_expired);
    assert!(gone.is_revoked);
    assert_eq!(gone.expiration.revoked_at, Some(1_500));
    assert_eq!(gone.expiration.revocation_reason, Some("r".to_string()));

    let plain = report.get("plain").unwrap();
    assert!(!plain.has_attestation);
    assert!(!plain.is_expired);
    assert!(plain.permissions.env_access);
    assert!(report.get("absent").is_none());

    // Long after the attestation window the attestation is there but no longer verified.
    let late = caps.get_security_report_at(1_000 + 31_536_001);
    assert!(late.get("good").unwrap().has_attestation);
    assert!(!late.get("good").unwrap().attestation_verified);
    assert!(late.get("good").unwrap().is_expired);
}

#[test]
fn security_report_keeps_the_later_of_two_tools_with_one_name() {
    let caps = Capabilities::new("w")
        .with_capability(CapabilityCategory::StaticAnalysis, tool("dup", false, 10))
        .with_capability(CapabilityCategory::TestFramework, tool("dup", false, 99));
    let report = caps.get_security_report_at(50);
    assert_eq!(report.len(), 1);
    assert_eq!(report.key_at(0), "dup");
    let dup = report.get("dup").unwrap();
    assert_eq!(dup.expiration.expires_at, 99);
    assert!(!dup.is_expired);
    assert_eq!(caps.get_security_report().len(), 1);
    assert_eq!(Capabilities::new("empty").get_security_report().len(), 0);
}

#[test]
fn statistics_count_tools_flags_and_metadata() {
    let now: u64 = 2_000;
    let caps = Capabilities::new("w")
        .with_capability(CapabilityCategory::StaticAnalysis, attested("a", true, 5_000, 1_000))
        .with_capability(CapabilityCategory::StaticAnalysis, tool("b", true, 5_000))
        .with_capability(CapabilityCategory::SecurityScanning, attested("c", false, 5_000, 1_000))
        .with_capability(CapabilityCategory::DynamicAnalysis, tool("d", false, 5_000))
        .with_capability(CapabilityCategory::Fuzzing, tool("e", true, 5_000))
        .with_capability(CapabilityCategory::TestFramework, tool("f", false, 5_000))
        .with_flag("x")
        .with_flag("y")
        .with_flag("x")
        .with_metadata("k", "v");
    let stats = caps.get_statistics_at(now);
    assert_eq!(stats.total_tools, 6);
    assert_eq!(stats.required_tools, 3);
    assert_eq!(stats.verified_tools, 2);
    assert_eq!(stats.flags_count, 2);
    assert_eq!(stats.metadata_count, 1);
    // Outside the attestation window nothing counts as verified.
    assert_eq!(caps.get_statistics_at(1_000 + 31_536_001).verified_tools, 0);
    let copy = stats.clone();
    assert_eq!(copy.total_tools, 6);

    let empty = Capabilities::new("empty").get_statistics();
    assert_eq!(empty.total_tools, 0);
    assert_eq!(empty.required_tools, 0);
    assert_eq!(empty.verified_tools, 0);
    assert_eq!(empty.flags_count, 0);
    assert_eq!(empty.metadata_count, 0);
}

#[test]
fn clones_hold_the_same_values() {
    let with_alternative = tool("a", true, 5_000).with_alternatives(vec!["a2".to_string()]);
    let attestation = with_alternative.create_attestation_at("key", "attester".to_string(), 1_000);
    let source = Capabilities::new("w")
        .with_capability(
            CapabilityCategory::StaticAnalysis,
            with_alternative.with_attestation(attestation),
        )
        .with_capability(CapabilityCategory::Fuzzing, tool("b", false, 10))
        .with_flag("f")
        .with_metadata("k", "v");
    let copy = source.clone();
    assert_eq!(copy.id, "w");
    assert_eq!(copy.all_tools(), source.all_tools());
    assert_eq!(copy.all_tools(), vec!["a", "a2", "b"]);
    assert!(copy.has_flag("f"));
    assert_eq!(copy.get_metadata("k"), Some(&"v".to_string()));
    let tool_copy = copy.static_analysis_tools[0].clone();
    assert!(tool_copy.verified);
    assert!(tool_copy.verify_capability_hash());
    assert_eq!(tool_copy.generate_capability_hash(), source.static_analysis_tools[0].generate_capability_hash());
    assert_eq!(tool_copy.expiration.expires_at, 5_000);
    // The copy is a value of its own.
    let mut copy = copy;
    copy.revoke_all_capabilities("r".to_string(), "b".to_string());
    assert!(copy.static_analysis_tools[0].is_revoked());
    assert!(!source.static_analysis_tools[0].is_revoked());
}
