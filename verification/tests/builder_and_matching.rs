use worker_capabilities::{Capabilities, CapabilityRegistry, ToolCapability};

#[test]
fn test_tool_capability_creation() {
    let cap = ToolCapability::new("clippy", true);
    assert_eq!(cap.tool_name, "clippy");
    assert!(cap.required);
    assert!(cap.alternatives.is_empty());
}

#[test]
fn test_tool_capability_with_alternatives() {
    let cap = ToolCapability::new("rustfmt", false)
        .with_alternatives(vec!["cargo-fmt".to_string(), "rustfmt-nightly".to_string()]);

    assert_eq!(cap.alternatives.len(), 2);
}

#[test]
fn test_tool_capability_is_satisfied() {
    let cap =
        ToolCapability::new("clippy", true).with_alternatives(vec!["cargo-clippy".to_string()]);

    // Primary tool available
    assert!(cap.is_satisfied(&|tool| tool == "clippy"));

    // Alternative available
    assert!(cap.is_satisfied(&|tool| tool == "cargo-clippy"));

    // Neither available
    assert!(!cap.is_satisfied(&|_tool| false));
}

#[test]
fn test_capabilities_builder() {
    let caps = Capabilities::new("rust-worker")
        .with_static_analysis("clippy", true)
        .with_security_tool("cargo-audit", false)
        .with_dynamic_tool("cargo-test", true)
        .with_flag("ast_support")
        .with_metadata("version", "1.0.0");

    assert_eq!(caps.id, "rust-worker");
    assert_eq!(caps.static_analysis_tools.len(), 1);
    assert_eq!(caps.security_scanning_tools.len(), 1);
    assert_eq!(caps.dynamic_analysis_tools.len(), 1);
    assert!(caps.has_flag("ast_support"));
    assert_eq!(caps.get_metadata("version"), Some(&"1.0.0".to_string()));
}

#[test]
fn test_has_capability() {
    let caps = Capabilities::new("test")
        .with_static_analysis("clippy", false)
        .with_security_tool("audit", false);

    let tool_checker = |tool: &str| tool == "clippy";

    assert!(caps.has_capability("static_analysis", &tool_checker));
    assert!(!caps.has_capability("security_scanning", &tool_checker));
}

#[test]
fn test_has_all_required_tools() {
    let caps = Capabilities::new("test")
        .with_static_analysis("required-tool", true)
        .with_security_tool("optional-tool", false);

    // Required tool available
    assert!(caps.has_all_required_tools(&|tool| tool == "required-tool"));

    // Required tool missing
    assert!(!caps.has_all_required_tools(&|_| false));

    // Optional tool missing is OK
    assert!(caps.has_all_required_tools(&|tool| tool == "required-tool"));
}

#[test]
fn test_all_tools() {
    let caps = Capabilities::new("test")
        .with_tool("tool1", false)
        .with_alternative("tool2", vec!["alt1", "alt2"]);

    let all = caps.all_tools();
    assert!(all.contains(&"tool1".to_string()));
    assert!(all.contains(&"tool2".to_string()));
    assert!(all.contains(&"alt1".to_string()));
    assert!(all.contains(&"alt2".to_string()));
}

#[test]
fn test_registry_operations() {
    let mut registry = CapabilityRegistry::new();

    let caps1 = Capabilities::new("worker1").with_tool("tool1", false);
    let caps2 = Capabilities::new("worker2").with_tool("tool2", false);

    registry.register(caps1);
    registry.register(caps2);

    assert_eq!(registry.list_ids().len(), 2);
    assert!(registry.get("worker1").is_some());
    assert!(registry.get("worker2").is_some());
    assert!(registry.get("worker3").is_none());
}

#[test]
fn test_find_with_capability() {
    let mut registry = CapabilityRegistry::new();

    let caps1 = Capabilities::new("worker1").with_static_analysis("clippy", false);
    let caps2 = Capabilities::new("worker2").with_security_tool("audit", false);
    let caps3 = Capabilities::new("worker3").with_static_analysis("eslint", false);

    registry.register(caps1);
    registry.register(caps2);
    registry.register(caps3);

    let tool_checker = |tool: &str| tool == "clippy" || tool == "eslint";
    let workers = registry.find_with_capability("static_analysis", &tool_checker);

    assert_eq!(workers.len(), 2); // worker1 and worker3
}
