use bugs::tools::ToolRegistry;
use bugs::types::ToolConfig;

#[test]
fn required_tools_cannot_be_denied() {
    let registry = ToolRegistry::new();
    let config = ToolConfig::default();
    assert!(registry.is_allowed("read", &config));
}

#[test]
fn optional_tools_default_denied() {
    let registry = ToolRegistry::new();
    let config = ToolConfig::default();
    assert!(!registry.is_allowed("browser", &config));
}

#[test]
fn denied_required_tool_by_group() {
    let registry = ToolRegistry::new();
    let mut config = ToolConfig::default();
    config.deny.push("group:fs".into());
    assert!(!registry.is_allowed("read", &config));
    assert!(registry.is_allowed("exec", &config));
}

#[test]
fn allowed_optional_tool_by_name() {
    let registry = ToolRegistry::new();
    let mut config = ToolConfig::default();
    config.allow.push("browser".into());
    assert!(registry.is_allowed("browser", &config));
    assert!(!registry.is_allowed("code_exec", &config));
}

#[test]
fn unknown_tool_never_allowed() {
    let registry = ToolRegistry::new();
    let mut config = ToolConfig::default();
    config.allow.push("teleport".into());
    assert!(!registry.is_allowed("teleport", &config));
}

#[test]
fn builtin_tools_and_groups() {
    let registry = ToolRegistry::new();
    assert_eq!(registry.list().len(), 10);
    let fs: Vec<&str> = registry.by_group("group:fs").iter().map(|t| t.name.as_str()).collect();
    assert_eq!(fs, vec!["read", "write", "edit", "ls"]);
    assert_eq!(registry.by_group("group:nothing").len(), 0);
    assert_eq!(registry.list().iter().filter(|t| t.required).count(), 8);
}

#[test]
fn default_tool_config() {
    let c = ToolConfig::default();
    assert_eq!(c.allow, vec!["group:fs", "group:runtime", "group:memory", "group:knowledge"]);
    assert_eq!(c.deny, vec!["group:browser", "group:sandbox"]);
    assert_eq!(c.protection_paths, vec!["~/.bugs/", "~/.ssh/", "/etc/"]);
    assert!(c.granted.is_empty());
}
