use codemoder::config::{DEFAULT_TOOL_DESCRIPTION, DEFAULT_TOOL_NAME};
use codemoder::{CodeModeConfig, CodeModeExposure};

#[test]
fn test_default_config() {
    let config = CodeModeConfig::default();
    assert_eq!(config.tool_name, "execute_tools");
    assert!(matches!(config.mode, CodeModeExposure::Add));
    assert!(config.include_tools.is_none());
}

#[test]
fn test_builder_pattern() {
    let config = CodeModeConfig::new()
        .replace_tools()
        .with_tool_name("run_script")
        .only_tools(vec!["tool1".to_string(), "tool2".to_string()]);

    assert_eq!(config.tool_name, "run_script");
    assert!(matches!(config.mode, CodeModeExposure::ReplaceTools));
    assert_eq!(
        config.include_tools,
        Some(vec!["tool1".to_string(), "tool2".to_string()])
    );
}

#[test]
fn new_config_uses_the_defaults() {
    let config = CodeModeConfig::new();
    assert_eq!(config.tool_name, DEFAULT_TOOL_NAME);
    assert_eq!(config.tool_description, DEFAULT_TOOL_DESCRIPTION);
    assert!(config.tool_description.contains("console.log()"));
    assert_eq!(CodeModeExposure::default(), CodeModeExposure::Add);
}

#[test]
fn add_and_description_builders() {
    let config = CodeModeConfig::new()
        .replace_tools()
        .add()
        .with_description("Run code");
    assert_eq!(config.mode, CodeModeExposure::Add);
    assert_eq!(config.tool_description, "Run code");
    assert_eq!(config.tool_name, "execute_tools");
}
