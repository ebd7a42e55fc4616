use codemoder::catalogue::MISSING_CODE_MESSAGE;
use codemoder::{CallRoute, Catalogue, CodeModeConfig, JsonValue, ToolDescriptor};

fn s(x: &str) -> JsonValue {
    JsonValue::String(x.to_string())
}

fn obj(members: Vec<(&str, JsonValue)>) -> Vec<(String, JsonValue)> {
    members.into_iter().map(|(k, v)| (k.to_string(), v)).collect()
}

fn make_test_tool(name: &str) -> ToolDescriptor {
    ToolDescriptor {
        name: name.to_string(),
        description: Some(format!("Test tool: {name}")),
        input_schema: obj(vec![
            ("type", s("object")),
            ("properties", JsonValue::Object(Vec::new())),
        ]),
        output_schema: None,
        extra: Vec::new(),
    }
}

fn number_params() -> Vec<(String, JsonValue)> {
    obj(vec![
        ("type", s("object")),
        (
            "properties",
            JsonValue::Object(obj(vec![
                ("a", JsonValue::Object(obj(vec![("type", s("integer"))]))),
                ("b", JsonValue::Object(obj(vec![("type", s("integer"))]))),
            ])),
        ),
        ("required", JsonValue::Array(vec![s("a"), s("b")])),
    ])
}

fn mock_tools() -> Vec<ToolDescriptor> {
    let tool = |name: &str, desc: &str, schema: Vec<(String, JsonValue)>| ToolDescriptor {
        name: name.to_string(),
        description: Some(desc.to_string()),
        input_schema: schema,
        output_schema: None,
        extra: Vec::new(),
    };
    vec![
        tool("add", "Add two numbers together", number_params()),
        tool("multiply", "Multiply two numbers together", number_params()),
        tool(
            "echo",
            "Echo a message back",
            obj(vec![
                ("type", s("object")),
                (
                    "properties",
                    JsonValue::Object(obj(vec![(
                        "message",
                        JsonValue::Object(obj(vec![("type", s("string"))])),
                    )])),
                ),
                ("required", JsonValue::Array(vec![s("message")])),
            ]),
        ),
        tool("get_items", "Get a list of items", obj(vec![("type", s("object"))])),
    ]
}

fn names(tools: &[ToolDescriptor]) -> Vec<String> {
    tools.iter().map(|t| t.name.clone()).collect()
}

#[test]
fn test_filter_tools_empty_config() {
    let tools = vec![make_test_tool("tool1"), make_test_tool("tool2")];

    let catalogue = Catalogue::new(CodeModeConfig::default());
    let filtered = catalogue.filter_tools(tools);

    assert_eq!(filtered.len(), 2);
}

#[test]
fn test_filter_tools_with_selection() {
    let tools = vec![
        make_test_tool("tool1"),
        make_test_tool("tool2"),
        make_test_tool("tool3"),
    ];

    let config =
        CodeModeConfig::new().only_tools(vec!["tool1".to_string(), "tool3".to_string()]);
    let catalogue = Catalogue::new(config);
    let filtered = catalogue.filter_tools(tools);

    assert_eq!(filtered.len(), 2);
    assert!(filtered.iter().any(|t| t.name == "tool1"));
    assert!(filtered.iter().any(|t| t.name == "tool3"));
}

#[test]
fn filter_keeps_order_and_is_idempotent() {
    let config = CodeModeConfig::new().only_tools(vec![
        "echo".to_string(),
        "add".to_string(),
        "missing".to_string(),
    ]);
    let catalogue = Catalogue::new(config);
    let once = catalogue.filter_tools(mock_tools());
    assert_eq!(names(&once), vec!["add", "echo"]);
    let twice = catalogue.filter_tools(once.iter().map(|t| t.copy()).collect());
    assert_eq!(twice, once);
}

#[test]
fn list_tools_adds_the_execute_tool() {
    let mut catalogue = Catalogue::new(CodeModeConfig::default());
    assert!(catalogue.needs_tools());
    let listed = catalogue.list_tools(mock_tools());
    assert_eq!(listed.len(), 5);
    assert_eq!(
        names(&listed),
        vec!["add", "multiply", "echo", "get_items", "execute_tools"]
    );
    let exec = &listed[4];
    let description = exec.description.as_ref().unwrap();
    assert!(description.contains("declare namespace tools"));
    assert!(description.contains("function add"));
    assert!(description.contains("function multiply"));
    assert!(description.contains("console.log"));
    assert!(description.contains("## Available Tools (synchronous)"));
    assert_eq!(listed[0], mock_tools()[0]);
    assert!(!catalogue.needs_tools());
}

#[test]
fn replace_mode_lists_only_the_execute_tool() {
    let mut catalogue = Catalogue::new(CodeModeConfig::new().replace_tools());
    let listed = catalogue.list_tools(mock_tools());
    assert_eq!(listed.len(), 1);
    assert_eq!(listed[0].name, "execute_tools");
    assert_eq!(
        catalogue.tool_names(),
        vec!["add", "multiply", "echo", "get_items"]
    );
}

#[test]
fn script_sees_the_listed_tools() {
    let mut catalogue = Catalogue::new(CodeModeConfig::default());
    let listed = catalogue.list_tools(mock_tools());
    assert!(!catalogue.needs_tools());
    let shown: Vec<String> = names(&listed[..listed.len() - 1]);
    assert_eq!(catalogue.tool_names(), shown);
}

#[test]
fn execute_tool_before_any_fetch_has_the_base_description() {
    let catalogue = Catalogue::new(CodeModeConfig::new().with_description("Run code"));
    let exec = catalogue.execute_tool();
    assert_eq!(exec.name, "execute_tools");
    assert_eq!(exec.description.as_deref(), Some("Run code"));
    assert_eq!(catalogue.interface(), "");
    let code = exec
        .input_schema
        .iter()
        .find(|(k, _)| k == "required")
        .map(|(_, v)| v);
    assert_eq!(code, Some(&JsonValue::Array(vec![s("code")])));
}

#[test]
fn empty_listing_keeps_the_interface() {
    let mut catalogue = Catalogue::new(CodeModeConfig::default());
    catalogue.store(Vec::new());
    assert!(!catalogue.needs_tools());
    assert!(catalogue.interface().contains("declare namespace tools {"));
}

#[test]
fn calls_are_routed_by_name() {
    let catalogue = Catalogue::new(CodeModeConfig::default());
    let args = obj(vec![("code", s("1 + 2"))]);
    assert_eq!(
        catalogue.route("execute_tools", Some(&args)),
        CallRoute::Execute("1 + 2".to_string())
    );
    let args = obj(vec![("a", JsonValue::Number("5".to_string()))]);
    assert_eq!(catalogue.route("add", Some(&args)), CallRoute::Forward);
    assert_eq!(catalogue.route("execute_tools", Some(&args)), CallRoute::InvalidParams);
    assert_eq!(catalogue.route("execute_tools", None), CallRoute::InvalidParams);
    let args = obj(vec![("code", JsonValue::Number("1".to_string()))]);
    assert_eq!(catalogue.route("execute_tools", Some(&args)), CallRoute::InvalidParams);
    assert_eq!(MISSING_CODE_MESSAGE, "Missing 'code' parameter");
}

#[test]
fn custom_tool_name_routes() {
    let catalogue = Catalogue::new(CodeModeConfig::new().with_tool_name("run_script"));
    let args = obj(vec![("code", s("'x'"))]);
    assert_eq!(
        catalogue.route("run_script", Some(&args)),
        CallRoute::Execute("'x'".to_string())
    );
    assert_eq!(catalogue.route("execute_tools", Some(&args)), CallRoute::Forward);
}

#[test]
fn wrapper_instructions_point_at_the_tool() {
    let catalogue = Catalogue::new(CodeModeConfig::new().with_tool_name("run"));
    assert_eq!(
        catalogue.instructions("Mock"),
        "Mock\n\nThis server has code-mode enabled. Use the run tool to write JavaScript that calls multiple tools."
    );
}

#[test]
fn an_empty_listing_is_not_fetched_again() {
    let config = CodeModeConfig::new().only_tools(vec!["absent".to_string()]);
    let mut catalogue = Catalogue::new(config);
    assert!(catalogue.needs_tools());
    let listed = catalogue.list_tools(mock_tools());
    assert_eq!(names(&listed), vec!["execute_tools"]);
    assert!(!catalogue.needs_tools());
    assert!(catalogue.tool_names().is_empty());
}
