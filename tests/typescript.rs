use codemoder::typescript::{
    part_initials, pascal_case_with, to_function_name,
};
use codemoder::{generate_typescript_interface, json_schema_to_typescript, to_pascal_case};
use codemoder::{JsonValue, ToolDescriptor};

fn s(x: &str) -> JsonValue {
    JsonValue::String(x.to_string())
}

fn obj(members: Vec<(&str, JsonValue)>) -> JsonValue {
    JsonValue::Object(members.into_iter().map(|(k, v)| (k.to_string(), v)).collect())
}

fn arr(items: Vec<JsonValue>) -> JsonValue {
    JsonValue::Array(items)
}

fn members(v: JsonValue) -> Vec<(String, JsonValue)> {
    match v {
        JsonValue::Object(ms) => ms,
        _ => Vec::new(),
    }
}

fn make_tool(name: &str, description: &str, schema: JsonValue) -> ToolDescriptor {
    ToolDescriptor {
        name: name.to_string(),
        description: Some(description.to_string()),
        input_schema: members(schema),
        output_schema: None,
        extra: Vec::new(),
    }
}

#[test]
fn test_simple_tool_generation() {
    let tool = make_tool(
        "get_items",
        "Get all items",
        obj(vec![("type", s("object")), ("properties", obj(vec![]))]),
    );

    let ts = generate_typescript_interface(&[tool], "tools");
    assert!(ts.contains("declare namespace tools"));
    assert!(ts.contains("function get_items(): unknown"));
}

#[test]
fn test_tool_with_params() {
    let tool = make_tool(
        "move_footprint",
        "Move a footprint to a new position",
        obj(vec![
            ("type", s("object")),
            (
                "properties",
                obj(vec![
                    (
                        "id",
                        obj(vec![
                            ("type", s("string")),
                            ("description", s("UUID of the footprint")),
                        ]),
                    ),
                    (
                        "x_mm",
                        obj(vec![
                            ("type", s("number")),
                            ("description", s("X position in mm")),
                        ]),
                    ),
                    (
                        "y_mm",
                        obj(vec![
                            ("type", s("number")),
                            ("description", s("Y position in mm")),
                        ]),
                    ),
                    (
                        "rotation",
                        obj(vec![
                            ("type", s("number")),
                            ("description", s("Optional rotation")),
                        ]),
                    ),
                ]),
            ),
            ("required", arr(vec![s("id"), s("x_mm"), s("y_mm")])),
        ]),
    );

    let ts = generate_typescript_interface(&[tool], "kicad");

    assert!(ts.contains("declare namespace kicad"));
    assert!(ts.contains("interface MoveFootprintParams"));
    assert!(ts.contains("id: string"));
    assert!(ts.contains("x_mm: number"));
    assert!(ts.contains("rotation?: number"));
    assert!(ts.contains("function move_footprint(params: MoveFootprintParams): unknown"));
}

#[test]
fn test_array_type() {
    let tool = make_tool(
        "get_items_by_id",
        "Get items by IDs",
        obj(vec![
            ("type", s("object")),
            (
                "properties",
                obj(vec![(
                    "item_ids",
                    obj(vec![
                        ("type", s("array")),
                        ("items", obj(vec![("type", s("string"))])),
                        ("description", s("List of item UUIDs")),
                    ]),
                )]),
            ),
            ("required", arr(vec![s("item_ids")])),
        ]),
    );

    let ts = generate_typescript_interface(&[tool], "tools");
    assert!(ts.contains("item_ids: string[]"));
}

#[test]
fn test_to_pascal_case() {
    assert_eq!(to_pascal_case("get_items"), "GetItems");
    assert_eq!(to_pascal_case("move-footprint"), "MoveFootprint");
    assert_eq!(to_pascal_case("simple"), "Simple");
}

#[test]
fn test_json_schema_to_typescript() {
    assert_eq!(json_schema_to_typescript(&obj(vec![("type", s("string"))])), "string");
    assert_eq!(json_schema_to_typescript(&obj(vec![("type", s("number"))])), "number");
    assert_eq!(json_schema_to_typescript(&obj(vec![("type", s("integer"))])), "number");
    assert_eq!(json_schema_to_typescript(&obj(vec![("type", s("boolean"))])), "boolean");
    assert_eq!(
        json_schema_to_typescript(&obj(vec![
            ("type", s("array")),
            ("items", obj(vec![("type", s("string"))])),
        ])),
        "string[]"
    );
}

#[test]
fn test_nullable_type() {
    let ts = json_schema_to_typescript(&obj(vec![(
        "anyOf",
        arr(vec![obj(vec![("type", s("string"))]), obj(vec![("type", s("null"))])]),
    )]));
    assert!(ts.contains("string"));
    assert!(ts.contains("null"));
    assert_eq!(ts, "string | null");
}

#[test]
fn pascal_case_of_edge_names() {
    assert_eq!(to_pascal_case(""), "");
    assert_eq!(to_pascal_case("a__b"), "AB");
    assert_eq!(to_pascal_case("_lead-and_trail_"), "LeadAndTrail");
    assert_eq!(to_pascal_case("éclair_ß"), "ÉclairSS");
}

#[test]
fn pascal_case_with_given_heads() {
    assert_eq!(part_initials("get_items-now"), vec!['g', 'i', 'n']);
    let heads = vec!["G".to_string(), "I".to_string()];
    assert_eq!(pascal_case_with("get_items", &heads), "GetItems");
    let heads = vec!["<".to_string(), ">".to_string()];
    assert_eq!(pascal_case_with("a-b", &heads), "<>");
}

#[test]
fn function_names_replace_dashes() {
    assert_eq!(to_function_name("move-footprint"), "move_footprint");
    assert_eq!(to_function_name("get_items"), "get_items");
}

#[test]
fn schema_types_of_every_kind() {
    assert_eq!(json_schema_to_typescript(&obj(vec![("type", s("null"))])), "null");
    assert_eq!(json_schema_to_typescript(&obj(vec![("type", s("array"))])), "unknown[]");
    assert_eq!(
        json_schema_to_typescript(&obj(vec![("type", s("object"))])),
        "Record<string, unknown>"
    );
    assert_eq!(json_schema_to_typescript(&obj(vec![("type", s("date"))])), "unknown");
    assert_eq!(json_schema_to_typescript(&obj(vec![])), "unknown");
    assert_eq!(json_schema_to_typescript(&s("string")), "unknown");
    assert_eq!(
        json_schema_to_typescript(&obj(vec![
            ("type", s("object")),
            (
                "properties",
                obj(vec![
                    ("a", obj(vec![("type", s("integer"))])),
                    ("b", obj(vec![("type", s("string"))])),
                ]),
            ),
            ("required", arr(vec![s("a")])),
        ])),
        "{ a: number; b?: string }"
    );
    assert_eq!(
        json_schema_to_typescript(&obj(vec![(
            "oneOf",
            arr(vec![obj(vec![("type", s("boolean"))]), obj(vec![("type", s("number"))])]),
        )])),
        "boolean | number"
    );
}

#[test]
fn references_resolve_against_definitions() {
    let schema = obj(vec![
        ("$ref", s("#/$defs/Point")),
        (
            "$defs",
            obj(vec![(
                "Point",
                obj(vec![
                    ("type", s("object")),
                    (
                        "properties",
                        obj(vec![("x", obj(vec![("type", s("number"))]))]),
                    ),
                    ("required", arr(vec![s("x")])),
                ]),
            )]),
        ),
    ]);
    assert_eq!(json_schema_to_typescript(&schema), "{ x: number }");

    let legacy = obj(vec![
        ("$ref", s("#/definitions/Name")),
        ("definitions", obj(vec![("Name", obj(vec![("type", s("string"))]))])),
    ]);
    assert_eq!(json_schema_to_typescript(&legacy), "string");

    let missing = obj(vec![("$ref", s("#/$defs/Nothing")), ("$defs", obj(vec![]))]);
    assert_eq!(json_schema_to_typescript(&missing), "unknown");

    let external = obj(vec![("$ref", s("https://example.com/schema"))]);
    assert_eq!(json_schema_to_typescript(&external), "unknown");
}

#[test]
fn cyclic_references_end_in_unknown() {
    let schema = obj(vec![
        ("$ref", s("#/$defs/Node")),
        (
            "$defs",
            obj(vec![(
                "Node",
                obj(vec![
                    ("type", s("object")),
                    (
                        "properties",
                        obj(vec![("next", obj(vec![("$ref", s("#/$defs/Node"))]))]),
                    ),
                ]),
            )]),
        ),
    ]);
    assert_eq!(json_schema_to_typescript(&schema), "{ next?: unknown }");
}

#[test]
fn full_interface_text() {
    let tool = ToolDescriptor {
        name: "add-numbers".to_string(),
        description: Some("Add".to_string()),
        input_schema: members(obj(vec![
            ("type", s("object")),
            (
                "properties",
                obj(vec![(
                    "a",
                    obj(vec![("type", s("integer")), ("description", s("First"))]),
                )]),
            ),
            ("required", arr(vec![s("a")])),
        ])),
        output_schema: Some(members(obj(vec![("type", s("string"))]))),
        extra: Vec::new(),
    };
    let plain = ToolDescriptor {
        name: "ping".to_string(),
        description: None,
        input_schema: members(obj(vec![("type", s("object"))])),
        output_schema: None,
        extra: Vec::new(),
    };
    let ts = generate_typescript_interface(&[tool, plain], "tools");
    assert_eq!(
        ts,
        "// Auto-generated TypeScript interface for MCP tools\n\
         // Do not edit manually\n\n\
         declare namespace tools {\n\
         \x20 /** Add */\n\
         \x20 interface AddNumbersParams {\n\
         \x20   /** First */\n\
         \x20   a: number;\n\
         \x20 }\n\n\
         \x20 function add_numbers(params: AddNumbersParams): string;\n\n\
         \x20 function ping(): unknown;\n\n\
         }\n"
    );
}
