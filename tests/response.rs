use codemoder::{call_response, json_to_content, response_content};
use codemoder::{ExecutionResult, JsonValue, ResponsePart};

fn s(x: &str) -> JsonValue {
    JsonValue::String(x.to_string())
}

fn n(x: &str) -> JsonValue {
    JsonValue::Number(x.to_string())
}

fn obj(members: Vec<(&str, JsonValue)>) -> JsonValue {
    JsonValue::Object(members.into_iter().map(|(k, v)| (k.to_string(), v)).collect())
}

fn logs(lines: &[&str]) -> Vec<String> {
    lines.iter().map(|l| l.to_string()).collect()
}

fn image_value(data: &str) -> JsonValue {
    obj(vec![("type", s("image")), ("data", s(data)), ("mimeType", s("image/png"))])
}

#[test]
fn test_json_to_content_text() {
    let content = json_to_content(&s("hello world"));
    assert_eq!(content.len(), 1);
    assert!(matches!(content[0], ResponsePart::Json(_)));
}

#[test]
fn test_json_to_content_image() {
    let content = json_to_content(&image_value("SGVsbG8="));
    assert_eq!(content.len(), 1);
    match &content[0] {
        ResponsePart::Image { data, mime_type } => {
            assert_eq!(data, "SGVsbG8=");
            assert_eq!(mime_type, "image/png");
        },
        other => panic!("should be image content, got {other:?}"),
    }
}

#[test]
fn test_json_to_content_array_with_images() {
    let value = JsonValue::Array(vec![image_value("abc123"), s("some text")]);
    let content = json_to_content(&value);
    assert_eq!(content.len(), 2);
    assert!(matches!(content[0], ResponsePart::Image { .. }));
    assert!(matches!(content[1], ResponsePart::Json(_)));
}

#[test]
fn test_json_to_content_result_with_logs() {
    let value = obj(vec![
        ("result", image_value("abc123")),
        ("logs", JsonValue::Array(vec![s("log1"), s("log2")])),
    ]);
    let content = json_to_content(&value);
    assert_eq!(content.len(), 2);
    assert!(matches!(content[0], ResponsePart::Image { .. }));
    match &content[1] {
        ResponsePart::Text(text) => {
            assert!(text.contains("log1"));
            assert!(text.contains("log2"));
            assert_eq!(text, "Logs:\nlog1\nlog2");
        },
        other => panic!("should have logs text, got {other:?}"),
    }
}

#[test]
fn empty_arrays_and_plain_objects_stay_json() {
    let empty = JsonValue::Array(vec![]);
    assert_eq!(json_to_content(&empty), vec![ResponsePart::Json(JsonValue::Array(vec![]))]);
    let plain = obj(vec![("sum", n("10"))]);
    assert_eq!(json_to_content(&plain), vec![ResponsePart::Json(obj(vec![("sum", n("10"))]))]);
    let no_logs = obj(vec![("result", n("1")), ("logs", JsonValue::Array(vec![]))]);
    assert_eq!(json_to_content(&no_logs), vec![ResponsePart::Json(n("1"))]);
}

#[test]
fn value_without_logs_is_answered_as_is() {
    let r = ExecutionResult::success(n("3"), vec![]);
    assert_eq!(call_response(&r), n("3"));
    let r = ExecutionResult::success(obj(vec![("result", n("30"))]), vec![]);
    assert_eq!(call_response(&r), obj(vec![("result", n("30"))]));
}

#[test]
fn logged_lines_wrap_the_value() {
    let r = ExecutionResult::success(s("done"), logs(&["debug"]));
    assert_eq!(
        call_response(&r),
        obj(vec![("result", s("done")), ("logs", JsonValue::Array(vec![s("debug")]))])
    );
}

#[test]
fn failures_report_message_and_logs() {
    let r = ExecutionResult::failure(Some("Tool add failed: bad".to_string()), logs(&["x", "y"]));
    assert_eq!(
        call_response(&r),
        obj(vec![
            ("error", s("Tool add failed: bad")),
            ("logs", JsonValue::Array(vec![s("x"), s("y")])),
        ])
    );
    let parts = response_content(&r);
    assert_eq!(parts.len(), 1);
    assert!(matches!(parts[0], ResponsePart::Json(_)));
    assert!(r.is_error);
}

#[test]
fn rich_response_unwraps_result_and_logs() {
    let r = ExecutionResult::success(image_value("abc"), logs(&["one"]));
    let parts = response_content(&r);
    assert_eq!(
        parts,
        vec![
            ResponsePart::Image { data: "abc".to_string(), mime_type: "image/png".to_string() },
            ResponsePart::Text("Logs:\none".to_string()),
        ]
    );
}
