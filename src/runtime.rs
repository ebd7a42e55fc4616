//! The parts of the script bridge that compute: the prologue that builds the
//! `tools` facade, the text handed back to a script for each tool call, and
//! the result of a run.

use vstd::prelude::*;

use crate::json::{
    items_view, lemma_items_view, lemma_members_view, members_view, Json, JsonValue,
};
use crate::text::{owned, texts};

verus! {

/// What `serde_json::to_string` writes for a list of strings: a JSON array
/// of JSON strings.
pub uninterp spec fn json_of_texts(v: Seq<Seq<char>>) -> Seq<char>;

/// Relies on `serde_json::to_string` for a `Vec<String>`: the JSON text of
/// the list. It writes into an in-memory `Vec<u8>`, and neither `Vec` nor
/// `String` has a `Serialize` impl that fails, so it always succeeds.
#[verifier::external_body]
fn texts_to_json(v: &Vec<String>) -> (r: Option<String>)
    ensures
        r is Some,
        r matches Some(s) ==> s@ == json_of_texts(texts(v@)),
{
    serde_json::to_string(v).ok()
}

/// The script that replaces `console.log` by one that writes each argument
/// as JSON where it is an object and as a string otherwise, joined by single
/// spaces, to the log capture installed as `console.log` before it runs.
pub const CONSOLE_PRELUDE: &'static str = "var __capture_log = console.log;
console.log = function() {
    var parts = [];
    for (var i = 0; i < arguments.length; i++) {
        var arg = arguments[i];
        if (typeof arg === 'object') {
            parts.push(JSON.stringify(arg));
        } else {
            parts.push(String(arg));
        }
    }
    __capture_log(parts.join(' '));
};
";

/// The start of the script that builds the `tools` facade, up to the JSON
/// list of tool names.
pub const PROLOGUE_HEAD: &'static str = "var tools = {};
var __tool_names = ";

/// The rest of the script that builds the `tools` facade: each
/// `tools[name](args)` writes `args` (or `{}`) as JSON, calls
/// `__raw_tools[name]`, parses the reply where it is JSON, and throws where
/// the reply is an object with an `error` member.
pub const PROLOGUE_TAIL: &'static str = ";
for (var i = 0; i < __tool_names.length; i++) {
    (function(toolName) {
        tools[toolName] = function(args) {
            var jsonArgs = JSON.stringify(args || {});
            var resultStr = __raw_tools[toolName](jsonArgs);
            var result;
            try {
                result = JSON.parse(resultStr);
            } catch (e) {
                result = resultStr;
            }
            if (result && typeof result === 'object' && result.error) {
                throw new Error('Tool ' + toolName + ' failed: ' + result.error);
            }
            return result;
        };
    })(__tool_names[i]);
}
";

/// The prologue script for a JSON list of tool names.
pub open spec fn prologue_text(names_json: Seq<char>) -> Seq<char> {
    PROLOGUE_HEAD@ + names_json + PROLOGUE_TAIL@
}

/// The prologue script that builds the `tools` facade over the tool names
/// written as the JSON list `names_json`.
pub fn prologue_with(names_json: &str) -> (r: String)
    ensures
        r@ == prologue_text(names_json@),
{
    let mut out = owned(PROLOGUE_HEAD);
    out.append(names_json);
    out.append(PROLOGUE_TAIL);
    out
}

/// The prologue script that builds the `tools` facade over `names`, written
/// as a JSON list.
pub fn tools_prologue(names: &Vec<String>) -> (r: String)
    ensures
        r@ == prologue_text(json_of_texts(texts(names@))),
{
    match texts_to_json(names) {
        Some(j) => prologue_with(j.as_str()),
        None => prologue_with("[]"),
    }
}

/// One content item of a downstream tool's result.
#[derive(Debug, PartialEq)]
pub enum ToolContent {
    Text(String),
    Image { data: String, mime_type: String },
    /// Any other kind of content (a resource, audio, a link).
    Other,
}

/// The JSON that stands for one content item in a multi-item reply.
pub open spec fn content_json(c: ToolContent) -> Json {
    match c {
        ToolContent::Text(t) => Json::Str(t@),
        ToolContent::Image { data, mime_type } => Json::Object(
            seq![
                ("type"@, Json::Str("image"@)),
                ("data"@, Json::Str(data@)),
                ("mimeType"@, Json::Str(mime_type@)),
            ],
        ),
        ToolContent::Other => Json::Null,
    }
}

/// What a script receives for one tool call: a text as it stands, or a JSON
/// value that is handed over as its compact JSON text.
#[derive(Debug, PartialEq)]
pub enum ScriptReply {
    Text(String),
    Json(JsonValue),
}

/// The model of a reply.
pub enum ReplyModel {
    Text(Seq<char>),
    Json(Json),
}

impl View for ScriptReply {
    type V = ReplyModel;

    open spec fn view(&self) -> ReplyModel {
        match self {
            ScriptReply::Text(t) => ReplyModel::Text(t@),
            ScriptReply::Json(v) => ReplyModel::Json(v@),
        }
    }
}

/// The reply for a tool result: a single text item is handed over verbatim;
/// anything else as the JSON array of its items.
pub open spec fn reply_for(items: Seq<ToolContent>) -> ReplyModel {
    if items.len() == 1 && items[0] is Text {
        ReplyModel::Text(items[0]->Text_0@)
    } else {
        ReplyModel::Json(Json::Array(items.map_values(|c: ToolContent| content_json(c))))
    }
}

/// The JSON that stands for one content item.
fn content_value(c: &ToolContent) -> (r: JsonValue)
    ensures
        r@ == content_json(*c),
{
    match c {
        ToolContent::Text(t) => JsonValue::String(t.clone()),
        ToolContent::Image { data, mime_type } => {
            let mut ms: Vec<(String, JsonValue)> = Vec::new();
            ms.push((owned("type"), JsonValue::String(owned("image"))));
            ms.push((owned("data"), JsonValue::String(data.clone())));
            ms.push((owned("mimeType"), JsonValue::String(mime_type.clone())));
            let r = JsonValue::Object(ms);
            proof {
                lemma_members_view(ms@);
                assert(members_view(ms@) =~= seq![
                    ("type"@, Json::Str("image"@)),
                    ("data"@, Json::Str(data@)),
                    ("mimeType"@, Json::Str(mime_type@)),
                ]);
            }
            r
        },
        ToolContent::Other => JsonValue::Null,
    }
}

/// What a script receives for a tool's result: the text of a single text
/// item as it stands; otherwise the JSON array in which a text item is a
/// string, an image is `{type: "image", data, mimeType}` and any other item
/// is null.
pub fn format_call_result(items: &Vec<ToolContent>) -> (r: ScriptReply)
    ensures
        r@ == reply_for(items@),
{
    if items.len() == 1 {
        match &items[0] {
            ToolContent::Text(t) => {
                return ScriptReply::Text(t.clone());
            },
            _ => {},
        }
    }
    let ghost want = items@.map_values(|c: ToolContent| content_json(c));
    let mut out: Vec<JsonValue> = Vec::new();
    let mut i: usize = 0;
    while i < items.len()
        invariant
            0 <= i <= items.len(),
            want == items@.map_values(|c: ToolContent| content_json(c)),
            items_view(out@) =~= want.subrange(0, i as int),
        decreases items.len() - i,
    {
        let v = content_value(&items[i]);
        let ghost before = out@;
        out.push(v);
        proof {
            assert(out@.drop_last() =~= before);
            lemma_items_view(out@);
        }
        i += 1;
    }
    let r = JsonValue::Array(out);
    assert(want.subrange(0, items.len() as int) =~= want);
    ScriptReply::Json(r)
}

/// The text of the first item of a tool's result, where it is a text; empty
/// otherwise.
pub fn first_text(items: &Vec<ToolContent>) -> (r: String)
    ensures
        r@ == (if items.len() > 0 && items[0] is Text {
            items[0]->Text_0@
        } else {
            Seq::empty()
        }),
{
    if items.len() > 0 {
        match &items[0] {
            ToolContent::Text(t) => {
                return t.clone();
            },
            _ => {},
        }
    }
    String::new()
}

/// The reply for a failed tool call: the object `{"error": message}`, which
/// the `tools` facade turns into an exception.
pub fn tool_failure_reply(message: &str) -> (r: ScriptReply)
    ensures
        r@ == ReplyModel::Json(Json::Object(seq![("error"@, Json::Str(message@))])),
{
    let mut ms: Vec<(String, JsonValue)> = Vec::new();
    ms.push((owned("error"), JsonValue::String(owned(message))));
    proof {
        lemma_members_view(ms@);
    }
    assert(members_view(ms@) =~= seq![("error"@, Json::Str(message@))]);
    ScriptReply::Json(JsonValue::Object(ms))
}

/// The message of a failed run, where the script's exception had none.
pub const UNKNOWN_SCRIPT_ERROR: &'static str = "Unknown JavaScript error";

/// The message that a failed run reports: the exception's message, or a
/// fixed text where it had none.
pub open spec fn failure_message(message: Option<Seq<char>>) -> Seq<char> {
    match message {
        Some(m) => if m.len() > 0 {
            m
        } else {
            UNKNOWN_SCRIPT_ERROR@
        },
        None => UNKNOWN_SCRIPT_ERROR@,
    }
}

/// The outcome of one script run: its value, the lines it logged, and on
/// failure the message of the exception that ended it.
#[derive(Debug, PartialEq)]
pub struct ExecutionResult {
    pub value: JsonValue,
    pub logs: Vec<String>,
    pub is_error: bool,
    pub error_message: Option<String>,
}

impl ExecutionResult {
    /// A failed run has a null value and a message that is not empty; a run
    /// that completed has no message.
    pub open spec fn wf(&self) -> bool {
        if self.is_error {
            &&& self.value@ == Json::Null
            &&& self.error_message matches Some(m) && m@.len() > 0
        } else {
            self.error_message is None
        }
    }

    /// A run that completed with `value`.
    pub fn success(value: JsonValue, logs: Vec<String>) -> (r: ExecutionResult)
        ensures
            r.value@ == value@,
            r.logs@ == logs@,
            !r.is_error,
            r.error_message is None,
            r.wf(),
    {
        ExecutionResult { value, logs, is_error: false, error_message: None }
    }

    /// A run that ended in an exception with `message`: its value is null and
    /// its message is never empty.
    pub fn failure(message: Option<String>, logs: Vec<String>) -> (r: ExecutionResult)
        ensures
            r.value@ == Json::Null,
            r.logs@ == logs@,
            r.is_error,
            r.error_message matches Some(m) && m@ == failure_message(
                match message {
                    Some(x) => Some(x@),
                    None => None,
                },
            ),
            r.wf(),
    {
        proof {
            reveal_strlit("Unknown JavaScript error");
        }
        let text = match message {
            Some(m) => {
                if m.unicode_len() > 0 {
                    m
                } else {
                    owned(UNKNOWN_SCRIPT_ERROR)
                }
            },
            None => owned(UNKNOWN_SCRIPT_ERROR),
        };
        ExecutionResult { value: JsonValue::Null, logs, is_error: true, error_message: Some(text) }
    }
}

} // verus!
