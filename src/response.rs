//! The response to an execute-code call.

use vstd::prelude::*;

use crate::json::{
    items_view, key_index, key_position, lemma_items_view, lemma_members_view, lookup, member,
    members_view, opt_json, str_of, Json, JsonValue,
};
use crate::runtime::ExecutionResult;
use crate::text::{join, joined, owned, text_eq, texts};
use crate::tool::opt_text;

verus! {

/// The text that stands for an error without a message.
pub const UNKNOWN_ERROR: &'static str = "Unknown error";

/// The log lines as a JSON array of strings.
pub open spec fn logs_json(logs: Seq<Seq<char>>) -> Json {
    Json::Array(logs.map_values(|l: Seq<char>| Json::Str(l)))
}

/// The JSON value that answers an execute-code call: on failure an object
/// with the error message and the logs; on success the value itself where
/// nothing was logged, and otherwise an object with the value and the logs.
pub open spec fn response_json(
    value: Json,
    logs: Seq<Seq<char>>,
    is_error: bool,
    message: Option<Seq<char>>,
) -> Json {
    if is_error {
        Json::Object(
            seq![
                ("error"@, Json::Str(
                    match message {
                        Some(m) => m,
                        None => UNKNOWN_ERROR@,
                    },
                )),
                ("logs"@, logs_json(logs)),
            ],
        )
    } else if logs.len() == 0 {
        value
    } else {
        Json::Object(seq![("result"@, value), ("logs"@, logs_json(logs))])
    }
}

/// The response value for the outcome of a run.
pub open spec fn result_response(r: ExecutionResult) -> Json {
    response_json(
        r.value@,
        texts(r.logs@),
        r.is_error,
        opt_text(r.error_message),
    )
}

/// The log lines as a JSON array of strings.
fn logs_value(logs: &Vec<String>) -> (r: JsonValue)
    ensures
        r@ == logs_json(texts(logs@)),
{
    let ghost want = texts(logs@).map_values(|l: Seq<char>| Json::Str(l));
    let mut out: Vec<JsonValue> = Vec::new();
    let mut i: usize = 0;
    while i < logs.len()
        invariant
            0 <= i <= logs.len(),
            want == texts(logs@).map_values(|l: Seq<char>| Json::Str(l)),
            items_view(out@) =~= want.subrange(0, i as int),
        decreases logs.len() - i,
    {
        let ghost before = out@;
        out.push(JsonValue::String(logs[i].clone()));
        proof {
            assert(out@.drop_last() =~= before);
            lemma_items_view(out@);
        }
        i += 1;
    }
    assert(want.subrange(0, logs.len() as int) =~= want);
    JsonValue::Array(out)
}

/// The JSON value that answers an execute-code call whose run ended with
/// `result`; it is written out as pretty-printed JSON text.
pub fn call_response(result: &ExecutionResult) -> (r: JsonValue)
    ensures
        r@ == result_response(*result),
{
    if result.is_error {
        let message = match &result.error_message {
            Some(m) => m.clone(),
            None => owned(UNKNOWN_ERROR),
        };
        let ghost msg = if result.error_message is Some {
            result.error_message->Some_0@
        } else {
            UNKNOWN_ERROR@
        };
        assert(message@ == msg);
        let mut ms: Vec<(String, JsonValue)> = Vec::new();
        ms.push((owned("error"), JsonValue::String(message)));
        ms.push((owned("logs"), logs_value(&result.logs)));
        proof {
            lemma_members_view(ms@);
        }
        let ghost optmsg = opt_text(result.error_message);
        let ghost want = seq![
            ("error"@, Json::Str(
                match optmsg {
                    Some(m) => m,
                    None => UNKNOWN_ERROR@,
                },
            )),
            ("logs"@, logs_json(texts(result.logs@))),
        ];
        assert(members_view(ms@) =~= want);
        JsonValue::Object(ms)
    } else if result.logs.len() == 0 {
        let r = result.value.copy();
        assert(texts(result.logs@).len() == 0);
        assert(r@ == result_response(*result));
        r
    } else {
        let mut ms: Vec<(String, JsonValue)> = Vec::new();
        ms.push((owned("result"), result.value.copy()));
        ms.push((owned("logs"), logs_value(&result.logs)));
        proof {
            lemma_members_view(ms@);
        }
        assert(members_view(ms@) =~= seq![
            ("result"@, result.value@),
            ("logs"@, logs_json(texts(result.logs@))),
        ]);
        let r = JsonValue::Object(ms);
        assert(r@ == result_response(*result));
        r
    }
}

/// The model of one content item of a response.
pub enum PartModel {
    Text(Seq<char>),
    Image(Seq<char>, Seq<char>),
    Json(Json),
}

/// One content item of a response.
#[derive(Debug, PartialEq)]
pub enum ResponsePart {
    Text(String),
    Image { data: String, mime_type: String },
    /// A JSON value, handed over as its pretty-printed text.
    Json(JsonValue),
}

impl View for ResponsePart {
    type V = PartModel;

    open spec fn view(&self) -> PartModel {
        match self {
            ResponsePart::Text(t) => PartModel::Text(t@),
            ResponsePart::Image { data, mime_type } => PartModel::Image(data@, mime_type@),
            ResponsePart::Json(v) => PartModel::Json(v@),
        }
    }
}

/// The models of a list of content items.
pub open spec fn parts_view(s: Seq<ResponsePart>) -> Seq<PartModel> {
    s.map_values(|p: ResponsePart| p@)
}

/// The data and media type of an object tagged `{type: "image", data,
/// mimeType}`.
pub open spec fn image_of(ms: Seq<(Seq<char>, Json)>) -> Option<(Seq<char>, Seq<char>)> {
    if str_of(lookup(ms, "type"@)) == Some("image"@) {
        match (str_of(lookup(ms, "data"@)), str_of(lookup(ms, "mimeType"@))) {
            (Some(d), Some(m)) => Some((d, m)),
            _ => None,
        }
    } else {
        None
    }
}

/// The strings among `xs`, in order.
pub open spec fn strings_in(xs: Seq<Json>) -> Seq<Seq<char>>
    decreases xs.len(),
{
    if xs.len() == 0 {
        Seq::empty()
    } else {
        match xs.last() {
            Json::Str(s) => strings_in(xs.drop_last()).push(s),
            _ => strings_in(xs.drop_last()),
        }
    }
}

/// The trailing text item for a non-empty list of log lines.
pub open spec fn logs_part(logs: Option<Json>) -> Seq<PartModel> {
    match logs {
        Some(Json::Array(ls)) => if ls.len() > 0 {
            seq![PartModel::Text("Logs:\n"@ + joined(strings_in(ls), "\n"@))]
        } else {
            Seq::empty()
        },
        _ => Seq::empty(),
    }
}

/// The content items for a value: an image object becomes an image; a
/// `{result, logs}` object becomes the items of its result followed by the
/// logs; an array becomes the items of its elements where there are any;
/// anything else is one JSON item.
pub open spec fn content_of(v: Json) -> Seq<PartModel>
    decreases v, 0int,
{
    match v {
        Json::Object(ms) => match image_of(ms) {
            Some((d, m)) => seq![PartModel::Image(d, m)],
            None => {
                let r = key_index(ms, "result"@);
                if 0 <= r < ms.len() {
                    content_of(ms[r].1) + logs_part(lookup(ms, "logs"@))
                } else {
                    seq![PartModel::Json(v)]
                }
            },
        },
        Json::Array(xs) => {
            let c = contents_of(xs);
            if c.len() > 0 {
                c
            } else {
                seq![PartModel::Json(v)]
            }
        },
        _ => seq![PartModel::Json(v)],
    }
}

/// The content items of each element of `xs`, in order.
pub open spec fn contents_of(xs: Seq<Json>) -> Seq<PartModel>
    decreases xs, 1int,
{
    if xs.len() == 0 {
        Seq::empty()
    } else {
        contents_of(xs.drop_last()) + content_of(xs.last())
    }
}

/// The data and media type of an image object.
fn image_fields(ms: &Vec<(String, JsonValue)>) -> (r: Option<(String, String)>)
    ensures
        match r {
            Some((d, m)) => image_of(members_view(ms@)) == Some((d@, m@)),
            None => image_of(members_view(ms@)) is None,
        },
{
    let tag = match member(ms, "type") {
        Some(t) => t.as_str(),
        None => None,
    };
    let is_image = match tag {
        Some(t) => text_eq(t, "image"),
        None => false,
    };
    if !is_image {
        return None;
    }
    let data = match member(ms, "data") {
        Some(d) => d.as_str(),
        None => None,
    };
    let mime = match member(ms, "mimeType") {
        Some(m) => m.as_str(),
        None => None,
    };
    match (data, mime) {
        (Some(d), Some(m)) => Some((owned(d), owned(m))),
        _ => None,
    }
}

/// The text item that lists the string log lines of a non-empty array.
fn logs_text(logs: Option<&JsonValue>) -> (r: Vec<ResponsePart>)
    ensures
        parts_view(r@) == logs_part(opt_json(logs)),
{
    let mut r: Vec<ResponsePart> = Vec::new();
    match logs {
        Some(JsonValue::Array(ls)) => {
            if ls.len() == 0 {
                proof {
                    lemma_items_view(ls@);
                }
                assert(parts_view(r@) =~= Seq::empty());
                return r;
            }
            proof {
                lemma_items_view(ls@);
            }
            let ghost lv = items_view(ls@);
            let mut lines: Vec<String> = Vec::new();
            let mut i: usize = 0;
            while i < ls.len()
                invariant
                    0 <= i <= ls.len(),
                    lv == items_view(ls@),
                    lv.len() == ls.len(),
                    forall|k: int| 0 <= k < ls.len() ==> #[trigger] lv[k] == ls@[k]@,
                    texts(lines@) == strings_in(lv.subrange(0, i as int)),
                decreases ls.len() - i,
            {
                assert(lv.subrange(0, i + 1).drop_last() =~= lv.subrange(0, i as int));
                match ls[i].as_str() {
                    Some(s) => {
                        let ghost before = lines@;
                        lines.push(owned(s));
                        assert(texts(lines@) =~= texts(before).push(s@));
                    },
                    None => {},
                }
                i += 1;
            }
            assert(lv.subrange(0, ls.len() as int) =~= lv);
            let mut text = owned("Logs:\n");
            text.append(join(&lines, "\n").as_str());
            r.push(ResponsePart::Text(text));
            assert(parts_view(r@) =~= logs_part(opt_json(logs)));
            r
        },
        _ => {
            assert(parts_view(r@) =~= Seq::empty());
            r
        },
    }
}

/// A list of one content item.
fn single(p: ResponsePart) -> (r: Vec<ResponsePart>)
    ensures
        parts_view(r@) == seq![p@],
{
    let mut r: Vec<ResponsePart> = Vec::new();
    r.push(p);
    assert(parts_view(r@) =~= seq![p@]);
    r
}

/// The content items for a value: an object tagged `{type: "image", data,
/// mimeType}` becomes an image item; an object with a `result` member
/// becomes the items of the result, followed by a text item with the string
/// lines of a non-empty `logs` array; an array becomes the items of its
/// elements, where there are any; anything else is one item with the value's
/// JSON text.
pub fn json_to_content(value: &JsonValue) -> (r: Vec<ResponsePart>)
    ensures
        parts_view(r@) == content_of(value@),
    decreases value, 0int,
{
    match value {
        JsonValue::Object(ms) => {
            proof {
                lemma_members_view(ms@);
            }
            match image_fields(ms) {
                Some((d, m)) => {
                    return single(ResponsePart::Image { data: d, mime_type: m });
                },
                None => {},
            }
            match key_position(ms, "result") {
                Some(j) => {
                    let mut r = json_to_content(&ms[j].1);
                    let mut tail = logs_text(member(ms, "logs"));
                    let ghost a = r@;
                    let ghost b = tail@;
                    r.append(&mut tail);
                    assert(parts_view(r@) =~= parts_view(a) + parts_view(b));
                    r
                },
                None => single(ResponsePart::Json(value.copy())),
            }
        },
        JsonValue::Array(xs) => {
            let r = element_contents(xs);
            if r.len() > 0 {
                r
            } else {
                single(ResponsePart::Json(value.copy()))
            }
        },
        _ => single(ResponsePart::Json(value.copy())),
    }
}

/// The content items of each element of `xs`, in order.
fn element_contents(xs: &Vec<JsonValue>) -> (r: Vec<ResponsePart>)
    ensures
        parts_view(r@) == contents_of(items_view(xs@)),
    decreases xs, 1int,
{
    proof {
        lemma_items_view(xs@);
    }
    let ghost xv = items_view(xs@);
    let mut r: Vec<ResponsePart> = Vec::new();
    let mut i: usize = 0;
    while i < xs.len()
        invariant
            0 <= i <= xs.len(),
            xv == items_view(xs@),
            xv.len() == xs.len(),
            forall|k: int| 0 <= k < xs.len() ==> #[trigger] xv[k] == xs@[k]@,
            parts_view(r@) == contents_of(xv.subrange(0, i as int)),
        decreases xs.len() - i,
    {
        let mut more = json_to_content(&xs[i]);
        let ghost a = r@;
        let ghost b = more@;
        r.append(&mut more);
        assert(parts_view(r@) =~= parts_view(a) + parts_view(b));
        assert(xv.subrange(0, i + 1).drop_last() =~= xv.subrange(0, i as int));
        i += 1;
    }
    assert(xv.subrange(0, xs.len() as int) =~= xv);
    r
}

/// The content of the response to an execute-code call whose run ended
/// with `result`, with images and logs laid out as their own items: a
/// failure is one JSON item; a success is the items of its response value.
pub fn response_content(result: &ExecutionResult) -> (r: Vec<ResponsePart>)
    ensures
        parts_view(r@) == (if result.is_error {
            seq![PartModel::Json(result_response(*result))]
        } else {
            content_of(result_response(*result))
        }),
{
    let v = call_response(result);
    if result.is_error {
        single(ResponsePart::Json(v))
    } else {
        json_to_content(&v)
    }
}

} // verus!
