//! The schema transducer: JSON Schema to a typed-interface declaration.

use vstd::prelude::*;

use crate::json::{
    copy_members, field, items_view, key_index, key_position, lemma_items_view,
    lemma_members_view, lookup, member, members_view, opt_json, str_of, Json, JsonValue,
};
use crate::text::{
    after_prefix, join, joined, owned, push_char, strip_prefix, text_eq, texts, to_upper, upper_of,
};
use crate::tool::{tools_view, ToolDescriptor, ToolModel};

verus! {

/// The number of definitions that a `$defs` value offers.
pub open spec fn defs_size(defs: Option<Json>) -> int {
    match defs {
        Some(Json::Object(ms)) => ms.len() as int,
        _ => 0,
    }
}

/// The definition name that a local reference names.
pub open spec fn ref_target(r: Seq<char>) -> Option<Seq<char>> {
    match after_prefix(r, "#/$defs/"@) {
        Some(n) => Some(n),
        None => after_prefix(r, "#/definitions/"@),
    }
}

/// Whether `name` is listed in a `required` value.
pub open spec fn is_required(req: Option<Json>, name: Seq<char>) -> bool {
    match req {
        Some(Json::Array(xs)) => xs.contains(Json::Str(name)),
        _ => false,
    }
}

/// `?` after the name of a property that is not required.
pub open spec fn optional_mark(req: Option<Json>, name: Seq<char>) -> Seq<char> {
    if is_required(req, name) {
        Seq::empty()
    } else {
        "?"@
    }
}

/// The type that `schema` describes. A reference is followed only to a
/// definition that is not already being followed, so each chain of
/// references ends.
pub open spec fn ts_type(schema: Json, defs: Option<Json>, visiting: Seq<Seq<char>>) -> Seq<char>
    decreases defs_size(defs) - visiting.len(), schema, 0int,
{
    match schema {
        Json::Object(ms) => {
            let r = key_index(ms, "$ref"@);
            let o = key_index(ms, "oneOf"@);
            let a = key_index(ms, "anyOf"@);
            let t = key_index(ms, "type"@);
            if 0 <= r < ms.len() && ms[r].1 is Str {
                match (ref_target(ms[r].1->Str_0), defs) {
                    (Some(name), Some(Json::Object(dms))) => {
                        let j = key_index(dms, name);
                        if 0 <= j < dms.len() && !visiting.contains(name) && visiting.len()
                            < dms.len() {
                            ts_type(dms[j].1, defs, visiting.push(name))
                        } else {
                            "unknown"@
                        }
                    },
                    _ => "unknown"@,
                }
            } else if 0 <= o < ms.len() && ms[o].1 is Array {
                joined(ts_alts(ms[o].1->Array_0, defs, visiting), " | "@)
            } else if 0 <= a < ms.len() && ms[a].1 is Array {
                joined(ts_alts(ms[a].1->Array_0, defs, visiting), " | "@)
            } else if 0 <= t < ms.len() {
                match ms[t].1 {
                    Json::Str(k) => {
                        if k == "string"@ {
                            "string"@
                        } else if k == "number"@ || k == "integer"@ {
                            "number"@
                        } else if k == "boolean"@ {
                            "boolean"@
                        } else if k == "null"@ {
                            "null"@
                        } else if k == "array"@ {
                            let it = key_index(ms, "items"@);
                            if 0 <= it < ms.len() {
                                ts_type(ms[it].1, defs, visiting) + "[]"@
                            } else {
                                "unknown[]"@
                            }
                        } else if k == "object"@ {
                            let p = key_index(ms, "properties"@);
                            if 0 <= p < ms.len() && ms[p].1 is Object {
                                "{ "@ + joined(
                                    ts_fields(
                                        ms[p].1->Object_0,
                                        lookup(ms, "required"@),
                                        defs,
                                        visiting,
                                    ),
                                    "; "@,
                                ) + " }"@
                            } else {
                                "Record<string, unknown>"@
                            }
                        } else {
                            "unknown"@
                        }
                    },
                    _ => "unknown"@,
                }
            } else {
                "unknown"@
            }
        },
        _ => "unknown"@,
    }
}

/// The types of a list of alternatives.
pub open spec fn ts_alts(alts: Seq<Json>, defs: Option<Json>, visiting: Seq<Seq<char>>) -> Seq<
    Seq<char>,
>
    decreases defs_size(defs) - visiting.len(), alts, 1int,
{
    if alts.len() == 0 {
        Seq::empty()
    } else {
        ts_alts(alts.drop_last(), defs, visiting).push(ts_type(alts.last(), defs, visiting))
    }
}

/// One `name?: type` entry for each property of an inline record.
pub open spec fn ts_fields(
    props: Seq<(Seq<char>, Json)>,
    req: Option<Json>,
    defs: Option<Json>,
    visiting: Seq<Seq<char>>,
) -> Seq<Seq<char>>
    decreases defs_size(defs) - visiting.len(), props, 1int,
{
    if props.len() == 0 {
        Seq::empty()
    } else {
        let (name, s) = props.last();
        ts_fields(props.drop_last(), req, defs, visiting).push(
            name + optional_mark(req, name) + ": "@ + ts_type(s, defs, visiting),
        )
    }
}

/// A copy of a list of strings.
fn copy_texts(v: &Vec<String>) -> (r: Vec<String>)
    ensures
        texts(r@) == texts(v@),
{
    let mut r: Vec<String> = Vec::new();
    let mut i: usize = 0;
    while i < v.len()
        invariant
            0 <= i <= v.len(),
            r.len() == i,
            r@ =~= v@.subrange(0, i as int),
        decreases v.len() - i,
    {
        r.push(v[i].clone());
        i += 1;
    }
    assert(v@.subrange(0, v.len() as int) =~= v@);
    r
}

/// Whether `v` holds a string equal to `name`.
fn contains_text(v: &Vec<String>, name: &str) -> (r: bool)
    ensures
        r == texts(v@).contains(name@),
{
    let mut i: usize = 0;
    while i < v.len()
        invariant
            0 <= i <= v.len(),
            forall|k: int| 0 <= k < i ==> v@[k]@ != name@,
        decreases v.len() - i,
    {
        if text_eq(v[i].as_str(), name) {
            assert(texts(v@)[i as int] == name@);
            return true;
        }
        i += 1;
    }
    assert(!texts(v@).contains(name@)) by {
        assert forall|k: int| 0 <= k < texts(v@).len() implies texts(v@)[k] != name@ by {
            assert(texts(v@)[k] == v@[k]@);
        }
    }
    false
}

/// Whether `name` is listed in a `required` value.
fn listed(req: Option<&JsonValue>, name: &str) -> (r: bool)
    ensures
        r == is_required(opt_json(req), name@),
{
    match req {
        Some(JsonValue::Array(xs)) => {
            proof {
                lemma_items_view(xs@);
            }
            let ghost xv = items_view(xs@);
            assert(opt_json(req) == Some(Json::Array(xv)));
            let mut i: usize = 0;
            while i < xs.len()
                invariant
                    0 <= i <= xs.len(),
                    xv == items_view(xs@),
                    opt_json(req) == Some(Json::Array(xv)),
                    xv.len() == xs.len(),
                    forall|k: int| 0 <= k < xs.len() ==> #[trigger] xv[k] == xs@[k]@,
                    forall|k: int| 0 <= k < i ==> xv[k] != Json::Str(name@),
                decreases xs.len() - i,
            {
                match xs[i].as_str() {
                    Some(s) => {
                        if text_eq(s, name) {
                            assert(xv[i as int] == Json::Str(name@));
                            return true;
                        }
                    },
                    None => {},
                }
                i += 1;
            }
            assert(!xv.contains(Json::Str(name@)));
            false
        },
        _ => false,
    }
}

/// The definition that a reference names, resolved against `defs`.
fn ref_type(refv: &JsonValue, target: &str, defs: Option<&JsonValue>, visiting: &Vec<String>) -> (r:
    String)
    requires
        refv@ == Json::Str(target@),
    ensures
        r@ == (match (ref_target(target@), opt_json(defs)) {
            (Some(name), Some(Json::Object(dms))) => {
                let j = key_index(dms, name);
                if 0 <= j < dms.len() && !texts(visiting@).contains(name) && visiting.len()
                    < dms.len() {
                    ts_type(dms[j].1, opt_json(defs), texts(visiting@).push(name))
                } else {
                    "unknown"@
                }
            },
            _ => "unknown"@,
        }),
    decreases defs_size(opt_json(defs)) - visiting.len(), refv, 0int,
{
    let name = match strip_prefix(target, "#/$defs/") {
        Some(n) => n,
        None => match strip_prefix(target, "#/definitions/") {
            Some(n) => n,
            None => return owned("unknown"),
        },
    };
    assert(ref_target(target@) == Some(name@));
    match defs {
        Some(JsonValue::Object(dms)) => {
            proof {
                lemma_members_view(dms@);
            }
            match key_position(dms, name.as_str()) {
                Some(j) => {
                    if !contains_text(visiting, name.as_str()) && visiting.len() < dms.len() {
                        let ghost name_v = name@;
                        let mut next = copy_texts(visiting);
                        next.push(name);
                        assert(texts(next@) =~= texts(visiting@).push(name_v));
                        schema_type(&dms[j].1, defs, &next)
                    } else {
                        owned("unknown")
                    }
                },
                None => owned("unknown"),
            }
        },
        _ => owned("unknown"),
    }
}

/// The types of a list of alternatives.
fn alternatives(alts: &Vec<JsonValue>, defs: Option<&JsonValue>, visiting: &Vec<String>) -> (r:
    Vec<String>)
    ensures
        texts(r@) == ts_alts(items_view(alts@), opt_json(defs), texts(visiting@)),
    decreases defs_size(opt_json(defs)) - visiting.len(), alts, 1int,
{
    proof {
        lemma_items_view(alts@);
    }
    let ghost av = items_view(alts@);
    let mut r: Vec<String> = Vec::new();
    let mut i: usize = 0;
    while i < alts.len()
        invariant
            0 <= i <= alts.len(),
            av == items_view(alts@),
            av.len() == alts.len(),
            forall|k: int| 0 <= k < alts.len() ==> #[trigger] av[k] == alts@[k]@,
            r.len() == i,
            texts(r@) == ts_alts(av.subrange(0, i as int), opt_json(defs), texts(visiting@)),
        decreases alts.len() - i,
    {
        let t = schema_type(&alts[i], defs, visiting);
        let ghost before = r@;
        r.push(t);
        proof {
            assert(av.subrange(0, i + 1).drop_last() =~= av.subrange(0, i as int));
            assert(texts(r@) =~= texts(before).push(r@[i as int]@));
        }
        i += 1;
    }
    assert(av.subrange(0, alts.len() as int) =~= av);
    r
}

/// One `name?: type` entry for each property of an inline record.
fn fields(
    props: &Vec<(String, JsonValue)>,
    req: Option<&JsonValue>,
    defs: Option<&JsonValue>,
    visiting: &Vec<String>,
) -> (r: Vec<String>)
    ensures
        texts(r@) == ts_fields(
            members_view(props@),
            opt_json(req),
            opt_json(defs),
            texts(visiting@),
        ),
    decreases defs_size(opt_json(defs)) - visiting.len(), props, 1int,
{
    proof {
        lemma_members_view(props@);
    }
    let ghost pv = members_view(props@);
    let mut r: Vec<String> = Vec::new();
    let mut i: usize = 0;
    while i < props.len()
        invariant
            0 <= i <= props.len(),
            pv == members_view(props@),
            pv.len() == props.len(),
            forall|k: int| 0 <= k < props.len() ==> #[trigger] pv[k] == (props@[k].0@, props@[k].1@),
            r.len() == i,
            texts(r@) == ts_fields(
                pv.subrange(0, i as int),
                opt_json(req),
                opt_json(defs),
                texts(visiting@),
            ),
        decreases props.len() - i,
    {
        let name = props[i].0.as_str();
        let mut entry = owned(name);
        if !listed(req, name) {
            entry.append("?");
        }
        entry.append(": ");
        let t = schema_type(&props[i].1, defs, visiting);
        entry.append(t.as_str());
        let ghost before = r@;
        r.push(entry);
        proof {
            assert(pv.subrange(0, i + 1).drop_last() =~= pv.subrange(0, i as int));
            assert(texts(r@) =~= texts(before).push(r@[i as int]@));
        }
        i += 1;
    }
    assert(pv.subrange(0, props.len() as int) =~= pv);
    r
}

/// The type that `schema` describes, with `defs` the definitions that local
/// references resolve against and `visiting` the definitions being followed.
fn schema_type(schema: &JsonValue, defs: Option<&JsonValue>, visiting: &Vec<String>) -> (r:
    String)
    ensures
        r@ == ts_type(schema@, opt_json(defs), texts(visiting@)),
    decreases defs_size(opt_json(defs)) - visiting.len(), schema, 0int,
{
    match schema {
        JsonValue::Object(ms) => {
            proof {
                lemma_members_view(ms@);
            }
            let ghost m = members_view(ms@);
            assert(schema@ == Json::Object(m));
            match key_position(ms, "$ref") {
                Some(j) => match ms[j].1.as_str() {
                    Some(target) => {
                        return ref_type(&ms[j].1, target, defs, visiting);
                    },
                    None => {},
                },
                None => {},
            }
            match key_position(ms, "oneOf") {
                Some(j) => match &ms[j].1 {
                    JsonValue::Array(alts) => {
                        let parts = alternatives(alts, defs, visiting);
                        return join(&parts, " | ");
                    },
                    _ => {},
                },
                None => {},
            }
            match key_position(ms, "anyOf") {
                Some(j) => match &ms[j].1 {
                    JsonValue::Array(alts) => {
                        let parts = alternatives(alts, defs, visiting);
                        return join(&parts, " | ");
                    },
                    _ => {},
                },
                None => {},
            }
            let t = match key_position(ms, "type") {
                Some(t) => t,
                None => return owned("unknown"),
            };
            let k = match ms[t].1.as_str() {
                Some(k) => k,
                None => return owned("unknown"),
            };
            if text_eq(k, "string") {
                owned("string")
            } else if text_eq(k, "number") || text_eq(k, "integer") {
                owned("number")
            } else if text_eq(k, "boolean") {
                owned("boolean")
            } else if text_eq(k, "null") {
                owned("null")
            } else if text_eq(k, "array") {
                match key_position(ms, "items") {
                    Some(it) => {
                        let mut out = schema_type(&ms[it].1, defs, visiting);
                        out.append("[]");
                        out
                    },
                    None => owned("unknown[]"),
                }
            } else if text_eq(k, "object") {
                match key_position(ms, "properties") {
                    Some(p) => match &ms[p].1 {
                        JsonValue::Object(props) => {
                            let entries = fields(props, schema.get("required"), defs, visiting);
                            let mut out = owned("{ ");
                            out.append(join(&entries, "; ").as_str());
                            out.append(" }");
                            out
                        },
                        _ => owned("Record<string, unknown>"),
                    },
                    None => owned("Record<string, unknown>"),
                }
            } else {
                owned("unknown")
            }
        },
        _ => owned("unknown"),
    }
}

/// Whether `c` separates the parts of a tool name.
pub open spec fn is_separator(c: char) -> bool {
    c == '_' || c == '-'
}

/// Whether position `i` of `s` starts a part: a character that is no
/// separator, at the start or right after a separator.
pub open spec fn starts_part(s: Seq<char>, i: int) -> bool {
    !is_separator(s[i]) && (i == 0 || is_separator(s[i - 1]))
}

/// The first character of each non-empty part of `s`, in order.
pub open spec fn part_heads(s: Seq<char>) -> Seq<char>
    decreases s.len(),
{
    if s.len() == 0 {
        Seq::empty()
    } else if starts_part(s, s.len() - 1) {
        part_heads(s.drop_last()).push(s.last())
    } else {
        part_heads(s.drop_last())
    }
}

/// `s` without its separators, with the first character of the `k`-th
/// non-empty part replaced by `heads[k]`.
pub open spec fn pascal_with(s: Seq<char>, heads: Seq<Seq<char>>) -> Seq<char>
    decreases s.len(),
{
    if s.len() == 0 {
        Seq::empty()
    } else {
        let p = s.drop_last();
        if is_separator(s.last()) {
            pascal_with(p, heads)
        } else if starts_part(s, s.len() - 1) {
            pascal_with(p, heads) + heads[part_heads(p).len() as int]
        } else {
            pascal_with(p, heads).push(s.last())
        }
    }
}

/// A tool name as an interface name: split on `_` and `-`, the first
/// character of each part upper-cased, the parts concatenated.
pub open spec fn pascal_case(s: Seq<char>) -> Seq<char> {
    pascal_with(s, part_heads(s).map_values(|c: char| upper_of(c)))
}

/// A tool name as a function name: each `-` replaced by `_`.
pub open spec fn function_name(s: Seq<char>) -> Seq<char> {
    s.map_values(|c: char| if c == '-' { '_' } else { c })
}

/// A prefix has no more part heads than the whole.
proof fn lemma_part_heads_prefix(s: Seq<char>, j: int)
    requires
        0 <= j <= s.len(),
    ensures
        part_heads(s.subrange(0, j)).len() <= part_heads(s).len(),
    decreases s.len(),
{
    if j < s.len() {
        assert(s.drop_last().subrange(0, j) =~= s.subrange(0, j));
        lemma_part_heads_prefix(s.drop_last(), j);
    } else {
        assert(s.subrange(0, j) =~= s);
    }
}

/// The first character of each non-empty part of `s`, where the parts are
/// separated by `_` or `-`.
pub fn part_initials(s: &str) -> (r: Vec<char>)
    ensures
        r@ == part_heads(s@),
{
    let n = s.unicode_len();
    let mut r: Vec<char> = Vec::new();
    let mut at_start = true;
    let mut i: usize = 0;
    while i < n
        invariant
            n == s@.len(),
            0 <= i <= n,
            at_start == (i == 0 || is_separator(s@[i - 1])),
            r@ == part_heads(s@.subrange(0, i as int)),
        decreases n - i,
    {
        let c = s.get_char(i);
        assert(s@.subrange(0, i + 1).drop_last() =~= s@.subrange(0, i as int));
        if c == '_' || c == '-' {
            at_start = true;
        } else {
            if at_start {
                r.push(c);
            }
            at_start = false;
        }
        i += 1;
    }
    assert(s@.subrange(0, n as int) =~= s@);
    r
}

/// `s` without its separators `_` and `-`, with the first character of the
/// `k`-th non-empty part replaced by `heads[k]`.
pub fn pascal_case_with(s: &str, heads: &Vec<String>) -> (r: String)
    requires
        heads.len() == part_heads(s@).len(),
    ensures
        r@ == pascal_with(s@, texts(heads@)),
{
    let n = s.unicode_len();
    let ghost hv = texts(heads@);
    let mut out = String::new();
    let mut at_start = true;
    let mut count: usize = 0;
    let mut i: usize = 0;
    while i < n
        invariant
            n == s@.len(),
            0 <= i <= n,
            hv == texts(heads@),
            heads.len() == part_heads(s@).len(),
            at_start == (i == 0 || is_separator(s@[i - 1])),
            count == part_heads(s@.subrange(0, i as int)).len(),
            out@ == pascal_with(s@.subrange(0, i as int), hv),
        decreases n - i,
    {
        let c = s.get_char(i);
        let ghost pre = s@.subrange(0, i as int);
        let ghost cur = s@.subrange(0, i + 1);
        assert(cur.drop_last() =~= pre);
        if c == '_' || c == '-' {
            at_start = true;
        } else {
            if at_start {
                proof {
                    lemma_part_heads_prefix(s@, i + 1);
                }
                out.append(heads[count].as_str());
                count += 1;
            } else {
                push_char(&mut out, c);
            }
            at_start = false;
        }
        i += 1;
    }
    assert(s@.subrange(0, n as int) =~= s@);
    out
}

/// A tool name as an interface name: `get_items` becomes `GetItems`.
pub fn to_pascal_case(s: &str) -> (r: String)
    ensures
        r@ == pascal_case(s@),
{
    let initials = part_initials(s);
    let ghost uppers = part_heads(s@).map_values(|c: char| upper_of(c));
    let mut heads: Vec<String> = Vec::new();
    let mut i: usize = 0;
    while i < initials.len()
        invariant
            0 <= i <= initials.len(),
            initials@ == part_heads(s@),
            uppers == part_heads(s@).map_values(|c: char| upper_of(c)),
            heads.len() == i,
            texts(heads@) =~= uppers.subrange(0, i as int),
        decreases initials.len() - i,
    {
        let h = to_upper(initials[i]);
        let ghost before = heads@;
        heads.push(h);
        assert(texts(heads@) =~= texts(before).push(h@));
        i += 1;
    }
    assert(uppers.subrange(0, initials.len() as int) =~= uppers);
    pascal_case_with(s, &heads)
}

/// A tool name as a function name: each `-` replaced by `_`.
pub fn to_function_name(s: &str) -> (r: String)
    ensures
        r@ == function_name(s@),
{
    let n = s.unicode_len();
    let mut out = String::new();
    let mut i: usize = 0;
    while i < n
        invariant
            n == s@.len(),
            0 <= i <= n,
            out@ =~= function_name(s@).subrange(0, i as int),
        decreases n - i,
    {
        let c = s.get_char(i);
        if c == '-' {
            push_char(&mut out, '_');
        } else {
            push_char(&mut out, c);
        }
        i += 1;
    }
    out
}

/// The definitions that local references in a schema object resolve
/// against: its `$defs` member, or else its `definitions` member.
pub open spec fn schema_defs(ms: Seq<(Seq<char>, Json)>) -> Option<Json> {
    match lookup(ms, "$defs"@) {
        Some(d) => Some(d),
        None => lookup(ms, "definitions"@),
    }
}

/// The type that a root schema describes.
pub open spec fn schema_text(schema: Json) -> Seq<char> {
    let defs = match schema {
        Json::Object(ms) => schema_defs(ms),
        _ => None,
    };
    ts_type(schema, defs, Seq::empty())
}

/// A doc comment line at the given indentation, where there is a text.
pub open spec fn doc_line(indent: Seq<char>, text: Option<Seq<char>>) -> Seq<char> {
    match text {
        Some(t) => indent + "/** "@ + t + " */\n"@,
        None => Seq::empty(),
    }
}

/// One field of a parameters interface, with its description above it.
pub open spec fn prop_line(name: Seq<char>, s: Json, req: Option<Json>, defs: Option<Json>) -> Seq<
    char,
> {
    doc_line("    "@, str_of(field(s, "description"@))) + "    "@ + name + optional_mark(req, name)
        + ": "@ + ts_type(s, defs, Seq::empty()) + ";\n"@
}

/// The fields of a parameters interface, in order.
pub open spec fn prop_lines(
    props: Seq<(Seq<char>, Json)>,
    req: Option<Json>,
    defs: Option<Json>,
) -> Seq<char>
    decreases props.len(),
{
    if props.len() == 0 {
        Seq::empty()
    } else {
        prop_lines(props.drop_last(), req, defs) + prop_line(
            props.last().0,
            props.last().1,
            req,
            defs,
        )
    }
}

/// The parameters interface of an input schema: empty where the schema has
/// no properties.
pub open spec fn params_text(schema: Seq<(Seq<char>, Json)>, base: Seq<char>) -> Seq<char> {
    match lookup(schema, "properties"@) {
        Some(Json::Object(props)) => {
            if props.len() == 0 {
                Seq::empty()
            } else {
                "  interface "@ + base + "Params {\n"@ + prop_lines(
                    props,
                    lookup(schema, "required"@),
                    schema_defs(schema),
                ) + "  }\n\n"@
            }
        },
        _ => Seq::empty(),
    }
}

/// The declarations for one tool.
pub open spec fn tool_text(t: ToolModel) -> Seq<char> {
    let iface = pascal_case(t.name);
    let fname = function_name(t.name);
    let params = params_text(t.input_schema, iface);
    let ret = match t.output_schema {
        Some(ms) => schema_text(Json::Object(ms)),
        None => "unknown"@,
    };
    doc_line("  "@, t.description) + params + signature_text(fname, iface, params.len() > 0, ret)
}

/// The function signature of one tool.
pub open spec fn signature_text(fname: Seq<char>, iface: Seq<char>, has_params: bool, ret: Seq<
    char,
>) -> Seq<char> {
    if has_params {
        "  function "@ + fname + "(params: "@ + iface + "Params): "@ + ret + ";\n\n"@
    } else {
        "  function "@ + fname + "(): "@ + ret + ";\n\n"@
    }
}

/// The declarations for each tool, in order.
pub open spec fn tools_text(tools: Seq<ToolModel>) -> Seq<char>
    decreases tools.len(),
{
    if tools.len() == 0 {
        Seq::empty()
    } else {
        tools_text(tools.drop_last()) + tool_text(tools.last())
    }
}

/// The typed-interface declaration of `tools` in namespace `ns`.
pub open spec fn interface_text(tools: Seq<ToolModel>, ns: Seq<char>) -> Seq<char> {
    "// Auto-generated TypeScript interface for MCP tools\n"@ + "// Do not edit manually\n\n"@
        + "declare namespace "@ + ns + " {\n"@ + tools_text(tools) + "}\n"@
}

/// The definitions of a schema object.
fn defs_of(ms: &Vec<(String, JsonValue)>) -> (r: Option<&JsonValue>)
    ensures
        opt_json(r) == schema_defs(members_view(ms@)),
{
    match member(ms, "$defs") {
        Some(d) => Some(d),
        None => member(ms, "definitions"),
    }
}

/// The type that a root schema describes, with references resolved against
/// its own `$defs` or `definitions`.
pub fn json_schema_to_typescript(schema: &JsonValue) -> (r: String)
    ensures
        r@ == schema_text(schema@),
{
    let defs = match schema {
        JsonValue::Object(ms) => defs_of(ms),
        _ => None,
    };
    let visiting: Vec<String> = Vec::new();
    assert(texts(visiting@) =~= Seq::<Seq<char>>::empty());
    schema_type(schema, defs, &visiting)
}

/// Appends a doc comment line at the given indentation, where there is a
/// text.
fn append_doc(out: &mut String, indent: &str, text: Option<&str>)
    ensures
        final(out)@ == old(out)@ + doc_line(
            indent@,
            match text {
                Some(t) => Some(t@),
                None => None,
            },
        ),
{
    match text {
        Some(t) => {
            out.append(indent);
            out.append("/** ");
            out.append(t);
            out.append(" */\n");
        },
        None => {},
    }
}

/// The parameters interface of an input schema, named `<base_name>Params`:
/// empty where the schema has no properties.
fn generate_params_interface(schema: &Vec<(String, JsonValue)>, base_name: &str) -> (r: String)
    ensures
        r@ == params_text(members_view(schema@), base_name@),
{
    let props = match member(schema, "properties") {
        Some(JsonValue::Object(props)) => props,
        _ => return String::new(),
    };
    if props.len() == 0 {
        proof {
            lemma_members_view(props@);
        }
        return String::new();
    }
    let req = member(schema, "required");
    let defs = defs_of(schema);
    let visiting: Vec<String> = Vec::new();
    assert(texts(visiting@) =~= Seq::<Seq<char>>::empty());
    proof {
        lemma_members_view(props@);
    }
    let ghost pv = members_view(props@);
    let mut out = String::new();
    out.append("  interface ");
    out.append(base_name);
    out.append("Params {\n");
    let ghost head = out@;
    let mut i: usize = 0;
    while i < props.len()
        invariant
            0 <= i <= props.len(),
            pv == members_view(props@),
            pv.len() == props.len(),
            forall|k: int| 0 <= k < props.len() ==> #[trigger] pv[k] == (props@[k].0@, props@[k].1@),
            texts(visiting@) == Seq::<Seq<char>>::empty(),
            out@ == head + prop_lines(pv.subrange(0, i as int), opt_json(req), opt_json(defs)),
        decreases props.len() - i,
    {
        let name = props[i].0.as_str();
        let desc = props[i].1.get("description");
        let desc_text = match desc {
            Some(d) => d.as_str(),
            None => None,
        };
        let ghost before = out@;
        append_doc(&mut out, "    ", desc_text);
        out.append("    ");
        out.append(name);
        if !listed(req, name) {
            out.append("?");
        }
        out.append(": ");
        let t = schema_type(&props[i].1, defs, &visiting);
        out.append(t.as_str());
        out.append(";\n");
        proof {
            assert(pv.subrange(0, i + 1).drop_last() =~= pv.subrange(0, i as int));
            assert(str_of(field(pv[i as int].1, "description"@)) == match desc_text {
                Some(t) => Some(t@),
                None => None,
            });
            assert(out@ =~= before + prop_line(pv[i as int].0, pv[i as int].1, opt_json(req), opt_json(defs)));
        }
        i += 1;
    }
    assert(pv.subrange(0, props.len() as int) =~= pv);
    out.append("  }\n\n");
    out
}

/// The declarations for one tool.
fn tool_block(t: &ToolDescriptor) -> (r: String)
    ensures
        r@ == tool_text(t@),
{
    let iface = to_pascal_case(t.name.as_str());
    let fname = to_function_name(t.name.as_str());
    let params = generate_params_interface(&t.input_schema, iface.as_str());
    let ret = match &t.output_schema {
        Some(ms) => {
            let root = JsonValue::Object(copy_members(ms));
            json_schema_to_typescript(&root)
        },
        None => owned("unknown"),
    };
    let mut out = String::new();
    let desc = match &t.description {
        Some(d) => Some(d.as_str()),
        None => None,
    };
    append_doc(&mut out, "  ", desc);
    out.append(params.as_str());
    let sig = signature(fname.as_str(), iface.as_str(), params.unicode_len() > 0, ret.as_str());
    out.append(sig.as_str());
    out
}

/// The function signature of one tool.
fn signature(fname: &str, iface: &str, has_params: bool, ret: &str) -> (r: String)
    ensures
        r@ == signature_text(fname@, iface@, has_params, ret@),
{
    let mut out = owned("  function ");
    out.append(fname);
    if has_params {
        out.append("(params: ");
        out.append(iface);
        out.append("Params): ");
    } else {
        out.append("(): ");
    }
    out.append(ret);
    out.append(";\n\n");
    out
}

/// The typed-interface declaration of `tools` in namespace `namespace`: one
/// parameters interface and one function signature for each tool, in order.
pub fn generate_typescript_interface(tools: &[ToolDescriptor], namespace: &str) -> (r: String)
    ensures
        r@ == interface_text(tools_view(tools@), namespace@),
{
    let ghost tv = tools_view(tools@);
    let mut out = owned("// Auto-generated TypeScript interface for MCP tools\n");
    out.append("// Do not edit manually\n\n");
    out.append("declare namespace ");
    out.append(namespace);
    out.append(" {\n");
    let ghost head = out@;
    let mut i: usize = 0;
    while i < tools.len()
        invariant
            0 <= i <= tools.len(),
            tv == tools_view(tools@),
            out@ == head + tools_text(tv.subrange(0, i as int)),
        decreases tools.len() - i,
    {
        let block = tool_block(&tools[i]);
        out.append(block.as_str());
        assert(tv.subrange(0, i + 1).drop_last() =~= tv.subrange(0, i as int));
        i += 1;
    }
    assert(tv.subrange(0, tools.len() as int) =~= tv);
    out.append("}\n");
    out
}

} // verus!
