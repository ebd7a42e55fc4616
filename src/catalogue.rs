//! The adapter's tool catalogue: the filtered downstream tools, their typed
//! interface, the execute-code tool, and how a call is routed.

use vstd::prelude::*;

use crate::config::{CodeModeConfig, CodeModeExposure, ConfigModel};
use crate::json::{
    items_view, lemma_items_view, lemma_members_view, lookup, member, members_view, str_of, Json,
    JsonValue,
};
use crate::text::{owned, text_eq, texts};
use crate::tool::{names_of, tools_view, ToolDescriptor, ToolModel};
use crate::typescript::{generate_typescript_interface, interface_text};

verus! {

/// The namespace of the typed interface.
pub const TOOLS_NAMESPACE: &'static str = "tools";

/// The caption of the execute-code tool's `code` parameter.
pub const CODE_DESCRIPTION: &'static str = "JavaScript code to execute. The code has access to a `tools` object with synchronous functions for each tool. The last expression is returned. IMPORTANT: Semicolons are required after statements, and object literals must be wrapped in parentheses: ({key: value});";

/// The JSON Schema dialect of the execute-code tool's input schema.
pub const SCHEMA_DIALECT: &'static str = "https://json-schema.org/draft/2020-12/schema";

/// The section appended to the execute-code tool's description, before the
/// typed interface.
pub const INTERFACE_INTRO: &'static str = "\n\n## Available Tools (synchronous)\n\n```typescript\n";

/// The section appended to the execute-code tool's description, after the
/// typed interface.
pub const INTERFACE_OUTRO: &'static str = "\n```\n\n## Notes\n\n- All tool calls are synchronous (no async/await needed)\n- Use console.log(value) to debug - logs are returned in the result";

/// The message of the error for an execute-code call without a string
/// `code` argument.
pub const MISSING_CODE_MESSAGE: &'static str = "Missing 'code' parameter";

/// The instructions that the proxy announces.
pub const PROXY_INSTRUCTIONS: &'static str = "This proxy adds code-mode capability. Use the execute_tools tool to write JavaScript that calls multiple tools.";

/// A wrapped server's instructions, followed by a note that points at the
/// execute-code tool.
pub open spec fn instructions_text(inner: Seq<char>, tool_name: Seq<char>) -> Seq<char> {
    inner + "\n\nThis server has code-mode enabled. Use the "@ + tool_name
        + " tool to write JavaScript that calls multiple tools."@
}

/// Whether a tool named `name` passes the allow-list `allow_list`.
pub open spec fn allowed(allow_list: Option<Seq<Seq<char>>>, name: Seq<char>) -> bool {
    match allow_list {
        Some(names) => names.contains(name),
        None => true,
    }
}

/// The tools of `tools` that pass the allow-list, in order.
pub open spec fn filtered(allow_list: Option<Seq<Seq<char>>>, tools: Seq<ToolModel>) -> Seq<ToolModel> {
    tools.filter(|t: ToolModel| allowed(allow_list, t.name))
}

/// The execute-code tool's description: the base description, followed by
/// the typed interface where one is known.
pub open spec fn execute_description(base: Seq<char>, iface: Seq<char>) -> Seq<char> {
    if iface.len() == 0 {
        base
    } else {
        base + INTERFACE_INTRO@ + iface + INTERFACE_OUTRO@
    }
}

/// The execute-code tool's input schema: one required string property
/// `code`.
pub open spec fn code_schema() -> Seq<(Seq<char>, Json)> {
    seq![
        ("$schema"@, Json::Str(SCHEMA_DIALECT@)),
        ("title"@, Json::Str("ExecuteCodeParams"@)),
        ("type"@, Json::Str("object"@)),
        ("properties"@, Json::Object(
            seq![
                ("code"@, Json::Object(
                    seq![
                        ("description"@, Json::Str(CODE_DESCRIPTION@)),
                        ("type"@, Json::Str("string"@)),
                    ],
                )),
            ],
        )),
        ("required"@, Json::Array(seq![Json::Str("code"@)])),
    ]
}

/// The execute-code tool of a configuration, given the typed interface.
pub open spec fn execute_tool_model(c: ConfigModel, iface: Seq<char>) -> ToolModel {
    ToolModel {
        name: c.tool_name,
        description: Some(execute_description(c.tool_description, iface)),
        input_schema: code_schema(),
        output_schema: None,
        extra: Seq::empty(),
    }
}

/// The mathematical model of a catalogue.
pub struct CatalogueModel {
    pub config: ConfigModel,
    /// The cached, filtered downstream tools.
    pub tools: Seq<ToolModel>,
    /// The cached typed interface; empty until the first fetch.
    pub interface: Seq<char>,
    /// Whether the downstream list has been fetched.
    pub fetched: bool,
}

/// A catalogue after the downstream list `downstream` has been fetched: the
/// filtered list and its typed interface replace the cache together.
pub open spec fn stored(c: CatalogueModel, downstream: Seq<ToolModel>) -> CatalogueModel {
    let tools = filtered(c.config.include_tools, downstream);
    CatalogueModel {
        config: c.config,
        tools,
        interface: interface_text(tools, TOOLS_NAMESPACE@),
        fetched: true,
    }
}

/// The tools that a catalogue lists: the cached tools in `Add` mode, none in
/// `ReplaceTools` mode, then the execute-code tool.
pub open spec fn listing(c: CatalogueModel) -> Seq<ToolModel> {
    let exec = execute_tool_model(c.config, c.interface);
    match c.config.mode {
        CodeModeExposure::ReplaceTools => seq![exec],
        CodeModeExposure::Add => c.tools.push(exec),
    }
}

/// The `code` argument of a call, where it is a string.
pub open spec fn code_arg(args: Option<Seq<(Seq<char>, Json)>>) -> Option<Seq<char>> {
    match args {
        Some(ms) => str_of(lookup(ms, "code"@)),
        None => None,
    }
}

/// Where a tool call goes.
#[derive(Debug, PartialEq)]
pub enum CallRoute {
    /// Run the code with the execute-code tool.
    Execute(String),
    /// An execute-code call without a string `code` argument.
    InvalidParams,
    /// Hand the call to the downstream unchanged.
    Forward,
}

/// The filtered downstream tools and their typed interface, cached, with
/// the configuration that decides what is listed.
#[derive(Debug)]
pub struct Catalogue {
    config: CodeModeConfig,
    tools: Vec<ToolDescriptor>,
    interface: String,
    fetched: bool,
}

impl View for Catalogue {
    type V = CatalogueModel;

    closed spec fn view(&self) -> CatalogueModel {
        CatalogueModel {
            config: self.config@,
            tools: tools_view(self.tools@),
            interface: self.interface@,
            fetched: self.fetched,
        }
    }
}

impl Catalogue {
    /// Until the first fetch the cache is empty; after it, the cache holds
    /// a filtered list with the typed interface generated from it.
    pub open spec fn wf(&self) -> bool {
        if self@.fetched {
            self@.interface == interface_text(self@.tools, TOOLS_NAMESPACE@)
        } else {
            self@.tools.len() == 0 && self@.interface.len() == 0
        }
    }

    /// A catalogue with nothing cached yet.
    pub fn new(config: CodeModeConfig) -> (r: Catalogue)
        ensures
            r@ == (CatalogueModel {
                config: config@,
                tools: Seq::empty(),
                interface: Seq::empty(),
                fetched: false,
            }),
            r.wf(),
    {
        let r = Catalogue { config, tools: Vec::new(), interface: String::new(), fetched: false };
        assert(tools_view(r.tools@) =~= Seq::empty());
        r
    }

    /// The configuration.
    pub fn config(&self) -> (r: &CodeModeConfig)
        ensures
            r@ == self@.config,
    {
        &self.config
    }

    /// Whether a tool named `name` passes the configured allow-list.
    pub fn includes(&self, name: &str) -> (r: bool)
        ensures
            r == allowed(self@.config.include_tools, name@),
    {
        match &self.config.include_tools {
            Some(names) => {
                let mut i: usize = 0;
                while i < names.len()
                    invariant
                        0 <= i <= names.len(),
                        self@.config.include_tools == Some(texts(names@)),
                        forall|k: int| 0 <= k < i ==> names@[k]@ != name@,
                    decreases names.len() - i,
                {
                    if text_eq(names[i].as_str(), name) {
                        assert(texts(names@)[i as int] == name@);
                        return true;
                    }
                    i += 1;
                }
                assert(!texts(names@).contains(name@)) by {
                    assert forall|k: int| 0 <= k < texts(names@).len() implies texts(names@)[k]
                        != name@ by {
                        assert(texts(names@)[k] == names@[k]@);
                    }
                }
                false
            },
            None => true,
        }
    }

    /// The tools of `tools` that pass the configured allow-list, in order.
    pub fn filter_tools(&self, tools: Vec<ToolDescriptor>) -> (r: Vec<ToolDescriptor>)
        ensures
            tools_view(r@) == filtered(self@.config.include_tools, tools_view(tools@)),
    {
        let ghost tv = tools_view(tools@);
        let ghost pred = |t: ToolModel| allowed(self@.config.include_tools, t.name);
        proof {
            reveal(Seq::filter);
        }
        let mut r: Vec<ToolDescriptor> = Vec::new();
        let mut i: usize = 0;
        while i < tools.len()
            invariant
                0 <= i <= tools.len(),
                tv == tools_view(tools@),
                pred == (|t: ToolModel| allowed(self@.config.include_tools, t.name)),
                tools_view(r@) == tv.subrange(0, i as int).filter(pred),
            decreases tools.len() - i,
        {
            let ghost before = r@;
            let ghost cur = tv.subrange(0, i + 1);
            proof {
                reveal(Seq::filter);
            }
            assert(cur.drop_last() =~= tv.subrange(0, i as int));
            assert(cur.last() == tv[i as int]);
            assert(tv[i as int] == tools@[i as int]@);
            assert(cur.filter(pred) == (if pred(tv[i as int]) {
                tv.subrange(0, i as int).filter(pred).push(tv[i as int])
            } else {
                tv.subrange(0, i as int).filter(pred)
            }));
            let keep = self.includes(tools[i].name.as_str());
            if keep {
                let t = tools[i].copy();
                r.push(t);
                assert(tools_view(r@) =~= tools_view(before).push(tv[i as int]));
            }
            i += 1;
        }
        assert(tv.subrange(0, tools.len() as int) =~= tv);
        r
    }

    /// Replaces the cache by the filtered `downstream` list and its typed
    /// interface.
    pub fn store(&mut self, downstream: Vec<ToolDescriptor>)
        ensures
            final(self)@ == stored(old(self)@, tools_view(downstream@)),
            final(self).wf(),
    {
        let kept = self.filter_tools(downstream);
        let iface = generate_typescript_interface(kept.as_slice(), TOOLS_NAMESPACE);
        self.tools = kept;
        self.interface = iface;
        self.fetched = true;
    }

    /// Whether the downstream list has never been fetched, so that an
    /// execute-code call must fetch it first. Once fetched, only a new
    /// listing replaces the cache.
    pub fn needs_tools(&self) -> (r: bool)
        ensures
            r == !self@.fetched,
    {
        !self.fetched
    }

    /// The names of the cached tools: those a script can call.
    pub fn tool_names(&self) -> (r: Vec<String>)
        ensures
            texts(r@) == names_of(self@.tools),
    {
        let ghost tv = tools_view(self.tools@);
        let mut r: Vec<String> = Vec::new();
        let mut i: usize = 0;
        while i < self.tools.len()
            invariant
                0 <= i <= self.tools.len(),
                tv == tools_view(self.tools@),
                r.len() == i,
                texts(r@) =~= names_of(tv).subrange(0, i as int),
            decreases self.tools.len() - i,
        {
            let name = self.tools[i].name.clone();
            let ghost before = r@;
            r.push(name);
            assert(texts(r@) =~= texts(before).push(tv[i as int].name));
            i += 1;
        }
        r
    }

    /// A wrapped server's instructions `inner`, followed by a note that
    /// points at the execute-code tool.
    pub fn instructions(&self, inner: &str) -> (r: String)
        ensures
            r@ == instructions_text(inner@, self@.config.tool_name),
    {
        let mut out = owned(inner);
        out.append("\n\nThis server has code-mode enabled. Use the ");
        out.append(self.config.tool_name.as_str());
        out.append(" tool to write JavaScript that calls multiple tools.");
        out
    }

    /// The cached typed interface.
    pub fn interface(&self) -> (r: &str)
        ensures
            r@ == self@.interface,
    {
        self.interface.as_str()
    }

    /// The execute-code tool, described with the cached typed interface.
    pub fn execute_tool(&self) -> (r: ToolDescriptor)
        ensures
            r@ == execute_tool_model(self@.config, self@.interface),
    {
        let mut description = self.config.tool_description.clone();
        if self.interface.unicode_len() > 0 {
            description.append(INTERFACE_INTRO);
            description.append(self.interface.as_str());
            description.append(INTERFACE_OUTRO);
        }
        let schema = code_schema_value();
        let extra: Vec<(String, JsonValue)> = Vec::new();
        let r = ToolDescriptor {
            name: self.config.tool_name.clone(),
            description: Some(description),
            input_schema: schema,
            output_schema: None,
            extra,
        };
        assert(members_view(extra@) =~= Seq::empty());
        r
    }

    /// Fetched `downstream` replaces the cache; the result is what the
    /// adapter lists: the filtered tools in `Add` mode, none in
    /// `ReplaceTools` mode, then the execute-code tool.
    pub fn list_tools(&mut self, downstream: Vec<ToolDescriptor>) -> (r: Vec<ToolDescriptor>)
        ensures
            final(self)@ == stored(old(self)@, tools_view(downstream@)),
            final(self).wf(),
            tools_view(r@) == listing(final(self)@),
            old(self)@.config.mode == CodeModeExposure::Add ==> r.len() == filtered(
                old(self)@.config.include_tools,
                tools_view(downstream@),
            ).len() + 1,
            old(self)@.config.mode == CodeModeExposure::ReplaceTools ==> r.len() == 1,
    {
        self.store(downstream);
        let exec = self.execute_tool();
        let mut r: Vec<ToolDescriptor> = Vec::new();
        match self.config.mode {
            CodeModeExposure::Add => {
                let mut i: usize = 0;
                while i < self.tools.len()
                    invariant
                        0 <= i <= self.tools.len(),
                        tools_view(r@) =~= tools_view(self.tools@).subrange(0, i as int),
                    decreases self.tools.len() - i,
                {
                    let ghost before = r@;
                    r.push(self.tools[i].copy());
                    assert(tools_view(r@) =~= tools_view(before).push(self.tools@[i as int]@));
                    i += 1;
                }
            },
            CodeModeExposure::ReplaceTools => {},
        }
        let ghost before = r@;
        r.push(exec);
        assert(tools_view(r@) =~= tools_view(before).push(exec@));
        r
    }

    /// Where a call of tool `name` with `arguments` goes: a call of the
    /// execute-code tool runs its string `code` argument, or is refused where
    /// there is none; any other call is forwarded.
    pub fn route(&self, name: &str, arguments: Option<&Vec<(String, JsonValue)>>) -> (r: CallRoute)
        ensures
            match r {
                CallRoute::Execute(code) => name@ == self@.config.tool_name && code_arg(
                    match arguments {
                        Some(ms) => Some(members_view(ms@)),
                        None => None,
                    },
                ) == Some(code@),
                CallRoute::InvalidParams => name@ == self@.config.tool_name && code_arg(
                    match arguments {
                        Some(ms) => Some(members_view(ms@)),
                        None => None,
                    },
                ) is None,
                CallRoute::Forward => name@ != self@.config.tool_name,
            },
    {
        if !text_eq(name, self.config.tool_name.as_str()) {
            return CallRoute::Forward;
        }
        match arguments {
            Some(ms) => match member(ms, "code") {
                Some(v) => match v.as_str() {
                    Some(code) => CallRoute::Execute(owned(code)),
                    None => CallRoute::InvalidParams,
                },
                None => CallRoute::InvalidParams,
            },
            None => CallRoute::InvalidParams,
        }
    }
}

/// Filtering keeps, in their order, exactly the tools whose names pass the
/// allow-list; filtering a second time with the same allow-list changes
/// nothing.
pub proof fn lemma_filter_idempotent(allow_list: Option<Seq<Seq<char>>>, tools: Seq<ToolModel>)
    ensures
        filtered(allow_list, filtered(allow_list, tools)) == filtered(allow_list, tools),
        forall|i: int|
            0 <= i < filtered(allow_list, tools).len() ==> allowed(
                allow_list,
                #[trigger] filtered(allow_list, tools)[i].name,
            ),
        forall|i: int|
            0 <= i < tools.len() && allowed(allow_list, #[trigger] tools[i].name)
                ==> filtered(allow_list, tools).contains(tools[i]),
    decreases tools.len(),
{
    let pred = |t: ToolModel| allowed(allow_list, t.name);
    reveal(Seq::filter);
    assert(filtered(allow_list, tools) == tools.filter(pred));
    tools.filter_lemma(pred);
    if tools.len() > 0 {
        let rest = tools.drop_last();
        lemma_filter_idempotent(allow_list, rest);
        assert(filtered(allow_list, rest) == rest.filter(pred));
        if pred(tools.last()) {
            let once = rest.filter(pred).push(tools.last());
            assert(once.drop_last() =~= rest.filter(pred));
            assert(once.filter(pred) == once.drop_last().filter(pred).push(once.last()));
        }
    }
}

/// Cache coherence: after a listing, an execute-code call needs no fetch,
/// and the tools a script can call are exactly the filtered downstream
/// tools with their schemas; in `Add` mode these are the listed ones other
/// than the final execute-code entry.
pub proof fn lemma_cache_coherence(before: CatalogueModel, downstream: Seq<ToolModel>)
    ensures
        ({
            let after = stored(before, downstream);
            &&& after.fetched
            &&& after.tools == filtered(before.config.include_tools, downstream)
            &&& before.config.mode == CodeModeExposure::Add ==> listing(after).drop_last()
                == after.tools
            &&& before.config.mode == CodeModeExposure::Add ==> names_of(
                listing(after).drop_last(),
            ) == names_of(after.tools)
        }),
{
    let after = stored(before, downstream);
    if before.config.mode == CodeModeExposure::Add {
        assert(listing(after).drop_last() =~= after.tools);
    }
}

/// A JSON string.
fn text_value(s: &str) -> (r: JsonValue)
    ensures
        r@ == Json::Str(s@),
{
    JsonValue::String(owned(s))
}

/// The members of the execute-code tool's input schema.
fn code_schema_value() -> (r: Vec<(String, JsonValue)>)
    ensures
        members_view(r@) == code_schema(),
{
    let mut code: Vec<(String, JsonValue)> = Vec::new();
    code.push((owned("description"), text_value(CODE_DESCRIPTION)));
    code.push((owned("type"), text_value("string")));
    let mut props: Vec<(String, JsonValue)> = Vec::new();
    proof {
        lemma_members_view(code@);
    }
    assert(members_view(code@) =~= seq![
        ("description"@, Json::Str(CODE_DESCRIPTION@)),
        ("type"@, Json::Str("string"@)),
    ]);
    let code_obj = JsonValue::Object(code);
    assert(code_obj@ == Json::Object(
        seq![("description"@, Json::Str(CODE_DESCRIPTION@)), ("type"@, Json::Str("string"@))],
    ));
    props.push((owned("code"), code_obj));
    proof {
        lemma_members_view(props@);
    }
    assert(members_view(props@) =~= seq![
        ("code"@, Json::Object(
            seq![("description"@, Json::Str(CODE_DESCRIPTION@)), ("type"@, Json::Str("string"@))],
        )),
    ]);
    let mut required: Vec<JsonValue> = Vec::new();
    required.push(text_value("code"));
    proof {
        lemma_items_view(required@);
    }
    assert(items_view(required@) =~= seq![Json::Str("code"@)]);
    let mut ms: Vec<(String, JsonValue)> = Vec::new();
    ms.push((owned("$schema"), text_value(SCHEMA_DIALECT)));
    ms.push((owned("title"), text_value("ExecuteCodeParams")));
    ms.push((owned("type"), text_value("object")));
    ms.push((owned("properties"), JsonValue::Object(props)));
    ms.push((owned("required"), JsonValue::Array(required)));
    proof {
        lemma_members_view(ms@);
    }
    assert(members_view(ms@) =~= code_schema());
    ms
}

} // verus!
