//! Adapter configuration.

use vstd::prelude::*;

use crate::text::{owned, texts};

verus! {

/// Which tools the adapter exposes.
#[derive(Clone, Copy, Debug, PartialEq, Eq, Structural)]
pub enum CodeModeExposure {
    /// Only the execute-code tool.
    ReplaceTools,
    /// The downstream tools and the execute-code tool.
    Add,
}

impl Default for CodeModeExposure {
    fn default() -> (r: Self)
        ensures
            r == CodeModeExposure::Add,
    {
        CodeModeExposure::Add
    }
}

/// The name under which the execute-code tool is published by default.
pub const DEFAULT_TOOL_NAME: &'static str = "execute_tools";

/// The base description of the execute-code tool.
pub const DEFAULT_TOOL_DESCRIPTION: &'static str = "Execute JavaScript code with access to MCP tools. The code has access to a `tools` object with synchronous functions for each tool. The last expression is returned as the result. Use `console.log()` to debug.

## Important syntax rules

1. **Semicolons are required** after statements (strict ECMAScript parsing)
2. **Object literals must be wrapped in parentheses** when used as the final expression: `({key: value})`
3. The last expression in the code is automatically returned

## Examples

Query and process data:
```javascript
var items = tools.get_items({});
var total = 0;
for (var i = 0; i < items.length; i++) {
    total += items[i].value;
}
total;
```

Return an object (note the parentheses):
```javascript
var a = tools.add({a: 5, b: 3});
var b = tools.multiply({a: a.result, b: 2});
({sum: a.result, product: b.result});
```

Filter and transform:
```javascript
var items = tools.get_items({}).filter(function(x) { return x.value > 10; });
items.map(function(x) { return x.name; });
```";

/// The mathematical model of a configuration.
pub struct ConfigModel {
    pub mode: CodeModeExposure,
    pub tool_name: Seq<char>,
    pub tool_description: Seq<char>,
    /// The allow-list of downstream tool names, where there is one.
    pub include_tools: Option<Seq<Seq<char>>>,
}

/// How the adapter exposes tools, and under which name the execute-code tool
/// is published.
#[derive(Clone, Debug)]
pub struct CodeModeConfig {
    pub mode: CodeModeExposure,
    pub tool_name: String,
    pub tool_description: String,
    /// Where set, the downstream catalogue is filtered to exactly these names.
    pub include_tools: Option<Vec<String>>,
}

impl View for CodeModeConfig {
    type V = ConfigModel;

    open spec fn view(&self) -> ConfigModel {
        ConfigModel {
            mode: self.mode,
            tool_name: self.tool_name@,
            tool_description: self.tool_description@,
            include_tools: match self.include_tools {
                Some(v) => Some(texts(v@)),
                None => None,
            },
        }
    }
}

impl Default for CodeModeConfig {
    fn default() -> (r: Self)
        ensures
            r@ == (ConfigModel {
                mode: CodeModeExposure::Add,
                tool_name: DEFAULT_TOOL_NAME@,
                tool_description: DEFAULT_TOOL_DESCRIPTION@,
                include_tools: None,
            }),
    {
        CodeModeConfig {
            mode: CodeModeExposure::Add,
            tool_name: owned(DEFAULT_TOOL_NAME),
            tool_description: owned(DEFAULT_TOOL_DESCRIPTION),
            include_tools: None,
        }
    }
}

impl CodeModeConfig {
    /// The default configuration: `Add` mode, the tool named `execute_tools`,
    /// the default description, all downstream tools included.
    pub fn new() -> (r: Self)
        ensures
            r@ == (ConfigModel {
                mode: CodeModeExposure::Add,
                tool_name: DEFAULT_TOOL_NAME@,
                tool_description: DEFAULT_TOOL_DESCRIPTION@,
                include_tools: None,
            }),
    {
        Self::default()
    }

    /// This configuration, exposing only the execute-code tool.
    pub fn replace_tools(self) -> (r: Self)
        ensures
            r@ == (ConfigModel { mode: CodeModeExposure::ReplaceTools, ..self@ }),
    {
        CodeModeConfig { mode: CodeModeExposure::ReplaceTools, ..self }
    }

    /// This configuration, exposing the downstream tools beside the
    /// execute-code tool.
    pub fn add(self) -> (r: Self)
        ensures
            r@ == (ConfigModel { mode: CodeModeExposure::Add, ..self@ }),
    {
        CodeModeConfig { mode: CodeModeExposure::Add, ..self }
    }

    /// This configuration, with the execute-code tool published as `name`.
    pub fn with_tool_name(self, name: &str) -> (r: Self)
        ensures
            r@ == (ConfigModel { tool_name: name@, ..self@ }),
    {
        CodeModeConfig { tool_name: owned(name), ..self }
    }

    /// This configuration, with `desc` as the execute-code tool's base
    /// description.
    pub fn with_description(self, desc: &str) -> (r: Self)
        ensures
            r@ == (ConfigModel { tool_description: desc@, ..self@ }),
    {
        CodeModeConfig { tool_description: owned(desc), ..self }
    }

    /// This configuration, with the downstream catalogue filtered to `tools`.
    pub fn only_tools(self, tools: Vec<String>) -> (r: Self)
        ensures
            r@ == (ConfigModel { include_tools: Some(texts(tools@)), ..self@ }),
    {
        CodeModeConfig { include_tools: Some(tools), ..self }
    }
}

} // verus!
