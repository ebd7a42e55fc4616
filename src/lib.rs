//! A Model Context Protocol adapter core: a JSON value model, the schema to
//! typed-interface transducer, the tool catalogue with its execute-code tool,
//! and the pieces of the script bridge that compute.

pub mod catalogue;
pub mod config;
pub mod json;
pub mod response;
pub mod runtime;
pub mod text;
pub mod tool;
pub mod typescript;

pub use catalogue::{Catalogue, CallRoute};
pub use config::{CodeModeConfig, CodeModeExposure};
pub use json::JsonValue;
pub use response::{call_response, json_to_content, response_content, ResponsePart};
pub use runtime::{format_call_result, ExecutionResult, ScriptReply, ToolContent};
pub use tool::ToolDescriptor;
pub use typescript::{generate_typescript_interface, json_schema_to_typescript, to_pascal_case};
