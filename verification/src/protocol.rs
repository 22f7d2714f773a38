//! Protocol-facing message shapes: JSON-RPC envelopes and the typed
//! request and response bodies of the host's methods. Dynamic payloads
//! are carried in the library's own JSON model.

use vstd::prelude::*;
use crate::jsonval::Json;
use vstd::string::StringExecFns;

verus! {

/// A JSON-RPC request envelope.
#[derive(Debug)]
pub struct JsonRpcRequest {
    pub jsonrpc: String,
    pub id: Option<Json>,
    pub method: String,
    pub params: Option<Json>,
}

/// A JSON-RPC response envelope.
#[derive(Debug)]
pub struct JsonRpcResponse {
    pub jsonrpc: String,
    pub id: Option<Json>,
    pub result: Option<Json>,
    pub error: Option<JsonRpcError>,
}

/// A JSON-RPC error body.
#[derive(Debug)]
pub struct JsonRpcError {
    pub code: i32,
    pub message: String,
    pub data: Option<Json>,
}

impl JsonRpcResponse {
    /// A successful response carrying a result and no error.
    pub fn success(id: Option<Json>, result: Json) -> (r: Self)
        ensures
            r.jsonrpc@ == "2.0"@,
            r.id == id,
            r.result matches Some(j) && j@ == result@,
            r.error is None,
    {
        JsonRpcResponse { jsonrpc: "2.0".to_owned(), id, result: Some(result), error: None }
    }

    /// An error response carrying a code and message and no result.
    pub fn error(id: Option<Json>, code: i32, message: String) -> (r: Self)
        ensures
            r.jsonrpc@ == "2.0"@,
            r.id == id,
            r.result is None,
            r.error matches Some(e) && e.code == code && e.message@ == message@ && e.data
                is None,
    {
        JsonRpcResponse {
            jsonrpc: "2.0".to_owned(),
            id,
            result: None,
            error: Some(JsonRpcError { code, message, data: None }),
        }
    }
}

/// Client identification at initialization.
#[derive(Debug, Clone)]
pub struct ClientInfo {
    pub name: String,
    pub version: String,
}

/// The server's reply to initialization.
#[derive(Debug)]
pub struct InitializeResult {
    pub protocol_version: String,
    pub capabilities: ServerCapabilities,
    pub server_info: ServerInfo,
}

/// What the server offers.
#[derive(Debug)]
pub struct ServerCapabilities {
    pub resources: Option<ResourcesCapability>,
    pub tools: Option<ToolsCapability>,
    pub prompts: Option<PromptsCapability>,
}

/// Resource capability flags.
#[derive(Debug, Clone, Copy, PartialEq, Eq, Structural)]
pub struct ResourcesCapability {
    pub subscribe: bool,
    pub list_changed: bool,
}

/// Tool capability flags.
#[derive(Debug, Clone, Copy, PartialEq, Eq, Structural)]
pub struct ToolsCapability {
    pub list_changed: bool,
}

/// Prompt capability flags.
#[derive(Debug, Clone, Copy, PartialEq, Eq, Structural)]
pub struct PromptsCapability {
    pub list_changed: bool,
}

/// Server identification.
#[derive(Debug, Clone)]
pub struct ServerInfo {
    pub name: String,
    pub version: String,
}

/// A resource listing.
#[derive(Debug)]
pub struct ResourceListResult {
    pub resources: Vec<ResourceInfo>,
}

/// One listed resource.
#[derive(Debug, Clone)]
pub struct ResourceInfo {
    pub uri: String,
    pub name: String,
    pub description: Option<String>,
    pub mime_type: Option<String>,
}

/// Parameters of a resource read.
#[derive(Debug, Clone)]
pub struct ReadResourceParams {
    pub uri: String,
}

/// A tool listing.
#[derive(Debug)]
pub struct ToolListResult {
    pub tools: Vec<ToolInfo>,
}

/// One listed tool.
#[derive(Debug)]
pub struct ToolInfo {
    pub name: String,
    pub description: String,
    pub input_schema: Json,
}

/// The result of a tool call.
#[derive(Debug)]
pub struct CallToolResult {
    pub content: Vec<ToolContent>,
    pub is_error: Option<bool>,
}

/// One block of a tool call's content.
#[derive(Debug, Clone)]
pub struct ToolContent {
    pub content_type: String,
    pub text: String,
}

/// A prompt listing.
#[derive(Debug)]
pub struct PromptListResult {
    pub prompts: Vec<PromptInfo>,
}

/// One listed prompt.
#[derive(Debug, Clone)]
pub struct PromptInfo {
    pub name: String,
    pub description: Option<String>,
    pub arguments: Option<Vec<PromptArgument>>,
}

/// One declared prompt argument.
#[derive(Debug, Clone)]
pub struct PromptArgument {
    pub name: String,
    pub description: Option<String>,
    pub required: Option<bool>,
}

/// The result of fetching a prompt.
#[derive(Debug)]
pub struct GetPromptResult {
    pub messages: Vec<PromptMessage>,
    pub description: Option<String>,
}

/// One message of a prompt.
#[derive(Debug, Clone)]
pub struct PromptMessage {
    pub role: String,
    pub content: PromptContent,
}

/// The content block of a prompt message.
#[derive(Debug, Clone)]
pub struct PromptContent {
    pub content_type: String,
    pub text: String,
}

/// What a connector offers.
#[derive(Debug, Clone, Copy, PartialEq, Eq, Structural)]
pub struct ConnectorCapabilities {
    pub resources: bool,
    pub resources_subscribe: bool,
    pub tools: bool,
    pub prompts: bool,
}

impl Default for ConnectorCapabilities {
    /// Everything switched on.
    fn default() -> (r: Self)
        ensures
            r.resources && r.resources_subscribe && r.tools && r.prompts,
    {
        ConnectorCapabilities {
            resources: true,
            resources_subscribe: true,
            tools: true,
            prompts: true,
        }
    }
}

} // verus!
