//! JSON-RPC 2.0 messages and the MCP types carried in them.
use vstd::prelude::*;
use vstd::string::StringExecFns;

verus! {

pub const PARSE_ERROR: i32 = -32700;

pub const INVALID_REQUEST: i32 = -32600;

pub const METHOD_NOT_FOUND: i32 = -32601;

pub const INVALID_PARAMS: i32 = -32602;

pub const INTERNAL_ERROR: i32 = -32603;

/// The id of a request: a number or a string.
#[derive(Debug, Clone, PartialEq, Eq)]
pub enum JsonRpcId {
    Number(i64),
    String(String),
}

impl From<i64> for JsonRpcId {
    fn from(n: i64) -> (r: JsonRpcId) {
        JsonRpcId::Number(n)
    }
}

impl vstd::std_specs::convert::FromSpecImpl<i64> for JsonRpcId {
    open spec fn obeys_from_spec() -> bool {
        true
    }

    open spec fn from_spec(v: i64) -> JsonRpcId {
        JsonRpcId::Number(v)
    }
}

impl From<&str> for JsonRpcId {
    fn from(s: &str) -> (r: JsonRpcId) {
        JsonRpcId::String(String::from_str(s))
    }
}

impl vstd::std_specs::convert::FromSpecImpl<&str> for JsonRpcId {
    open spec fn obeys_from_spec() -> bool {
        false
    }

    open spec fn from_spec(v: &str) -> JsonRpcId {
        JsonRpcId::Number(0)
    }
}

impl From<String> for JsonRpcId {
    fn from(s: String) -> (r: JsonRpcId) {
        JsonRpcId::String(s)
    }
}

impl vstd::std_specs::convert::FromSpecImpl<String> for JsonRpcId {
    open spec fn obeys_from_spec() -> bool {
        true
    }

    open spec fn from_spec(v: String) -> JsonRpcId {
        JsonRpcId::String(v)
    }
}

/// A request, or a notification when it has no id.
#[derive(Debug, Clone)]
pub struct JsonRpcRequest {
    pub jsonrpc: String,
    pub id: Option<JsonRpcId>,
    pub method: String,
    pub params: Option<serde_json::Value>,
}

impl JsonRpcRequest {
    pub fn new(method: &str, id: Option<JsonRpcId>) -> (r: JsonRpcRequest)
        ensures
            r.jsonrpc@ == "2.0"@,
            r.id == id,
            r.method@ == method@,
            r.params is None,
    {
        JsonRpcRequest {
            jsonrpc: String::from_str("2.0"),
            id,
            method: String::from_str(method),
            params: None,
        }
    }

    pub fn with_params(self, params: serde_json::Value) -> (r: JsonRpcRequest)
        ensures
            r.jsonrpc == self.jsonrpc,
            r.id == self.id,
            r.method == self.method,
            r.params == Some(params),
    {
        JsonRpcRequest { params: Some(params), ..self }
    }

    /// A request without an id is a notification and gets no response.
    pub fn is_notification(&self) -> (r: bool)
        ensures
            r == self.id is None,
    {
        self.id.is_none()
    }
}

/// An error object.
#[derive(Debug, Clone)]
pub struct JsonRpcError {
    pub code: i32,
    pub message: String,
    pub data: Option<serde_json::Value>,
}

impl JsonRpcError {
    pub fn new(code: i32, message: &str) -> (r: JsonRpcError)
        ensures
            r.code == code,
            r.message@ == message@,
            r.data is None,
    {
        JsonRpcError { code, message: String::from_str(message), data: None }
    }

    pub fn with_data(self, data: serde_json::Value) -> (r: JsonRpcError)
        ensures
            r.code == self.code,
            r.message == self.message,
            r.data == Some(data),
    {
        JsonRpcError { data: Some(data), ..self }
    }

    pub fn parse_error() -> (r: JsonRpcError)
        ensures
            r.code == PARSE_ERROR,
            r.message@ == "Parse error"@,
    {
        JsonRpcError::new(PARSE_ERROR, "Parse error")
    }

    pub fn invalid_request() -> (r: JsonRpcError)
        ensures
            r.code == INVALID_REQUEST,
            r.message@ == "Invalid Request"@,
    {
        JsonRpcError::new(INVALID_REQUEST, "Invalid Request")
    }

    pub fn method_not_found(method: &str) -> (r: JsonRpcError)
        ensures
            r.code == METHOD_NOT_FOUND,
            r.message@ == "Method not found: "@ + method@,
    {
        let mut m = String::from_str("Method not found: ");
        m.append(method);
        JsonRpcError { code: METHOD_NOT_FOUND, message: m, data: None }
    }

    pub fn invalid_params(message: &str) -> (r: JsonRpcError)
        ensures
            r.code == INVALID_PARAMS,
            r.message@ == message@,
    {
        JsonRpcError::new(INVALID_PARAMS, message)
    }

    pub fn internal_error(message: &str) -> (r: JsonRpcError)
        ensures
            r.code == INTERNAL_ERROR,
            r.message@ == message@,
    {
        JsonRpcError::new(INTERNAL_ERROR, message)
    }
}

/// A response: exactly one of `result` and `error` is present.
#[derive(Debug, Clone)]
pub struct JsonRpcResponse {
    pub jsonrpc: String,
    pub id: Option<JsonRpcId>,
    pub result: Option<serde_json::Value>,
    pub error: Option<JsonRpcError>,
}

impl JsonRpcResponse {
    pub fn success(id: Option<JsonRpcId>, result: serde_json::Value) -> (r: JsonRpcResponse)
        ensures
            r.jsonrpc@ == "2.0"@,
            r.id == id,
            r.result == Some(result),
            r.error is None,
    {
        JsonRpcResponse { jsonrpc: String::from_str("2.0"), id, result: Some(result), error: None }
    }

    pub fn error(id: Option<JsonRpcId>, error: JsonRpcError) -> (r: JsonRpcResponse)
        ensures
            r.jsonrpc@ == "2.0"@,
            r.id == id,
            r.result is None,
            r.error == Some(error),
    {
        JsonRpcResponse { jsonrpc: String::from_str("2.0"), id, result: None, error: Some(error) }
    }

    pub fn is_error(&self) -> (r: bool)
        ensures
            r == self.error is Some,
    {
        self.error.is_some()
    }
}

/// A message that expects no response.
#[derive(Debug, Clone)]
pub struct JsonRpcNotification {
    pub jsonrpc: String,
    pub method: String,
    pub params: Option<serde_json::Value>,
}

impl JsonRpcNotification {
    pub fn new(method: &str) -> (r: JsonRpcNotification)
        ensures
            r.jsonrpc@ == "2.0"@,
            r.method@ == method@,
            r.params is None,
    {
        JsonRpcNotification {
            jsonrpc: String::from_str("2.0"),
            method: String::from_str(method),
            params: None,
        }
    }

    pub fn with_params(self, params: serde_json::Value) -> (r: JsonRpcNotification)
        ensures
            r.jsonrpc == self.jsonrpc,
            r.method == self.method,
            r.params == Some(params),
    {
        JsonRpcNotification { params: Some(params), ..self }
    }
}

#[derive(Debug, Clone)]
pub struct ServerInfo {
    pub name: String,
    pub version: String,
}

#[derive(Debug, Clone, Copy)]
pub struct ToolsCapability {
    pub list_changed: Option<bool>,
}

#[derive(Debug, Clone, Copy)]
pub struct ServerCapabilities {
    pub tools: Option<ToolsCapability>,
}

/// What `initialize` answers.
#[derive(Debug, Clone)]
pub struct InitializeResult {
    pub protocol_version: String,
    pub capabilities: ServerCapabilities,
    pub server_info: ServerInfo,
}

impl InitializeResult {
    /// Protocol 2024-11-05, the tools capability, and this server's name.
    pub fn default_result() -> (r: InitializeResult)
        ensures
            r.protocol_version@ == "2024-11-05"@,
            r.capabilities.tools is Some,
            r.server_info.name@ == "tetrad"@,
    {
        InitializeResult {
            protocol_version: String::from_str("2024-11-05"),
            capabilities: ServerCapabilities { tools: Some(ToolsCapability { list_changed: None }) },
            server_info: ServerInfo {
                name: String::from_str("tetrad"),
                version: String::from_str("0.1.0"),
            },
        }
    }
}

/// One piece of tool output.
#[derive(Debug, Clone)]
pub enum ToolContent {
    Text { text: String },
}

impl ToolContent {
    pub fn text(text: &str) -> (r: ToolContent)
        ensures
            r matches ToolContent::Text { text: t } && t@ == text@,
    {
        ToolContent::Text { text: String::from_str(text) }
    }
}

/// What a tool call returns.
#[derive(Debug, Clone)]
pub struct ToolResult {
    pub content: Vec<ToolContent>,
    pub is_error: bool,
}

impl ToolResult {
    pub fn success(text: &str) -> (r: ToolResult)
        ensures
            !r.is_error,
            r.content@.len() == 1,
            r.content@[0] matches ToolContent::Text { text: t } && t@ == text@,
    {
        let mut content: Vec<ToolContent> = Vec::new();
        content.push(ToolContent::text(text));
        ToolResult { content, is_error: false }
    }

    pub fn error(message: &str) -> (r: ToolResult)
        ensures
            r.is_error,
            r.content@.len() == 1,
            r.content@[0] matches ToolContent::Text { text: t } && t@ == message@,
    {
        let mut content: Vec<ToolContent> = Vec::new();
        content.push(ToolContent::text(message));
        ToolResult { content, is_error: true }
    }
}

} // verus!
