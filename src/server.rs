//! The MCP server's decisions: which method a request names, the lifecycle
//! state, and the response envelope. The host performs the tool calls.
use vstd::prelude::*;
use vstd::string::StringExecFns;
use crate::parser::{json_as_str, json_clone, json_get};
use crate::protocol::{JsonRpcError, JsonRpcId, JsonRpcRequest, JsonRpcResponse};
use crate::text::{chars_of, eq_chars};

verus! {

/// What the host must do for one request.
pub enum Step {
    /// Answer with the initialize result.
    Initialize,
    /// Acknowledge the `initialized` notification.
    Initialized,
    /// Answer `null`.
    Shutdown,
    /// Answer with the tool directory.
    ListTools,
    /// Run the named tool on its arguments.
    CallTool { name: String, arguments: Option<serde_json::Value> },
    /// Answer with this error.
    Fail(JsonRpcError),
}

/// The lifecycle step a method name selects.
pub open spec fn method_step(m: Seq<char>) -> int {
    if m == "initialize"@ {
        0
    } else if m == "initialized"@ {
        1
    } else if m == "shutdown"@ {
        2
    } else if m == "tools/list"@ {
        3
    } else if m == "tools/call"@ {
        4
    } else {
        5
    }
}

pub open spec fn step_index(s: Step) -> int {
    match s {
        Step::Initialize => 0,
        Step::Initialized => 1,
        Step::Shutdown => 2,
        Step::ListTools => 3,
        Step::CallTool { .. } => 4,
        Step::Fail(_) => 5,
    }
}

/// The lifecycle state of the server.
pub struct McpServer {
    initialized: bool,
}

impl McpServer {
    pub closed spec fn is_initialized_spec(&self) -> bool {
        self.initialized
    }

    pub fn new() -> (r: McpServer)
        ensures
            !r.is_initialized_spec(),
    {
        McpServer { initialized: false }
    }

    pub fn is_initialized(&self) -> (r: bool)
        ensures
            r == self.is_initialized_spec(),
    {
        self.initialized
    }

    /// Decides what a request needs. `initialize` marks the server
    /// initialized and `shutdown` marks it un-initialized; unknown methods
    /// fail with method-not-found and a `tools/call` without parameters
    /// or without a tool name fails with invalid-params.
    pub fn step(&mut self, request: &JsonRpcRequest) -> (r: Step)
        ensures
            method_step(request.method@) == 4 ==> (step_index(r) == 4 || (r matches Step::Fail(e)
                && e.code == crate::protocol::INVALID_PARAMS)),
            method_step(request.method@) != 4 ==> step_index(r) == method_step(request.method@),
            method_step(request.method@) == 5 ==> (r matches Step::Fail(e) && e.code
                == crate::protocol::METHOD_NOT_FOUND),
            final(self).is_initialized_spec() == if method_step(request.method@) == 0 {
                true
            } else if method_step(request.method@) == 2 {
                false
            } else {
                old(self).is_initialized_spec()
            },
    {
        let m = chars_of(request.method.as_str());
        if eq_chars(&m, "initialize") {
            self.initialized = true;
            Step::Initialize
        } else if eq_chars(&m, "initialized") {
            Step::Initialized
        } else if eq_chars(&m, "shutdown") {
            self.initialized = false;
            Step::Shutdown
        } else if eq_chars(&m, "tools/list") {
            Step::ListTools
        } else if eq_chars(&m, "tools/call") {
            match &request.params {
                None => Step::Fail(JsonRpcError::invalid_params("Missing params")),
                Some(p) => match json_get(p, "name") {
                    Some(n) => match json_as_str(n) {
                        Some(name) => {
                            let arguments = match json_get(p, "arguments") {
                                Some(a) => Some(json_clone(a)),
                                None => None,
                            };
                            Step::CallTool { name, arguments }
                        },
                        None => Step::Fail(
                            JsonRpcError::invalid_params("Invalid params: name must be a string"),
                        ),
                    },
                    None => Step::Fail(JsonRpcError::invalid_params("Invalid params: missing name")),
                },
            }
        } else {
            Step::Fail(JsonRpcError::method_not_found(request.method.as_str()))
        }
    }
}

/// The response envelope for a handled request: none for a notification;
/// otherwise one with the request's id, version `"2.0"`, and either the
/// result or the error.
pub fn respond(id: &Option<JsonRpcId>, body: Result<serde_json::Value, JsonRpcError>) -> (r: Option<
    JsonRpcResponse,
>)
    ensures
        id is None <==> r is None,
        r matches Some(resp) ==> resp.id == *id && resp.jsonrpc@ == "2.0"@ && match body {
            Ok(v) => resp.result == Some(v) && resp.error is None,
            Err(e) => resp.error == Some(e) && resp.result is None,
        },
{
    match id {
        None => None,
        Some(i) => {
            let own = Some(clone_id(i));
            match body {
                Ok(v) => Some(JsonRpcResponse::success(own, v)),
                Err(e) => Some(JsonRpcResponse::error(own, e)),
            }
        },
    }
}

fn clone_id(i: &JsonRpcId) -> (r: JsonRpcId)
    ensures
        r == *i,
{
    match i {
        JsonRpcId::Number(n) => JsonRpcId::Number(*n),
        JsonRpcId::String(s) => JsonRpcId::String(s.clone()),
    }
}

} // verus!
