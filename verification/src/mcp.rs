//! The decisions of the Model Context Protocol server: which request a
//! JSON-RPC method names and which tool a `tools/call` asks for. The server
//! loop, which reads requests and writes responses, runs around them.

use crate::text::str_eq;
use vstd::prelude::*;

verus! {

/// The requests the server tells apart by their `method`.
#[derive(Debug, Clone, Copy, PartialEq, Eq, Structural)]
pub enum McpMethod {
    Initialize,
    ToolsList,
    ToolsCall,
    /// `notifications/initialized`, which gets no response.
    Initialized,
    Unknown,
}

/// The request named by `method`.
pub open spec fn method_of(method: Seq<char>) -> McpMethod {
    if method == "initialize"@ {
        McpMethod::Initialize
    } else if method == "tools/list"@ {
        McpMethod::ToolsList
    } else if method == "tools/call"@ {
        McpMethod::ToolsCall
    } else if method == "notifications/initialized"@ {
        McpMethod::Initialized
    } else {
        McpMethod::Unknown
    }
}

/// The request named by a JSON-RPC `method`.
pub fn classify_method(method: &str) -> (r: McpMethod)
    ensures
        r == method_of(method@),
{
    if str_eq(method, "initialize") {
        McpMethod::Initialize
    } else if str_eq(method, "tools/list") {
        McpMethod::ToolsList
    } else if str_eq(method, "tools/call") {
        McpMethod::ToolsCall
    } else if str_eq(method, "notifications/initialized") {
        McpMethod::Initialized
    } else {
        McpMethod::Unknown
    }
}

/// Whether a request of this kind is answered (notifications are not).
pub fn needs_response(m: McpMethod) -> (r: bool)
    ensures
        r == (m != McpMethod::Initialized),
{
    match m {
        McpMethod::Initialized => false,
        _ => true,
    }
}

/// The tools the server offers.
#[derive(Debug, Clone, Copy, PartialEq, Eq, Structural)]
pub enum McpTool {
    ScanProject,
    ListChecks,
    CheckFile,
    Unknown,
}

/// The tool named `name`.
pub open spec fn tool_of(name: Seq<char>) -> McpTool {
    if name == "scan_project"@ {
        McpTool::ScanProject
    } else if name == "list_checks"@ {
        McpTool::ListChecks
    } else if name == "check_file"@ {
        McpTool::CheckFile
    } else {
        McpTool::Unknown
    }
}

/// The tool that a `tools/call` names.
pub fn classify_tool(name: &str) -> (r: McpTool)
    ensures
        r == tool_of(name@),
{
    if str_eq(name, "scan_project") {
        McpTool::ScanProject
    } else if str_eq(name, "list_checks") {
        McpTool::ListChecks
    } else if str_eq(name, "check_file") {
        McpTool::CheckFile
    } else {
        McpTool::Unknown
    }
}

/// The JSON-RPC errors the server answers with.
#[derive(Debug, Clone, Copy, PartialEq, Eq, Structural)]
pub enum RpcError {
    /// The request line is not valid JSON.
    Parse,
    /// The request names a method the server does not offer.
    MethodNotFound,
    /// A `tools/call` names a tool the server does not offer.
    UnknownTool,
}

/// The JSON-RPC error code of `e`.
pub open spec fn code_of(e: RpcError) -> int {
    match e {
        RpcError::Parse => -32700,
        RpcError::MethodNotFound => -32601,
        RpcError::UnknownTool => -32602,
    }
}

/// The JSON-RPC error code of `e`.
pub fn error_code(e: RpcError) -> (r: i64)
    ensures
        r == code_of(e),
{
    match e {
        RpcError::Parse => -32700,
        RpcError::MethodNotFound => -32601,
        RpcError::UnknownTool => -32602,
    }
}

/// The message of error `e` about `detail`: the parse error's text, the
/// method's name or the tool's name.
pub open spec fn message_of(e: RpcError, detail: Seq<char>) -> Seq<char> {
    match e {
        RpcError::Parse => "Parse error: "@ + detail,
        RpcError::MethodNotFound => "Method not found: "@ + detail,
        RpcError::UnknownTool => "Unknown tool: "@ + detail,
    }
}

/// The message of error `e` about `detail`.
pub fn error_message(e: RpcError, detail: &str) -> (r: String)
    ensures
        r@ == message_of(e, detail@),
{
    let mut m = String::new();
    match e {
        RpcError::Parse => m.append("Parse error: "),
        RpcError::MethodNotFound => m.append("Method not found: "),
        RpcError::UnknownTool => m.append("Unknown tool: "),
    }
    m.append(detail);
    m
}

} // verus!
