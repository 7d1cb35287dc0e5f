//! The Model Context Protocol server's dispatch: which JSON-RPC methods it
//! answers and the texts it answers with.
use vstd::prelude::*;
use crate::text::{concat, extend_str, chars_of, string_of, str_eq};

verus! {

/// The server's name.
pub const MCP_SERVER_NAME: &'static str = "bugs";
/// The server's version.
pub const MCP_SERVER_VERSION: &'static str = "0.1.0";
/// The protocol version the server speaks.
pub const MCP_PROTOCOL_VERSION: &'static str = "2025-03-26";
/// The JSON-RPC code of a request that is not valid JSON.
pub const PARSE_ERROR_CODE: i32 = -32700;

/// The methods the server knows.
#[derive(Debug, Clone, Copy, PartialEq, Eq, Structural)]
pub enum McpMethod {
    Initialize,
    ToolsList,
    ToolsCall,
    /// Anything else, answered with an empty result.
    Other,
}

/// The method a request names.
pub open spec fn mcp_method_of(name: Seq<char>) -> McpMethod {
    if name == "initialize"@ {
        McpMethod::Initialize
    } else if name == "tools/list"@ {
        McpMethod::ToolsList
    } else if name == "tools/call"@ {
        McpMethod::ToolsCall
    } else {
        McpMethod::Other
    }
}

/// Reads the method a request names (empty when it names none).
pub fn mcp_method(name: &str) -> (r: McpMethod)
    ensures
        r == mcp_method_of(name@),
{
    if str_eq(name, "initialize") {
        McpMethod::Initialize
    } else if str_eq(name, "tools/list") {
        McpMethod::ToolsList
    } else if str_eq(name, "tools/call") {
        McpMethod::ToolsCall
    } else {
        McpMethod::Other
    }
}

/// The text answered for a tool call.
pub fn tool_call_text(tool: &str) -> (r: String)
    ensures
        r@ == "工具 "@ + tool@ + " 调用成功"@,
{
    let mut v = chars_of("工具 ");
    extend_str(&mut v, tool);
    extend_str(&mut v, " 调用成功");
    string_of(&v)
}

/// The message of a parse error.
pub fn parse_error_message(detail: &str) -> (r: String)
    ensures
        r@ == "Parse error: "@ + detail@,
{
    concat("Parse error: ", detail)
}

} // verus!
