use bugs::mcp::{mcp_method, parse_error_message, tool_call_text, McpMethod, PARSE_ERROR_CODE};

#[test]
fn mcp_dispatch() {
    assert_eq!(mcp_method("initialize"), McpMethod::Initialize);
    assert_eq!(mcp_method("tools/list"), McpMethod::ToolsList);
    assert_eq!(mcp_method("tools/call"), McpMethod::ToolsCall);
    assert_eq!(mcp_method(""), McpMethod::Other);
    assert_eq!(tool_call_text("read"), "工具 read 调用成功");
    assert_eq!(parse_error_message("eof"), "Parse error: eof");
    assert_eq!(PARSE_ERROR_CODE, -32700);
}
