use laver_agent::background::{BackgroundManager, BgStatus};
use laver_agent::mcp::{connected_status, disconnected, failed_status, mcp_tool_defs, qualified_name, route_call, rpc_reply, tool_call_text, tool_specs, McpServer, McpToolDef};

#[test]
fn background_tasks_leave_notes() {
    let mut m = BackgroundManager::new();
    let id = m.start("s1", "npm install");
    assert!(id.starts_with("bg-"));
    assert_eq!(id.len(), 35);
    let running = m.list("s1");
    assert_eq!(running.len(), 1);
    assert_eq!(running[0].status, BgStatus::Running);
    assert!(m.list("s2").is_empty());
    let shown = m.finish(&id, "s1", "npm install", "ok!", true);
    assert_eq!(shown.status, BgStatus::Done);
    assert_eq!(shown.output.as_deref(), Some("(已生成通知)"));
    let done = m.list("s1");
    assert_eq!(done.len(), 1);
    assert_eq!(done[0].output.as_deref(), Some("ok!"));
    let notes = m.take_notifications("s1");
    assert_eq!(
        notes,
        vec![format!("<task_notification bg_id=\"{id}\" status=\"done\">\n命令: npm install\n输出:\nok!\n</task_notification>")]
    );
    assert!(m.take_notifications("s1").is_empty());
    let failed = m.finish("bg-x", "s2", "bad", "boom", false);
    assert_eq!(failed.status, BgStatus::Failed);
    assert!(m.take_notifications("s2")[0].contains("status=\"failed\""));
}

fn def(name: &str) -> McpToolDef {
    McpToolDef { name: name.to_string(), description: format!("{name} tool"), input_schema: "{}".to_string() }
}

#[test]
fn mcp_names_are_normalized() {
    assert_eq!(qualified_name("my-server", "read.file"), "mcp__my_server__read_file");
    assert_eq!(qualified_name("文件", "x y"), "mcp__文件__x_y");
    let servers = vec![McpServer { name: "fs-1".into(), tools: vec![def("read.file"), def("list")] }];
    let specs = tool_specs(&servers);
    assert_eq!(specs.len(), 2);
    assert_eq!(specs[0].name, "mcp__fs_1__read_file");
    assert_eq!(specs[0].description, "[MCP:fs-1] read.file tool");
}

#[test]
fn mcp_calls_are_routed() {
    let servers = vec![
        McpServer { name: "fs-1".into(), tools: vec![def("read.file")] },
        McpServer { name: "web".into(), tools: vec![def("fetch")] },
    ];
    assert_eq!(route_call(&servers, "mcp__fs_1__read_file").unwrap(), (0, "read.file".to_string()));
    assert_eq!(route_call(&servers, "mcp__web__fetch").unwrap(), (1, "fetch".to_string()));
    assert_eq!(route_call(&servers, "glob").unwrap_err(), "非 MCP 工具名");
    assert_eq!(route_call(&servers, "mcp__web").unwrap_err(), "MCP 工具名格式错误");
    assert_eq!(route_call(&servers, "mcp__web__nope").unwrap_err(), "未找到 MCP 工具: mcp__web__nope");
}

#[test]
fn mcp_statuses() {
    let mut s = connected_status("fs", &vec![def("a"), def("b")]);
    assert!(s.connected);
    assert_eq!(s.tool_count, 2);
    assert_eq!(s.tools, vec!["a".to_string(), "b".to_string()]);
    disconnected(&mut s);
    assert!(!s.connected);
    assert!(s.tools.is_empty());
    let f = failed_status("web", "refused".to_string());
    assert_eq!(f.error.as_deref(), Some("refused"));
    assert_eq!(f.tool_count, 0);
}

#[test]
fn rpc_replies_are_matched_by_id() {
    assert!(rpc_reply("not json", 1).is_none());
    assert!(rpc_reply("", 1).is_none());
    assert!(rpc_reply(r#"{"jsonrpc":"2.0","method":"notifications/x"}"#, 1).is_none());
    assert!(rpc_reply(r#"{"id":2,"result":{}}"#, 1).is_none());
    assert_eq!(rpc_reply("  {\"id\":1,\"result\":{\"a\":1}}\n", 1), Some(Ok("{\"a\":1}".to_string())));
    assert_eq!(rpc_reply(r#"{"id":1}"#, 1), Some(Ok("null".to_string())));
    assert_eq!(
        rpc_reply(r#"{"id":1,"error":{"code":-1,"message":"boom"}}"#, 1),
        Some(Err("MCP 错误: {\"code\":-1,\"message\":\"boom\"}".to_string()))
    );
}

#[test]
fn tool_lists_and_call_results() {
    let defs = mcp_tool_defs(r#"{"tools":[{"name":"read","description":"读","inputSchema":{"type":"object","properties":{}}},{"x":1}]}"#);
    assert_eq!(defs.len(), 2);
    assert_eq!(defs[0].name, "read");
    assert_eq!(defs[0].description, "读");
    assert_eq!(defs[0].input_schema, "{\"properties\":{},\"type\":\"object\"}");
    assert_eq!(defs[1].name, "");
    assert_eq!(defs[1].input_schema, "{\"type\":\"object\"}");
    assert!(mcp_tool_defs("{}").is_empty());
    assert_eq!(tool_call_text(r#"{"content":[{"type":"text","text":"a"},{"type":"image"},{"text":"b"}]}"#), "a\nb");
    assert_eq!(tool_call_text(r#"{"content":[]}"#), r#"{"content":[]}"#);
    assert_eq!(tool_call_text("42"), "42");
}
