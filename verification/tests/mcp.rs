use petruterm_shell::mcp::{mcp_overlay_content, mcp_reply, server_at, server_count, server_names, ToolDoc, ToolEntry};

fn tool(server: &str, name: &str) -> ToolEntry {
    ToolEntry { server: server.to_string(), name: name.to_string() }
}

fn doc(name: &str, description: &str, schema_json: &str) -> ToolDoc {
    ToolDoc { name: name.to_string(), description: description.to_string(), schema_json: schema_json.to_string() }
}

fn sample() -> Vec<ToolEntry> {
    vec![tool("web", "fetch"), tool("fs", "read"), tool("web", "search"), tool("fs", "write"), tool("db", "query")]
}

#[test]
fn no_connected_server() {
    assert_eq!(mcp_reply(0, &sample()), "No MCP servers connected.");
}

#[test]
fn summary_groups_tools_by_server_in_name_order() {
    assert_eq!(
        mcp_reply(3, &sample()),
        "# MCP (3 servers)\n## db (1 tool)\nquery\n## fs (2 tools)\nread, write\n## web (2 tools)\nfetch, search"
    );
    assert_eq!(mcp_reply(1, &[tool("solo", "ping")]), "# MCP (1 server)\n## solo (1 tool)\nping");
    assert_eq!(mcp_reply(1, &[]), "# MCP (0 servers)\n");
}

#[test]
fn servers_are_listed_once_in_name_order() {
    let names: Vec<String> = server_names(&sample()).into_iter().map(|v| v.into_iter().collect()).collect();
    assert_eq!(names, vec!["db", "fs", "web"]);
    assert_eq!(server_count(&sample()), 3);
    assert_eq!(server_at(&sample(), 1), Some("fs".to_string()));
    assert_eq!(server_at(&sample(), 3), None);
    assert_eq!(server_count(&[]), 0);
}

#[test]
fn name_order_is_by_characters_with_prefixes_first() {
    let tools = vec![tool("ab", "x"), tool("a", "y"), tool("B", "z"), tool("ab", "w")];
    let names: Vec<String> = server_names(&tools).into_iter().map(|v| v.into_iter().collect()).collect();
    assert_eq!(names, vec!["B", "a", "ab"]);
}

#[test]
fn server_page_lists_tools_with_description_and_schema() {
    let tools = vec![doc("read", "Read a file", "{\n  \"path\": \"string\"\n}"), doc("ping", "", "null")];
    assert_eq!(
        mcp_overlay_content("fs", &tools),
        "# fs\n\n## Tools (2)\n\n### read\nRead a file\n\n```json\n{\n  \"path\": \"string\"\n}\n```\n\n### ping\n"
    );
}

#[test]
fn server_page_without_tools() {
    assert_eq!(
        mcp_overlay_content("gone", &[]),
        "# gone\n\n*No tools registered (server not connected or no tools).*\n"
    );
}
