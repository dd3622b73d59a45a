use memori_vault::mcp_endpoint::{
    build_mcp_status, initialize_result, mcp_client_config, resolve_mcp_settings, McpClientConfig, StoredMcpSettings,
    MCP_COMPAT_PROTOCOL_VERSION, MCP_PROTOCOL_VERSION,
};

fn stored(bind: Option<&str>, port: Option<u16>) -> StoredMcpSettings {
    StoredMcpSettings {
        mcp_enabled: Some(true),
        mcp_transports: None,
        mcp_http_bind: bind.map(|b| b.to_string()),
        mcp_http_port: port,
        mcp_access_mode: None,
        mcp_audit_enabled: None,
    }
}

#[test]
fn http_client_gets_the_http_endpoint() {
    let status = build_mcp_status(&resolve_mcp_settings(&stored(Some("127.0.0.1"), Some(4000))));
    match mcp_client_config("  HTTP ", &status) {
        McpClientConfig::Http { url } => assert_eq!(url, "http://127.0.0.1:4000/mcp"),
        McpClientConfig::Stdio { .. } => panic!("expected the HTTP endpoint"),
    }
}

#[test]
fn other_clients_get_the_stdio_command() {
    let status = build_mcp_status(&resolve_mcp_settings(&stored(None, None)));
    for client in ["cursor", "", "stdio", "https"] {
        match mcp_client_config(client, &status) {
            McpClientConfig::Stdio { command, args } => {
                assert_eq!(command, "memori-server");
                assert_eq!(args, vec!["--mcp-stdio".to_string()]);
            }
            McpClientConfig::Http { .. } => panic!("expected the stdio command"),
        }
    }
}

#[test]
fn initialize_advertises_supported_server_capabilities() {
    let result = initialize_result(Some(MCP_PROTOCOL_VERSION), "0.1.0");
    assert_eq!(result.protocol_version, MCP_PROTOCOL_VERSION);
    assert!(result.capabilities.tools.is_some());
    assert!(result.capabilities.resources.is_some());
    assert!(result.capabilities.prompts.is_some());
    assert_eq!(result.server_name, "memori-vault");
    assert_eq!(initialize_result(Some(MCP_COMPAT_PROTOCOL_VERSION), "x").protocol_version, MCP_COMPAT_PROTOCOL_VERSION);
    assert_eq!(initialize_result(None, "x").protocol_version, MCP_PROTOCOL_VERSION);
    assert_eq!(initialize_result(Some("1999-01-01"), "x").protocol_version, MCP_PROTOCOL_VERSION);
}
