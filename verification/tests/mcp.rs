use memori_vault::mcp::{
    get_prompt, list_prompts, list_resource_templates, list_resources, list_tools, normalize_mcp_top_k, prompt_text,
    JsonRpcError, McpServerSettings, McpSession, McpTransport,
};

#[test]
fn list_tools_exposes_memory_interface() {
    let names = list_tools().tools.into_iter().map(|tool| tool.name).collect::<Vec<_>>();

    for expected in ["memory_search", "memory_add", "memory_update", "memory_list_recent", "memory_get_source"] {
        assert!(names.iter().any(|name| name == expected), "missing MCP tool {expected}");
    }
}

#[test]
fn list_resources_exposes_memory_templates() {
    let templates = list_resource_templates()
        .resource_templates
        .into_iter()
        .map(|template| template.uri_template)
        .collect::<Vec<_>>();

    for expected in [
        "memori://memory/{memory_id}",
        "memori://memory/recent/{scope}",
        "memori://memory/source/{source_ref}",
        "memori://graph/entity/{entity_id}/timeline",
    ] {
        assert!(templates.iter().any(|template| template == expected), "missing MCP resource template {expected}");
    }
}

#[test]
fn tool_names_are_unique_and_schemas_require_known_properties() {
    let tools = list_tools().tools;
    for (i, a) in tools.iter().enumerate() {
        for b in tools.iter().skip(i + 1) {
            assert_ne!(a.name, b.name);
        }
        for required in &a.input_schema.required {
            assert!(a.input_schema.properties.iter().any(|p| &p.name == required), "{} lacks {required}", a.name);
        }
    }
    let ask = tools.iter().find(|t| t.name == "ask").expect("ask tool");
    assert_eq!(ask.input_schema.required, vec!["query".to_string()]);
}

#[test]
fn resources_and_prompts_are_listed() {
    assert_eq!(list_resources().resources.len(), 5);
    assert_eq!(list_prompts().prompts.len(), 5);
    assert!(list_prompts().prompts.iter().any(|p| p.name == "diagnose_retrieval"));
}

#[test]
fn known_prompt_renders_text_and_arguments() {
    let text = prompt_text("graph_explore").expect("known prompt");
    let rendered = get_prompt("graph_explore", "{\"entity\":\"x\"}").expect("known prompt renders");
    assert_eq!(rendered.description, text);
    assert_eq!(rendered.messages.len(), 1);
    assert_eq!(rendered.messages[0].role, "user");
    assert_eq!(rendered.messages[0].text, format!("{text}\n\nArguments: {{\"entity\":\"x\"}}"));
}

#[test]
fn unknown_prompt_is_an_invalid_params_error() {
    let err: JsonRpcError = get_prompt("nope", "{}").err().expect("unknown prompt");
    assert_eq!(err.code, -32602);
    assert_eq!(err.message, "unknown prompt: nope");
    assert!(prompt_text("nope").is_none());
}

#[test]
fn top_k_outside_range_falls_back_to_default() {
    assert_eq!(normalize_mcp_top_k(Some(7), 10), 7);
    assert_eq!(normalize_mcp_top_k(Some(0), 10), 10);
    assert_eq!(normalize_mcp_top_k(Some(51), 10), 10);
    assert_eq!(normalize_mcp_top_k(None, 10), 10);
}

#[test]
fn new_session_is_uninitialised_and_settings_default_off() {
    let session = McpSession::new();
    assert!(!session.initialized);
    assert!(session.client_info.is_none());
    let settings = McpServerSettings::default();
    assert!(!settings.enabled);
    assert_eq!(settings.transport, McpTransport::default());
    assert_eq!(JsonRpcError::method_not_found("m").code, -32601);
}

#[test]
fn every_listed_prompt_can_be_fetched() {
    for prompt in list_prompts().prompts {
        let got = get_prompt(&prompt.name, "{}").expect("listed prompt");
        assert_eq!(got.messages.len(), 1);
        assert_eq!(got.messages[0].role, "user");
        assert!(got.messages[0].text.ends_with("\n\nArguments: {}"));
    }
}

#[test]
fn only_unlisted_unprefixed_uris_are_unknown_resources() {
    for listed in list_resources().resources {
        assert!(memori_vault::resource_uri::resource_request(&listed.uri).is_ok(), "{}", listed.uri);
    }
    for uri in ["memori://source/a.md", "memori://search/q", "memori://graph/entity/7", "memori://chunk/12"] {
        assert!(memori_vault::resource_uri::resource_request(uri).is_ok(), "{uri}");
    }
    let err = memori_vault::resource_uri::resource_request("memori://elsewhere").err().expect("unknown");
    assert_eq!(err.code, -32602);
    assert_eq!(err.message, "unknown resource: memori://elsewhere");
    let bad_chunk = memori_vault::resource_uri::resource_request("memori://chunk/x").err().expect("bad id");
    assert_eq!(bad_chunk.message, "invalid chunk id");
}
