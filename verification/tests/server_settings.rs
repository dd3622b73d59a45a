use memori_vault::model_endpoints::ModelProvider;
use memori_vault::server_settings::{
    normalize_endpoint, normalize_model_settings_payload, resolve_active_runtime_settings, LocalModelProfileDto,
    ModelSettingsDto, RemoteModelProfileDto,
};

fn local_profile() -> LocalModelProfileDto {
    LocalModelProfileDto {
        endpoint: "http://localhost:18001".to_string(),
        models_root: None,
        chat_model: "local-chat".to_string(),
        graph_model: "local-graph".to_string(),
        embed_model: "local-embed".to_string(),
        chat_context_length: None,
        graph_context_length: None,
        embed_context_length: None,
        chat_concurrency: None,
        graph_concurrency: None,
        embed_concurrency: None,
        performance_preset: None,
        n_gpu_layers: None,
        batch_size: None,
        ubatch_size: None,
        threads: None,
        threads_batch: None,
        flash_attn: None,
        cache_type_k: None,
        cache_type_v: None,
    }
}

fn remote_profile(chat: &str, graph: &str, embed: &str, legacy: Option<&str>) -> RemoteModelProfileDto {
    RemoteModelProfileDto {
        protocol: "openai_chat_completions".to_string(),
        chat_endpoint: chat.to_string(),
        graph_endpoint: graph.to_string(),
        embed_endpoint: embed.to_string(),
        endpoint: legacy.map(|s| s.to_string()),
        api_key: Some("sk-test".to_string()),
        chat_model: "remote-chat".to_string(),
        graph_model: "remote-graph".to_string(),
        embed_model: "remote-embed".to_string(),
        chat_context_length: None,
        graph_context_length: None,
        embed_context_length: None,
        chat_concurrency: None,
        graph_concurrency: None,
        embed_concurrency: None,
    }
}

#[test]
fn remote_runtime_uses_role_specific_endpoints() {
    let settings = ModelSettingsDto {
        active_provider: "openai_compatible".to_string(),
        local_profile: local_profile(),
        remote_profile: remote_profile(
            "https://chat.example.com",
            "https://graph.example.com",
            "https://embed.example.com",
            None,
        ),
        stop_local_models_on_exit: true,
    };

    let runtime = resolve_active_runtime_settings(&settings);

    assert_eq!(runtime.provider, ModelProvider::OpenAiCompatible);
    assert_eq!(runtime.chat_endpoint, "https://chat.example.com");
    assert_eq!(runtime.graph_endpoint, "https://graph.example.com");
    assert_eq!(runtime.embed_endpoint, "https://embed.example.com");
    assert_eq!(runtime.chat_model, "remote-chat");
    assert_eq!(runtime.graph_model, "remote-graph");
    assert_eq!(runtime.embed_model, "remote-embed");
}

#[test]
fn legacy_remote_endpoint_payload_expands_to_all_roles() {
    let mut remote = remote_profile("", "", "", Some("https://legacy.example.com"));
    remote.api_key = None;
    let payload = ModelSettingsDto {
        active_provider: "openai_compatible".to_string(),
        local_profile: local_profile(),
        remote_profile: remote,
        stop_local_models_on_exit: true,
    };

    let normalized = normalize_model_settings_payload(payload).expect("payload normalizes");

    assert_eq!(normalized.remote_profile.chat_endpoint, "https://legacy.example.com");
    assert_eq!(normalized.remote_profile.graph_endpoint, "https://legacy.example.com");
    assert_eq!(normalized.remote_profile.embed_endpoint, "https://legacy.example.com");
    assert!(normalized.remote_profile.endpoint.is_none());
}

#[test]
fn tests_openai_compatible_endpoint_strips_full_request_path() {
    assert_eq!(
        normalize_endpoint(ModelProvider::OpenAiCompatible, "https://api.example.com/v1"),
        "https://api.example.com"
    );
    assert_eq!(
        normalize_endpoint(ModelProvider::OpenAiCompatible, "https://api.example.com/v1/embeddings"),
        "https://api.example.com"
    );
    assert_eq!(
        normalize_endpoint(ModelProvider::OpenAiCompatible, "https://api.example.com/v1/chat/completions"),
        "https://api.example.com"
    );
}

#[test]
fn blank_model_name_is_rejected() {
    let mut remote = remote_profile("https://a.test", "https://a.test", "https://a.test", None);
    remote.graph_model = "   ".to_string();
    let payload = ModelSettingsDto {
        active_provider: "llama_cpp_local".to_string(),
        local_profile: local_profile(),
        remote_profile: remote,
        stop_local_models_on_exit: false,
    };
    let err = normalize_model_settings_payload(payload).err().expect("blank model rejected");
    assert_eq!(err, "chat/graph/embed model names cannot be empty");
}

#[test]
fn local_runtime_shares_the_local_endpoint() {
    let settings = ModelSettingsDto {
        active_provider: "llama_cpp_local".to_string(),
        local_profile: local_profile(),
        remote_profile: remote_profile("https://c.test", "https://g.test", "https://e.test", None),
        stop_local_models_on_exit: true,
    };
    let runtime = resolve_active_runtime_settings(&settings);
    assert_eq!(runtime.provider, ModelProvider::LlamaCppLocal);
    assert_eq!(runtime.chat_endpoint, "http://localhost:18001");
    assert_eq!(runtime.graph_endpoint, "http://localhost:18001");
    assert_eq!(runtime.embed_endpoint, "http://localhost:18001");
    assert_eq!(runtime.chat_model, "local-chat");
    assert_eq!(runtime.api_key, None);
}
