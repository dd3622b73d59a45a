use memori_vault::model_endpoints::ModelProvider;
use memori_vault::stored_settings::resolve_explicit_provider;
use memori_vault::server_settings;
use memori_vault::stored_settings::{resolve_model_settings, ModelEnv, StoredModelSettings};

fn blank_settings() -> StoredModelSettings {
    StoredModelSettings {
        active_provider: None,
        local_endpoint: None,
        local_chat_endpoint: None,
        local_graph_endpoint: None,
        local_embed_endpoint: None,
        local_rerank_endpoint: None,
        local_models_root: None,
        local_llama_server_path: None,
        local_chat_model: None,
        local_graph_model: None,
        local_embed_model: None,
        local_rerank_model: None,
        local_chat_model_path: None,
        local_graph_model_path: None,
        local_embed_model_path: None,
        local_rerank_model_path: None,
        local_chat_context_length: None,
        local_graph_context_length: None,
        local_embed_context_length: None,
        local_rerank_context_length: None,
        local_chat_concurrency: None,
        local_graph_concurrency: None,
        local_embed_concurrency: None,
        local_rerank_concurrency: None,
        local_performance_preset: None,
        local_n_gpu_layers: None,
        local_batch_size: None,
        local_ubatch_size: None,
        local_threads: None,
        local_threads_batch: None,
        local_flash_attn: None,
        local_cache_type_k: None,
        local_cache_type_v: None,
        remote_endpoint: None,
        remote_chat_endpoint: None,
        remote_graph_endpoint: None,
        remote_embed_endpoint: None,
        remote_api_key: None,
        remote_api_format: None,
        remote_protocol: None,
        remote_chat_model: None,
        remote_graph_model: None,
        remote_embed_model: None,
        remote_chat_context_length: None,
        remote_graph_context_length: None,
        remote_embed_context_length: None,
        remote_chat_concurrency: None,
        remote_graph_concurrency: None,
        remote_embed_concurrency: None,
        stop_local_models_on_exit: None,
        provider: None,
        endpoint: None,
        api_key: None,
        chat_model: None,
        graph_model: None,
        embed_model: None,
    }
}

fn blank_env() -> ModelEnv {
    ModelEnv {
        provider: None,
        model_endpoint: None,
        chat_endpoint: None,
        graph_endpoint: None,
        embed_endpoint: None,
        rerank_endpoint: None,
        chat_model: None,
        graph_model: None,
        embed_model: None,
        rerank_model: None,
        api_key: None,
    }
}

fn some(s: &str) -> Option<String> {
    Some(s.to_string())
}

#[test]
fn empty_settings_take_defaults() {
    let r = resolve_model_settings(&blank_settings(), &blank_env());
    assert_eq!(r.active_provider, "llama_cpp_local");
    assert_eq!(r.local_profile.chat_endpoint, "http://localhost:18001");
    assert_eq!(r.local_profile.graph_endpoint, "http://localhost:18002");
    assert_eq!(r.local_profile.embed_endpoint, "http://localhost:18003");
    assert_eq!(r.local_profile.rerank_endpoint, "http://localhost:18004");
    assert_eq!(r.local_profile.chat_context_length, Some(16384));
    assert_eq!(r.local_profile.graph_context_length, Some(4096));
    assert_eq!(r.local_profile.embed_context_length, Some(8192));
    assert_eq!(r.local_profile.performance_preset.as_deref(), Some("compat"));
    assert_eq!(r.remote_profile.protocol, "openai_chat_completions");
    assert_eq!(r.remote_profile.api_format.as_deref(), Some("chat"));
    assert!(r.stop_local_models_on_exit);
    assert!(r.remote_profile.api_key.is_none());
}

#[test]
fn shared_local_endpoint_collapse_is_repaired_on_read() {
    let mut s = blank_settings();
    s.local_endpoint = some("http://localhost:18001");
    let r = resolve_model_settings(&s, &blank_env());
    assert_eq!(r.local_profile.chat_endpoint, "http://localhost:18001");
    assert_eq!(r.local_profile.graph_endpoint, "http://localhost:18002");
    assert_eq!(r.local_profile.embed_endpoint, "http://localhost:18003");
    assert_eq!(r.local_profile.rerank_endpoint, "http://localhost:18004");
}

#[test]
fn legacy_fields_apply_to_their_provider_and_env_fills_gaps() {
    let mut s = blank_settings();
    s.provider = some("openai_compatible");
    s.chat_model = some("legacy-chat");
    s.api_key = some("  sk-legacy  ");
    s.remote_endpoint = some("https://api.example.com/v1/chat/completions");
    let mut env = blank_env();
    env.graph_model = some("env-graph");
    let r = resolve_model_settings(&s, &env);
    assert_eq!(r.active_provider, "openai_compatible");
    assert_eq!(r.remote_profile.chat_model, "legacy-chat");
    assert_eq!(r.remote_profile.graph_model, "env-graph");
    assert_eq!(r.remote_profile.api_key.as_deref(), Some("sk-legacy"));
    assert_eq!(r.remote_profile.chat_endpoint, "https://api.example.com");
    assert_ne!(r.local_profile.chat_model, "legacy-chat");
}

#[test]
fn stored_protocol_sets_the_api_format() {
    let mut s = blank_settings();
    s.remote_protocol = some("OpenAI_Responses");
    let r = resolve_model_settings(&s, &blank_env());
    assert_eq!(r.remote_profile.protocol, "openai_responses");
    assert_eq!(r.remote_profile.api_format.as_deref(), Some("responses"));
}

#[test]
fn server_settings_resolve_single_local_endpoint_and_remote_defaults() {
    let mut s = blank_settings();
    s.endpoint = some("http://gpu-box:9000");
    let r = server_settings::resolve_model_settings(&s, &blank_env());
    assert_eq!(r.active_provider, "llama_cpp_local");
    assert_eq!(r.local_profile.endpoint, "http://gpu-box:9000");
    assert_eq!(r.remote_profile.chat_endpoint, "https://api.openai.com");
    assert!(r.remote_profile.endpoint.is_none());

    let mut env = blank_env();
    env.provider = some("openai_compatible");
    env.embed_endpoint = some("https://embed.example.com/v1");
    env.model_endpoint = some("https://generic.example.com");
    let r = server_settings::resolve_model_settings(&blank_settings(), &env);
    assert_eq!(r.active_provider, "openai_compatible");
    assert_eq!(r.remote_profile.embed_endpoint, "https://embed.example.com");
    assert_eq!(r.remote_profile.chat_endpoint, "https://generic.example.com");
    assert_eq!(r.local_profile.endpoint, "http://localhost:18001");
}

#[test]
fn explicit_provider_is_the_first_set_and_not_blank() {
    let mut settings = blank_settings();
    let mut env = blank_env();
    assert_eq!(resolve_explicit_provider(&settings, &env), None);
    env.provider = Some(" OpenAI_Compatible ".to_string());
    assert_eq!(resolve_explicit_provider(&settings, &env), Some(ModelProvider::OpenAiCompatible));
    settings.provider = Some("llama_cpp_local".to_string());
    assert_eq!(resolve_explicit_provider(&settings, &env), Some(ModelProvider::LlamaCppLocal));
    settings.active_provider = Some("   ".to_string());
    assert_eq!(resolve_explicit_provider(&settings, &env), None);
}
