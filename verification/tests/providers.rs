use memori_vault::model_endpoints::ModelProvider;
use memori_vault::provider_fetch::{
    combine_service_models, embedding_probe_result, embedding_probe_wanted, fetch_failure_code, model_availability,
    plan_remote_connection_test, service_url, FetchFailure, ProviderModelFetchError, ServiceRequest,
};

fn names(v: &[&str]) -> Vec<String> {
    v.iter().map(|s| s.to_string()).collect()
}

fn err(code: &str, message: &str) -> ProviderModelFetchError {
    ProviderModelFetchError { code: code.to_string(), message: message.to_string() }
}

#[test]
fn service_urls_drop_trailing_slashes() {
    assert_eq!(service_url("http://localhost:11434/", ServiceRequest::OllamaTags), "http://localhost:11434/api/tags");
    assert_eq!(service_url("http://localhost:11434", ServiceRequest::OllamaPull), "http://localhost:11434/api/pull");
    assert_eq!(service_url("https://api.example.com//", ServiceRequest::OpenAiModels), "https://api.example.com/v1/models");
    assert_eq!(service_url("http://h:8080", ServiceRequest::OpenAiEmbeddings), "http://h:8080/v1/embeddings");
}

#[test]
fn failure_codes_follow_the_request() {
    assert_eq!(fetch_failure_code(ServiceRequest::OpenAiModels, FetchFailure::TimedOut), "request_timeout");
    assert_eq!(fetch_failure_code(ServiceRequest::OpenAiEmbeddings, FetchFailure::TimedOut), "request_timeout");
    assert_eq!(fetch_failure_code(ServiceRequest::OpenAiModels, FetchFailure::Status(401)), "auth_failed");
    assert_eq!(fetch_failure_code(ServiceRequest::OpenAiModels, FetchFailure::Status(403)), "auth_failed");
    assert_eq!(fetch_failure_code(ServiceRequest::OpenAiModels, FetchFailure::Status(500)), "endpoint_unreachable");
    assert_eq!(fetch_failure_code(ServiceRequest::OllamaTags, FetchFailure::Status(401)), "endpoint_unreachable");
    assert_eq!(fetch_failure_code(ServiceRequest::OpenAiModels, FetchFailure::Unreadable), "endpoint_unreachable");
    assert_eq!(fetch_failure_code(ServiceRequest::OpenAiEmbeddings, FetchFailure::Status(401)), "embed_probe_failed");
    assert_eq!(fetch_failure_code(ServiceRequest::OpenAiEmbeddings, FetchFailure::EmptyEmbedding), "embed_probe_failed");
}

#[test]
fn embedding_probe_needs_a_non_empty_embedding() {
    assert_eq!(embedding_probe_result(Some(1024)), Ok(()));
    assert_eq!(embedding_probe_result(Some(0)), Err(FetchFailure::EmptyEmbedding));
    assert_eq!(embedding_probe_result(None), Err(FetchFailure::EmptyEmbedding));
}

#[test]
fn answers_combine_sorted_without_repeats() {
    let answers = vec![
        Ok(names(&["qwen3:8b", "bge-m3"])),
        Err(err("endpoint_unreachable", "graph endpoint down")),
        Ok(names(&["bge-m3", "qwen3:14b"])),
        Err(err("auth_failed", "status=401")),
    ];
    let (models, errors) = combine_service_models(&answers);
    assert_eq!(models, names(&["bge-m3", "qwen3:14b", "qwen3:8b"]));
    assert_eq!(errors.len(), 2);
    assert_eq!(errors[0].code, "endpoint_unreachable");
    assert_eq!(errors[0].message, "graph endpoint down");
    assert_eq!(errors[1].code, "auth_failed");
}

#[test]
fn no_answers_give_no_models() {
    let (models, errors) = combine_service_models(&Vec::new());
    assert!(models.is_empty());
    assert!(errors.is_empty());
}

#[test]
fn embedding_probe_only_for_local_models_not_yet_missing() {
    assert!(embedding_probe_wanted(ModelProvider::LlamaCppLocal, "bge-m3", true, &names(&["chat"])));
    assert!(!embedding_probe_wanted(ModelProvider::LlamaCppLocal, "bge-m3", true, &names(&["embed"])));
    assert!(!embedding_probe_wanted(ModelProvider::OpenAiCompatible, "bge-m3", true, &[]));
    assert!(!embedding_probe_wanted(ModelProvider::LlamaCppLocal, "", true, &[]));
    assert!(embedding_probe_wanted(ModelProvider::LlamaCppLocal, "", false, &[]));
}

#[test]
fn failed_probe_marks_embed_missing_and_unreachable() {
    let ok = model_availability(ModelProvider::LlamaCppLocal, names(&["a"]), Vec::new(), Vec::new(), None);
    assert!(ok.configured && ok.reachable);
    assert_eq!(ok.models, names(&["a"]));
    assert!(ok.missing_roles.is_empty());
    assert_eq!(ok.checked_provider.as_deref(), Some("llama_cpp_local"));
    assert!(ok.status_code.is_none() && ok.status_message.is_none());

    let failed = model_availability(
        ModelProvider::LlamaCppLocal,
        names(&["a"]),
        names(&["chat"]),
        Vec::new(),
        Some(err("embed_probe_failed", "no embedding")),
    );
    assert!(!failed.reachable);
    assert_eq!(failed.missing_roles, names(&["chat", "embed"]));
    assert_eq!(failed.errors.len(), 1);
    assert_eq!(failed.errors[0].code, "embed_probe_failed");

    let remote = model_availability(
        ModelProvider::OpenAiCompatible,
        Vec::new(),
        Vec::new(),
        vec![err("auth_failed", "status=401")],
        None,
    );
    assert!(!remote.reachable);
    assert_eq!(remote.checked_provider.as_deref(), Some("openai_compatible"));
}

#[test]
fn remote_connection_test_needs_endpoint_and_model() {
    let plan = plan_remote_connection_test(" https://api.example.com/v1/chat/completions ", Some("Responses"), " gpt-4o ")
        .expect("a complete form is accepted");
    assert_eq!(plan.endpoint, "https://api.example.com");
    assert_eq!(plan.model, "gpt-4o");
    assert!(plan.uses_responses);
    let chat = plan_remote_connection_test("https://api.example.com", None, "m").expect("accepted");
    assert!(!chat.uses_responses);
    assert_eq!(plan_remote_connection_test("/v1", None, "m").err().as_deref(), Some("API 地址不能为空"));
    assert_eq!(plan_remote_connection_test("https://api.example.com", None, "  ").err().as_deref(), Some("对话模型名称不能为空"));
}
