//! Model settings as the desktop application stores them: one endpoint per local role
//! (chat, graph, embedding, rerank) that must not share a port, per-role remote endpoints,
//! and the runtime settings of the active provider.
use crate::model_endpoints::{
    chat_api_format, endpoint_for, endpoints_collide, distinct_ports_message, ensure_distinct_local_endpoints,
    local_endpoint_for_role, normalize_chat_api_format, normalize_endpoint, normalize_local_endpoint_for_role,
    normalize_optional_text, normalize_performance_preset, normalize_remote_protocol, optional_text, performance_preset, provider_name, provider_of, provider_to_string, remote_protocol, ModelProvider,
};
use crate::text::{trim, trim_str};
use crate::text::{opt_text};
use vstd::prelude::*;

verus! {

/// Name of the default rerank model, used when none is given.
pub const DEFAULT_RERANK_MODEL_BGE: &'static str = "bge-reranker-v2-m3";

/// The local (llama.cpp) model profile.
pub struct LocalModelProfileDto {
    pub chat_endpoint: String,
    pub graph_endpoint: String,
    pub embed_endpoint: String,
    pub models_root: Option<String>,
    pub llama_server_path: Option<String>,
    pub chat_model: String,
    pub graph_model: String,
    pub embed_model: String,
    pub chat_model_path: Option<String>,
    pub graph_model_path: Option<String>,
    pub embed_model_path: Option<String>,
    pub chat_context_length: Option<u32>,
    pub graph_context_length: Option<u32>,
    pub embed_context_length: Option<u32>,
    pub chat_concurrency: Option<u32>,
    pub graph_concurrency: Option<u32>,
    pub embed_concurrency: Option<u32>,
    pub rerank_endpoint: String,
    pub rerank_model: String,
    pub rerank_model_path: Option<String>,
    pub rerank_context_length: Option<u32>,
    pub rerank_concurrency: Option<u32>,
    pub performance_preset: Option<String>,
    pub n_gpu_layers: Option<i32>,
    pub batch_size: Option<u32>,
    pub ubatch_size: Option<u32>,
    pub threads: Option<u32>,
    pub threads_batch: Option<u32>,
    pub flash_attn: Option<bool>,
    pub cache_type_k: Option<String>,
    pub cache_type_v: Option<String>,
}

/// The remote (OpenAI-compatible) model profile.
pub struct RemoteModelProfileDto {
    pub protocol: String,
    pub api_format: Option<String>,
    pub chat_endpoint: String,
    pub graph_endpoint: String,
    pub embed_endpoint: String,
    pub api_key: Option<String>,
    pub chat_model: String,
    pub graph_model: String,
    pub embed_model: String,
    pub chat_context_length: Option<u32>,
    pub graph_context_length: Option<u32>,
    pub embed_context_length: Option<u32>,
    pub chat_concurrency: Option<u32>,
    pub graph_concurrency: Option<u32>,
    pub embed_concurrency: Option<u32>,
}

/// Model settings: the active provider and both profiles.
pub struct ModelSettingsDto {
    pub active_provider: String,
    pub local_profile: LocalModelProfileDto,
    pub remote_profile: RemoteModelProfileDto,
    pub stop_local_models_on_exit: bool,
}

/// Whether some chat, graph or embedding model name of the payload is blank.
pub open spec fn some_model_blank(p: ModelSettingsDto) -> bool {
    trim(p.local_profile.chat_model@).len() == 0 || trim(p.local_profile.graph_model@).len() == 0
        || trim(p.local_profile.embed_model@).len() == 0 || trim(p.remote_profile.chat_model@).len() == 0
        || trim(p.remote_profile.graph_model@).len() == 0 || trim(p.remote_profile.embed_model@).len() == 0
}

/// Whether the payload's local endpoints, each defaulted by role, reach a shared target.
pub open spec fn local_roles_collide(p: ModelSettingsDto) -> bool {
    endpoints_collide(
        local_endpoint_for_role("chat"@, p.local_profile.chat_endpoint@),
        local_endpoint_for_role("graph"@, p.local_profile.graph_endpoint@),
        local_endpoint_for_role("embed"@, p.local_profile.embed_endpoint@),
        local_endpoint_for_role("rerank"@, p.local_profile.rerank_endpoint@),
    )
}

/// The rerank model name: trimmed, or the default model when blank.
pub open spec fn rerank_model_name(name: Seq<char>) -> Seq<char> {
    if trim(name).len() == 0 {
        DEFAULT_RERANK_MODEL_BGE@
    } else {
        trim(name)
    }
}

/// Normalises model settings submitted for saving. The four local roles, each defaulted to
/// its own port when blank, must reach distinct host:port targets; every chat, graph and
/// embedding model name must be non-blank. Model and server paths come back trimmed, for the
/// caller to check on disk and canonicalise.
pub fn normalize_model_settings_payload(payload: ModelSettingsDto) -> (r: Result<ModelSettingsDto, String>)
    ensures
        local_roles_collide(payload) ==> (r matches Err(msg) && msg@ == distinct_ports_message()),
        !local_roles_collide(payload) && some_model_blank(payload) ==> (r matches Err(msg) && msg@
            == "chat/graph/embed 模型名均不能为空"@),
        !local_roles_collide(payload) && !some_model_blank(payload) <==> r is Ok,
        r matches Ok(n) ==> {
            let lp = payload.local_profile;
            let rp = payload.remote_profile;
            &&& n.active_provider@ == provider_name(provider_of(payload.active_provider@))
            &&& n.local_profile.chat_endpoint@ == local_endpoint_for_role("chat"@, lp.chat_endpoint@)
            &&& n.local_profile.graph_endpoint@ == local_endpoint_for_role("graph"@, lp.graph_endpoint@)
            &&& n.local_profile.embed_endpoint@ == local_endpoint_for_role("embed"@, lp.embed_endpoint@)
            &&& n.local_profile.rerank_endpoint@ == local_endpoint_for_role("rerank"@, lp.rerank_endpoint@)
            &&& !endpoints_collide(n.local_profile.chat_endpoint@, n.local_profile.graph_endpoint@,
                n.local_profile.embed_endpoint@, n.local_profile.rerank_endpoint@)
            &&& opt_text(n.local_profile.models_root) == optional_text(opt_text(lp.models_root))
            &&& opt_text(n.local_profile.llama_server_path) == optional_text(opt_text(lp.llama_server_path))
            &&& n.local_profile.chat_model@ == trim(lp.chat_model@)
            &&& n.local_profile.graph_model@ == trim(lp.graph_model@)
            &&& n.local_profile.embed_model@ == trim(lp.embed_model@)
            &&& n.local_profile.rerank_model@ == rerank_model_name(lp.rerank_model@)
            &&& opt_text(n.local_profile.chat_model_path) == optional_text(opt_text(lp.chat_model_path))
            &&& opt_text(n.local_profile.graph_model_path) == optional_text(opt_text(lp.graph_model_path))
            &&& opt_text(n.local_profile.embed_model_path) == optional_text(opt_text(lp.embed_model_path))
            &&& opt_text(n.local_profile.rerank_model_path) == optional_text(opt_text(lp.rerank_model_path))
            &&& n.local_profile.chat_context_length == lp.chat_context_length
            &&& n.local_profile.graph_context_length == lp.graph_context_length
            &&& n.local_profile.embed_context_length == lp.embed_context_length
            &&& n.local_profile.chat_concurrency == lp.chat_concurrency
            &&& n.local_profile.graph_concurrency == lp.graph_concurrency
            &&& n.local_profile.embed_concurrency == lp.embed_concurrency
            &&& n.local_profile.rerank_context_length == lp.rerank_context_length
            &&& n.local_profile.rerank_concurrency == lp.rerank_concurrency
            &&& opt_text(n.local_profile.performance_preset) == Some(performance_preset(opt_text(lp.performance_preset)))
            &&& n.local_profile.n_gpu_layers == lp.n_gpu_layers
            &&& n.local_profile.batch_size == lp.batch_size
            &&& n.local_profile.ubatch_size == lp.ubatch_size
            &&& n.local_profile.threads == lp.threads
            &&& n.local_profile.threads_batch == lp.threads_batch
            &&& n.local_profile.flash_attn == lp.flash_attn
            &&& opt_text(n.local_profile.cache_type_k) == optional_text(opt_text(lp.cache_type_k))
            &&& opt_text(n.local_profile.cache_type_v) == optional_text(opt_text(lp.cache_type_v))
            &&& n.remote_profile.protocol@ == remote_protocol(Some(rp.protocol@))
            &&& opt_text(n.remote_profile.api_format) == Some(chat_api_format(opt_text(rp.api_format)))
            &&& n.remote_profile.chat_endpoint@ == endpoint_for(ModelProvider::OpenAiCompatible, rp.chat_endpoint@)
            &&& n.remote_profile.graph_endpoint@ == endpoint_for(ModelProvider::OpenAiCompatible, rp.graph_endpoint@)
            &&& n.remote_profile.embed_endpoint@ == endpoint_for(ModelProvider::OpenAiCompatible, rp.embed_endpoint@)
            &&& opt_text(n.remote_profile.api_key) == optional_text(opt_text(rp.api_key))
            &&& n.remote_profile.chat_model@ == trim(rp.chat_model@)
            &&& n.remote_profile.graph_model@ == trim(rp.graph_model@)
            &&& n.remote_profile.embed_model@ == trim(rp.embed_model@)
            &&& n.remote_profile.chat_context_length == rp.chat_context_length
            &&& n.remote_profile.graph_context_length == rp.graph_context_length
            &&& n.remote_profile.embed_context_length == rp.embed_context_length
            &&& n.remote_profile.chat_concurrency == rp.chat_concurrency
            &&& n.remote_profile.graph_concurrency == rp.graph_concurrency
            &&& n.remote_profile.embed_concurrency == rp.embed_concurrency
            &&& n.stop_local_models_on_exit == payload.stop_local_models_on_exit
        },
{
    let active_provider = ModelProvider::from_value(payload.active_provider.as_str());
    let local_chat_endpoint = normalize_local_endpoint_for_role("chat", payload.local_profile.chat_endpoint.as_str());
    let local_graph_endpoint = normalize_local_endpoint_for_role("graph", payload.local_profile.graph_endpoint.as_str());
    let local_embed_endpoint = normalize_local_endpoint_for_role("embed", payload.local_profile.embed_endpoint.as_str());
    let local_rerank_endpoint = normalize_local_endpoint_for_role(
        "rerank",
        payload.local_profile.rerank_endpoint.as_str(),
    );
    match ensure_distinct_local_endpoints(
        local_chat_endpoint.as_str(),
        local_graph_endpoint.as_str(),
        local_embed_endpoint.as_str(),
        local_rerank_endpoint.as_str(),
    ) {
        Err(msg) => return Err(msg),
        Ok(()) => {},
    }
    let remote_chat_endpoint = normalize_endpoint(ModelProvider::OpenAiCompatible, payload.remote_profile.chat_endpoint.as_str());
    let remote_graph_endpoint = normalize_endpoint(ModelProvider::OpenAiCompatible, payload.remote_profile.graph_endpoint.as_str());
    let remote_embed_endpoint = normalize_endpoint(ModelProvider::OpenAiCompatible, payload.remote_profile.embed_endpoint.as_str());
    let local_chat_model = trim_str(payload.local_profile.chat_model.as_str());
    let local_graph_model = trim_str(payload.local_profile.graph_model.as_str());
    let local_embed_model = trim_str(payload.local_profile.embed_model.as_str());
    let rerank_trimmed = trim_str(payload.local_profile.rerank_model.as_str());
    let local_rerank_model = if rerank_trimmed.as_str().is_empty() {
        DEFAULT_RERANK_MODEL_BGE.to_owned()
    } else {
        rerank_trimmed
    };
    let remote_chat_model = trim_str(payload.remote_profile.chat_model.as_str());
    let remote_graph_model = trim_str(payload.remote_profile.graph_model.as_str());
    let remote_embed_model = trim_str(payload.remote_profile.embed_model.as_str());
    let remote_protocol = normalize_remote_protocol(Some(payload.remote_profile.protocol.as_str()));
    let remote_api_format = match &payload.remote_profile.api_format {
        Some(f) => normalize_chat_api_format(Some(f.as_str())),
        None => normalize_chat_api_format(None),
    };
    if local_chat_model.as_str().is_empty() || local_graph_model.as_str().is_empty()
        || local_embed_model.as_str().is_empty() || remote_chat_model.as_str().is_empty()
        || remote_graph_model.as_str().is_empty() || remote_embed_model.as_str().is_empty() {
        return Err("chat/graph/embed 模型名均不能为空".to_owned());
    }
    let local = payload.local_profile;
    let remote = payload.remote_profile;
    Ok(ModelSettingsDto {
        active_provider: provider_to_string(active_provider),
        local_profile: LocalModelProfileDto {
            chat_endpoint: local_chat_endpoint,
            graph_endpoint: local_graph_endpoint,
            embed_endpoint: local_embed_endpoint,
            models_root: normalize_optional_text(local.models_root),
            llama_server_path: normalize_optional_text(local.llama_server_path),
            chat_model: local_chat_model,
            graph_model: local_graph_model,
            embed_model: local_embed_model,
            chat_model_path: normalize_optional_text(local.chat_model_path),
            graph_model_path: normalize_optional_text(local.graph_model_path),
            embed_model_path: normalize_optional_text(local.embed_model_path),
            chat_context_length: local.chat_context_length,
            graph_context_length: local.graph_context_length,
            embed_context_length: local.embed_context_length,
            chat_concurrency: local.chat_concurrency,
            graph_concurrency: local.graph_concurrency,
            embed_concurrency: local.embed_concurrency,
            rerank_endpoint: local_rerank_endpoint,
            rerank_model: local_rerank_model,
            rerank_model_path: normalize_optional_text(local.rerank_model_path),
            rerank_context_length: local.rerank_context_length,
            rerank_concurrency: local.rerank_concurrency,
            performance_preset: normalize_performance_preset(local.performance_preset),
            n_gpu_layers: local.n_gpu_layers,
            batch_size: local.batch_size,
            ubatch_size: local.ubatch_size,
            threads: local.threads,
            threads_batch: local.threads_batch,
            flash_attn: local.flash_attn,
            cache_type_k: normalize_optional_text(local.cache_type_k),
            cache_type_v: normalize_optional_text(local.cache_type_v),
        },
        remote_profile: RemoteModelProfileDto {
            protocol: remote_protocol,
            api_format: Some(remote_api_format),
            chat_endpoint: remote_chat_endpoint,
            graph_endpoint: remote_graph_endpoint,
            embed_endpoint: remote_embed_endpoint,
            api_key: normalize_optional_text(remote.api_key),
            chat_model: remote_chat_model,
            graph_model: remote_graph_model,
            embed_model: remote_embed_model,
            chat_context_length: remote.chat_context_length,
            graph_context_length: remote.graph_context_length,
            embed_context_length: remote.embed_context_length,
            chat_concurrency: remote.chat_concurrency,
            graph_concurrency: remote.graph_concurrency,
            embed_concurrency: remote.embed_concurrency,
        },
        stop_local_models_on_exit: payload.stop_local_models_on_exit,
    })
}

/// The model runtime settings of the active provider.
pub struct ActiveRuntimeModelSettings {
    pub provider: ModelProvider,
    pub protocol: String,
    pub api_format: String,
    pub chat_endpoint: String,
    pub graph_endpoint: String,
    pub embed_endpoint: String,
    pub api_key: Option<String>,
    pub models_root: Option<String>,
    pub chat_model: String,
    pub graph_model: String,
    pub embed_model: String,
    pub chat_context_length: Option<u32>,
    pub graph_context_length: Option<u32>,
    pub embed_context_length: Option<u32>,
    pub chat_concurrency: Option<u32>,
    pub graph_concurrency: Option<u32>,
    pub embed_concurrency: Option<u32>,
    pub rerank_endpoint: String,
    pub rerank_model: String,
    pub rerank_enabled: bool,
}

fn clone_opt(o: &Option<String>) -> (r: Option<String>)
    ensures
        opt_text(r) == opt_text(*o),
{
    match o {
        Some(s) => Some(s.clone()),
        None => None,
    }
}

/// The runtime settings for the active provider. Reranking runs only with the local
/// provider, on the local rerank endpoint.
pub fn resolve_active_runtime_settings(settings: &ModelSettingsDto) -> (r: ActiveRuntimeModelSettings)
    ensures
        r.provider == provider_of(settings.active_provider@),
        r.rerank_endpoint@ == endpoint_for(ModelProvider::LlamaCppLocal, settings.local_profile.rerank_endpoint@),
        r.rerank_model@ == trim(settings.local_profile.rerank_model@),
        r.rerank_enabled == (r.provider == ModelProvider::LlamaCppLocal),
        r.provider == ModelProvider::OpenAiCompatible ==> {
            let rp = settings.remote_profile;
            &&& r.protocol@ == rp.protocol@
            &&& r.api_format@ == chat_api_format(opt_text(rp.api_format))
            &&& r.chat_endpoint@ == endpoint_for(ModelProvider::OpenAiCompatible, rp.chat_endpoint@)
            &&& r.graph_endpoint@ == endpoint_for(ModelProvider::OpenAiCompatible, rp.graph_endpoint@)
            &&& r.embed_endpoint@ == endpoint_for(ModelProvider::OpenAiCompatible, rp.embed_endpoint@)
            &&& opt_text(r.api_key) == optional_text(opt_text(rp.api_key))
            &&& r.models_root is None
            &&& r.chat_model@ == trim(rp.chat_model@)
            &&& r.graph_model@ == trim(rp.graph_model@)
            &&& r.embed_model@ == trim(rp.embed_model@)
            &&& r.chat_context_length == rp.chat_context_length
            &&& r.graph_context_length == rp.graph_context_length
            &&& r.embed_context_length == rp.embed_context_length
            &&& r.chat_concurrency == rp.chat_concurrency
            &&& r.graph_concurrency == rp.graph_concurrency
            &&& r.embed_concurrency == rp.embed_concurrency
        },
        r.provider == ModelProvider::LlamaCppLocal ==> {
            let lp = settings.local_profile;
            &&& r.protocol@ == "openai_chat_completions"@
            &&& r.api_format@ == "chat"@
            &&& r.chat_endpoint@ == endpoint_for(ModelProvider::LlamaCppLocal, lp.chat_endpoint@)
            &&& r.graph_endpoint@ == endpoint_for(ModelProvider::LlamaCppLocal, lp.graph_endpoint@)
            &&& r.embed_endpoint@ == endpoint_for(ModelProvider::LlamaCppLocal, lp.embed_endpoint@)
            &&& r.api_key is None
            &&& opt_text(r.models_root) == optional_text(opt_text(lp.models_root))
            &&& r.chat_model@ == trim(lp.chat_model@)
            &&& r.graph_model@ == trim(lp.graph_model@)
            &&& r.embed_model@ == trim(lp.embed_model@)
            &&& r.chat_context_length == lp.chat_context_length
            &&& r.graph_context_length == lp.graph_context_length
            &&& r.embed_context_length == lp.embed_context_length
            &&& r.chat_concurrency == lp.chat_concurrency
            &&& r.graph_concurrency == lp.graph_concurrency
            &&& r.embed_concurrency == lp.embed_concurrency
        },
{
    let provider = ModelProvider::from_value(settings.active_provider.as_str());
    let lp = &settings.local_profile;
    let rerank_endpoint = normalize_endpoint(ModelProvider::LlamaCppLocal, lp.rerank_endpoint.as_str());
    let rerank_model = trim_str(lp.rerank_model.as_str());
    if provider == ModelProvider::OpenAiCompatible {
        let rp = &settings.remote_profile;
        let api_format = match &rp.api_format {
            Some(f) => normalize_chat_api_format(Some(f.as_str())),
            None => normalize_chat_api_format(None),
        };
        ActiveRuntimeModelSettings {
            provider,
            protocol: rp.protocol.clone(),
            api_format,
            chat_endpoint: normalize_endpoint(ModelProvider::OpenAiCompatible, rp.chat_endpoint.as_str()),
            graph_endpoint: normalize_endpoint(ModelProvider::OpenAiCompatible, rp.graph_endpoint.as_str()),
            embed_endpoint: normalize_endpoint(ModelProvider::OpenAiCompatible, rp.embed_endpoint.as_str()),
            api_key: normalize_optional_text(clone_opt(&rp.api_key)),
            models_root: None,
            chat_model: trim_str(rp.chat_model.as_str()),
            graph_model: trim_str(rp.graph_model.as_str()),
            embed_model: trim_str(rp.embed_model.as_str()),
            chat_context_length: rp.chat_context_length,
            graph_context_length: rp.graph_context_length,
            embed_context_length: rp.embed_context_length,
            chat_concurrency: rp.chat_concurrency,
            graph_concurrency: rp.graph_concurrency,
            embed_concurrency: rp.embed_concurrency,
            rerank_endpoint,
            rerank_model,
            rerank_enabled: false,
        }
    } else {
        ActiveRuntimeModelSettings {
            provider,
            protocol: "openai_chat_completions".to_owned(),
            api_format: "chat".to_owned(),
            chat_endpoint: normalize_endpoint(ModelProvider::LlamaCppLocal, lp.chat_endpoint.as_str()),
            graph_endpoint: normalize_endpoint(ModelProvider::LlamaCppLocal, lp.graph_endpoint.as_str()),
            embed_endpoint: normalize_endpoint(ModelProvider::LlamaCppLocal, lp.embed_endpoint.as_str()),
            api_key: None,
            models_root: normalize_optional_text(clone_opt(&lp.models_root)),
            chat_model: trim_str(lp.chat_model.as_str()),
            graph_model: trim_str(lp.graph_model.as_str()),
            embed_model: trim_str(lp.embed_model.as_str()),
            chat_context_length: lp.chat_context_length,
            graph_context_length: lp.graph_context_length,
            embed_context_length: lp.embed_context_length,
            chat_concurrency: lp.chat_concurrency,
            graph_concurrency: lp.graph_concurrency,
            embed_concurrency: lp.embed_concurrency,
            rerank_endpoint,
            rerank_model,
            rerank_enabled: true,
        }
    }
}


/// Whether the active runtime settings are complete enough to start the engine: every
/// role's endpoint and model set (not blank), and for a remote provider an API key too.
pub open spec fn runtime_ready(a: ActiveRuntimeModelSettings) -> bool {
    &&& trim(a.chat_endpoint@).len() > 0 && trim(a.graph_endpoint@).len() > 0 && trim(a.embed_endpoint@).len() > 0
    &&& trim(a.chat_model@).len() > 0 && trim(a.graph_model@).len() > 0 && trim(a.embed_model@).len() > 0
    &&& a.provider == ModelProvider::OpenAiCompatible ==> match a.api_key {
        Some(k) => trim(k@).len() > 0,
        None => false,
    }
}

fn nonblank(s: &str) -> (r: bool)
    ensures
        r == (trim(s@).len() > 0),
{
    crate::text::trim_chars(&crate::text::to_chars(s)).len() > 0
}

/// Whether the active runtime settings can start the engine.
pub fn runtime_configured(active: &ActiveRuntimeModelSettings) -> (r: bool)
    ensures
        r == runtime_ready(*active),
{
    let roles = nonblank(active.chat_endpoint.as_str()) && nonblank(active.graph_endpoint.as_str())
        && nonblank(active.embed_endpoint.as_str()) && nonblank(active.chat_model.as_str())
        && nonblank(active.graph_model.as_str()) && nonblank(active.embed_model.as_str());
    if active.provider == ModelProvider::OpenAiCompatible {
        roles && match &active.api_key {
            Some(k) => nonblank(k.as_str()),
            None => false,
        }
    } else {
        roles
    }
}

} // verus!
