//! The model settings of the desktop application as read at start-up: each value comes from
//! the settings file (per-role fields first, then the older shared ones), then from the
//! environment, then from a default; the local endpoints are repaired when roles collide.
use crate::desktop_settings::{LocalModelProfileDto, ModelSettingsDto, RemoteModelProfileDto, DEFAULT_RERANK_MODEL_BGE};
use crate::model_endpoints::{
    chat_api_format, dedupe_endpoints, dedupe_local_endpoints, endpoint_for, normalize_chat_api_format,
    normalize_endpoint, normalize_optional_text, normalize_performance_preset, normalize_remote_protocol, optional_text, performance_preset, provider_name, provider_of, provider_to_string, remote_protocol, ModelProvider,
    DEFAULT_CHAT_ENDPOINT, DEFAULT_EMBED_ENDPOINT, DEFAULT_GRAPH_ENDPOINT, DEFAULT_RERANK_ENDPOINT,
};
use crate::text::{opt_text};
use vstd::prelude::*;

verus! {

/// Provider used when neither the settings nor the environment name one.
pub const DEFAULT_MODEL_PROVIDER: &'static str = "llama_cpp_local";

/// Chat model used when none is configured.
pub const DEFAULT_CHAT_MODEL: &'static str = "qwen3:14b";

/// Graph-extraction model used when none is configured.
pub const DEFAULT_GRAPH_MODEL: &'static str = "qwen3:8b";

/// Embedding model used when none is configured.
pub const DEFAULT_EMBED_MODEL_QWEN3: &'static str = "Qwen3-Embedding-4B";

/// Context length of the local chat model when none is configured.
pub const DEFAULT_LOCAL_CHAT_CONTEXT_LENGTH: u32 = 16384;

/// Context length of the local graph model when none is configured.
pub const DEFAULT_LOCAL_GRAPH_CONTEXT_LENGTH: u32 = 4096;

/// Context length of the local embedding model when none is configured.
pub const DEFAULT_LOCAL_EMBED_CONTEXT_LENGTH: u32 = 8192;

/// The model-related environment variables, as read at start-up.
pub struct ModelEnv {
    /// MEMORI_MODEL_PROVIDER
    pub provider: Option<String>,
    /// MEMORI_MODEL_ENDPOINT
    pub model_endpoint: Option<String>,
    /// MEMORI_CHAT_ENDPOINT
    pub chat_endpoint: Option<String>,
    /// MEMORI_GRAPH_ENDPOINT
    pub graph_endpoint: Option<String>,
    /// MEMORI_EMBED_ENDPOINT
    pub embed_endpoint: Option<String>,
    /// MEMORI_RERANK_ENDPOINT
    pub rerank_endpoint: Option<String>,
    /// MEMORI_CHAT_MODEL
    pub chat_model: Option<String>,
    /// MEMORI_GRAPH_MODEL
    pub graph_model: Option<String>,
    /// MEMORI_EMBED_MODEL
    pub embed_model: Option<String>,
    /// MEMORI_RERANK_MODEL
    pub rerank_model: Option<String>,
    /// MEMORI_MODEL_API_KEY
    pub api_key: Option<String>,
}

/// The model fields of the settings file.
pub struct StoredModelSettings {
    pub active_provider: Option<String>,
    pub local_endpoint: Option<String>,
    pub local_chat_endpoint: Option<String>,
    pub local_graph_endpoint: Option<String>,
    pub local_embed_endpoint: Option<String>,
    pub local_rerank_endpoint: Option<String>,
    pub local_models_root: Option<String>,
    pub local_llama_server_path: Option<String>,
    pub local_chat_model: Option<String>,
    pub local_graph_model: Option<String>,
    pub local_embed_model: Option<String>,
    pub local_rerank_model: Option<String>,
    pub local_chat_model_path: Option<String>,
    pub local_graph_model_path: Option<String>,
    pub local_embed_model_path: Option<String>,
    pub local_rerank_model_path: Option<String>,
    pub local_chat_context_length: Option<u32>,
    pub local_graph_context_length: Option<u32>,
    pub local_embed_context_length: Option<u32>,
    pub local_rerank_context_length: Option<u32>,
    pub local_chat_concurrency: Option<u32>,
    pub local_graph_concurrency: Option<u32>,
    pub local_embed_concurrency: Option<u32>,
    pub local_rerank_concurrency: Option<u32>,
    pub local_performance_preset: Option<String>,
    pub local_n_gpu_layers: Option<i32>,
    pub local_batch_size: Option<u32>,
    pub local_ubatch_size: Option<u32>,
    pub local_threads: Option<u32>,
    pub local_threads_batch: Option<u32>,
    pub local_flash_attn: Option<bool>,
    pub local_cache_type_k: Option<String>,
    pub local_cache_type_v: Option<String>,
    pub remote_endpoint: Option<String>,
    pub remote_chat_endpoint: Option<String>,
    pub remote_graph_endpoint: Option<String>,
    pub remote_embed_endpoint: Option<String>,
    pub remote_api_key: Option<String>,
    pub remote_api_format: Option<String>,
    pub remote_protocol: Option<String>,
    pub remote_chat_model: Option<String>,
    pub remote_graph_model: Option<String>,
    pub remote_embed_model: Option<String>,
    pub remote_chat_context_length: Option<u32>,
    pub remote_graph_context_length: Option<u32>,
    pub remote_embed_context_length: Option<u32>,
    pub remote_chat_concurrency: Option<u32>,
    pub remote_graph_concurrency: Option<u32>,
    pub remote_embed_concurrency: Option<u32>,
    pub stop_local_models_on_exit: Option<bool>,
    /// Older single-profile fields.
    pub provider: Option<String>,
    pub endpoint: Option<String>,
    pub api_key: Option<String>,
    pub chat_model: Option<String>,
    pub graph_model: Option<String>,
    pub embed_model: Option<String>,
}

/// The first of two optional texts that is present.
pub open spec fn first(a: Option<Seq<char>>, b: Option<Seq<char>>) -> Option<Seq<char>> {
    match a {
        Some(x) => Some(x),
        None => b,
    }
}

/// An optional text, or `default`.
pub open spec fn or_default(a: Option<Seq<char>>, default: Seq<char>) -> Seq<char> {
    match a {
        Some(x) => x,
        None => default,
    }
}

/// `value` when `cond` holds, else nothing.
pub open spec fn only_if(cond: bool, value: Option<Seq<char>>) -> Option<Seq<char>> {
    if cond { value } else { None }
}

/// The provider name the settings fall back on: the active provider, the older provider
/// field, the environment, then the default.
pub open spec fn fallback_provider(s: StoredModelSettings, env: ModelEnv) -> Seq<char> {
    or_default(first(first(opt_text(s.active_provider), opt_text(s.provider)), opt_text(env.provider)), DEFAULT_MODEL_PROVIDER@)
}

/// The provider of the environment, or the active one when the environment names none.
pub open spec fn env_provider(s: StoredModelSettings, env: ModelEnv) -> ModelProvider {
    match opt_text(env.provider) {
        Some(p) => provider_of(p),
        None => provider_of(fallback_provider(s, env)),
    }
}

/// The provider the older shared model fields belong to.
pub open spec fn shared_provider(s: StoredModelSettings, env: ModelEnv) -> ModelProvider {
    provider_of(or_default(opt_text(s.provider), fallback_provider(s, env)))
}

/// An endpoint: the role's own setting, the profile's single endpoint, the older shared one,
/// the role's environment variable, the generic one, then the role's default.
pub open spec fn endpoint_choice(
    own: Option<Seq<char>>,
    single: Option<Seq<char>>,
    legacy: Option<Seq<char>>,
    role_env: Option<Seq<char>>,
    generic_env: Option<Seq<char>>,
    default: Seq<char>,
) -> Seq<char> {
    or_default(first(first(first(first(own, single), legacy), role_env), generic_env), default)
}

/// A model name: the role's own setting, the older shared field when it belongs to this
/// profile's provider, the environment when it names this provider, then the default.
pub open spec fn model_choice(
    own: Option<Seq<char>>,
    shared: Option<Seq<char>>,
    shared_applies: bool,
    env_value: Option<Seq<char>>,
    env_applies: bool,
    default: Seq<char>,
) -> Seq<char> {
    or_default(first(first(own, only_if(shared_applies, shared)), only_if(env_applies, env_value)), default)
}

/// The remote API key before normalisation.
pub open spec fn remote_key_choice(s: StoredModelSettings, env: ModelEnv) -> Option<Seq<char>> {
    first(
        first(opt_text(s.remote_api_key), only_if(shared_provider(s, env) == ModelProvider::OpenAiCompatible, opt_text(s.api_key))),
        only_if(env_provider(s, env) == ModelProvider::OpenAiCompatible, opt_text(env.api_key)),
    )
}

/// The remote API format before normalisation: the stored one, else derived from the stored
/// protocol, else "chat".
pub open spec fn api_format_choice(s: StoredModelSettings) -> Seq<char> {
    match opt_text(s.remote_api_format) {
        Some(f) => f,
        None => match opt_text(s.remote_protocol) {
            Some(p) => if remote_protocol(Some(p)) == "openai_responses"@ { "responses"@ } else { "chat"@ },
            None => "chat"@,
        },
    }
}

/// The four local endpoints before repair.
pub open spec fn local_endpoints_choice(s: StoredModelSettings, env: ModelEnv) -> (Seq<char>, Seq<char>, Seq<char>, Seq<char>) {
    let local = ModelProvider::LlamaCppLocal;
    (
        endpoint_for(local, endpoint_choice(opt_text(s.local_chat_endpoint), opt_text(s.local_endpoint), opt_text(s.endpoint), opt_text(env.chat_endpoint), opt_text(env.model_endpoint), DEFAULT_CHAT_ENDPOINT@)),
        endpoint_for(local, endpoint_choice(opt_text(s.local_graph_endpoint), opt_text(s.local_endpoint), opt_text(s.endpoint), opt_text(env.graph_endpoint), opt_text(env.model_endpoint), DEFAULT_GRAPH_ENDPOINT@)),
        endpoint_for(local, endpoint_choice(opt_text(s.local_embed_endpoint), opt_text(s.local_endpoint), opt_text(s.endpoint), opt_text(env.embed_endpoint), opt_text(env.model_endpoint), DEFAULT_EMBED_ENDPOINT@)),
        endpoint_for(local, endpoint_choice(opt_text(s.local_rerank_endpoint), None, None, opt_text(env.rerank_endpoint), opt_text(env.model_endpoint), DEFAULT_RERANK_ENDPOINT@)),
    )
}

pub(crate) fn first_text(a: &Option<String>, b: &Option<String>) -> (r: Option<String>)
    ensures
        opt_text(r) == first(opt_text(*a), opt_text(*b)),
{
    match a {
        Some(x) => Some(x.clone()),
        None => match b {
            Some(y) => Some(y.clone()),
            None => None,
        },
    }
}

pub(crate) fn text_or(a: Option<String>, default: &str) -> (r: String)
    ensures
        r@ == or_default(opt_text(a), default@),
{
    match a {
        Some(x) => x,
        None => default.to_owned(),
    }
}

pub(crate) fn copy_text(a: &Option<String>) -> (r: Option<String>)
    ensures
        opt_text(r) == opt_text(*a),
{
    match a {
        Some(x) => Some(x.clone()),
        None => None,
    }
}

fn choose_endpoint(
    own: &Option<String>,
    single: &Option<String>,
    legacy: &Option<String>,
    role_env: &Option<String>,
    generic_env: &Option<String>,
    default: &str,
) -> (r: String)
    ensures
        r@ == endpoint_choice(opt_text(*own), opt_text(*single), opt_text(*legacy), opt_text(*role_env), opt_text(*generic_env), default@),
{
    let a = first_text(own, single);
    let b = first_text(&a, legacy);
    let c = first_text(&b, role_env);
    let d = first_text(&c, generic_env);
    text_or(d, default)
}

pub(crate) fn choose_model(
    own: &Option<String>,
    shared: &Option<String>,
    shared_applies: bool,
    env_value: &Option<String>,
    env_applies: bool,
    default: &str,
) -> (r: String)
    ensures
        r@ == model_choice(opt_text(*own), opt_text(*shared), shared_applies, opt_text(*env_value), env_applies, default@),
{
    let none: Option<String> = None;
    let a = first_text(own, if shared_applies { shared } else { &none });
    let b = first_text(&a, if env_applies { env_value } else { &none });
    text_or(b, default)
}

/// The model settings the desktop application starts with, from the settings file and the
/// environment.
pub fn resolve_model_settings(settings: &StoredModelSettings, env: &ModelEnv) -> (r: ModelSettingsDto)
    ensures
        r.active_provider@ == provider_name(provider_of(fallback_provider(*settings, *env))),
        ({
            let chosen = local_endpoints_choice(*settings, *env);
            let repaired = dedupe_endpoints(chosen.0, chosen.1, chosen.2, chosen.3);
            &&& r.local_profile.chat_endpoint@ == repaired.0
            &&& r.local_profile.graph_endpoint@ == repaired.1
            &&& r.local_profile.embed_endpoint@ == repaired.2
            &&& r.local_profile.rerank_endpoint@ == repaired.3
        }),
        opt_text(r.local_profile.models_root) == optional_text(opt_text(settings.local_models_root)),
        opt_text(r.local_profile.llama_server_path) == optional_text(opt_text(settings.local_llama_server_path)),
        r.local_profile.chat_model@ == model_choice(opt_text(settings.local_chat_model), opt_text(settings.chat_model),
            shared_provider(*settings, *env) == ModelProvider::LlamaCppLocal, opt_text(env.chat_model),
            env_provider(*settings, *env) == ModelProvider::LlamaCppLocal, DEFAULT_CHAT_MODEL@),
        r.local_profile.graph_model@ == model_choice(opt_text(settings.local_graph_model), opt_text(settings.graph_model),
            shared_provider(*settings, *env) == ModelProvider::LlamaCppLocal, opt_text(env.graph_model),
            env_provider(*settings, *env) == ModelProvider::LlamaCppLocal, DEFAULT_GRAPH_MODEL@),
        r.local_profile.embed_model@ == model_choice(opt_text(settings.local_embed_model), opt_text(settings.embed_model),
            shared_provider(*settings, *env) == ModelProvider::LlamaCppLocal, opt_text(env.embed_model),
            env_provider(*settings, *env) == ModelProvider::LlamaCppLocal, DEFAULT_EMBED_MODEL_QWEN3@),
        r.local_profile.rerank_model@ == model_choice(opt_text(settings.local_rerank_model), None, false,
            opt_text(env.rerank_model), env_provider(*settings, *env) == ModelProvider::LlamaCppLocal, DEFAULT_RERANK_MODEL_BGE@),
        opt_text(r.local_profile.chat_model_path) == optional_text(opt_text(settings.local_chat_model_path)),
        opt_text(r.local_profile.graph_model_path) == optional_text(opt_text(settings.local_graph_model_path)),
        opt_text(r.local_profile.embed_model_path) == optional_text(opt_text(settings.local_embed_model_path)),
        opt_text(r.local_profile.rerank_model_path) == optional_text(opt_text(settings.local_rerank_model_path)),
        r.local_profile.chat_context_length == Some(match settings.local_chat_context_length { Some(n) => n, None => DEFAULT_LOCAL_CHAT_CONTEXT_LENGTH }),
        r.local_profile.graph_context_length == Some(match settings.local_graph_context_length { Some(n) => n, None => DEFAULT_LOCAL_GRAPH_CONTEXT_LENGTH }),
        r.local_profile.embed_context_length == Some(match settings.local_embed_context_length { Some(n) => n, None => DEFAULT_LOCAL_EMBED_CONTEXT_LENGTH }),
        r.local_profile.rerank_context_length == settings.local_rerank_context_length,
        r.local_profile.chat_concurrency == settings.local_chat_concurrency,
        r.local_profile.graph_concurrency == settings.local_graph_concurrency,
        r.local_profile.embed_concurrency == settings.local_embed_concurrency,
        r.local_profile.rerank_concurrency == settings.local_rerank_concurrency,
        opt_text(r.local_profile.performance_preset) == Some(performance_preset(opt_text(settings.local_performance_preset))),
        r.local_profile.n_gpu_layers == settings.local_n_gpu_layers,
        r.local_profile.batch_size == settings.local_batch_size,
        r.local_profile.ubatch_size == settings.local_ubatch_size,
        r.local_profile.threads == settings.local_threads,
        r.local_profile.threads_batch == settings.local_threads_batch,
        r.local_profile.flash_attn == settings.local_flash_attn,
        opt_text(r.local_profile.cache_type_k) == optional_text(opt_text(settings.local_cache_type_k)),
        opt_text(r.local_profile.cache_type_v) == optional_text(opt_text(settings.local_cache_type_v)),
        r.remote_profile.protocol@ == remote_protocol(opt_text(settings.remote_protocol)),
        opt_text(r.remote_profile.api_format) == Some(chat_api_format(Some(api_format_choice(*settings)))),
        r.remote_profile.chat_endpoint@ == endpoint_for(ModelProvider::OpenAiCompatible, endpoint_choice(
            opt_text(settings.remote_chat_endpoint), opt_text(settings.remote_endpoint), opt_text(settings.endpoint),
            opt_text(env.chat_endpoint), opt_text(env.model_endpoint), DEFAULT_CHAT_ENDPOINT@)),
        r.remote_profile.graph_endpoint@ == endpoint_for(ModelProvider::OpenAiCompatible, endpoint_choice(
            opt_text(settings.remote_graph_endpoint), opt_text(settings.remote_endpoint), opt_text(settings.endpoint),
            opt_text(env.graph_endpoint), opt_text(env.model_endpoint), DEFAULT_GRAPH_ENDPOINT@)),
        r.remote_profile.embed_endpoint@ == endpoint_for(ModelProvider::OpenAiCompatible, endpoint_choice(
            opt_text(settings.remote_embed_endpoint), opt_text(settings.remote_endpoint), opt_text(settings.endpoint),
            opt_text(env.embed_endpoint), opt_text(env.model_endpoint), DEFAULT_EMBED_ENDPOINT@)),
        opt_text(r.remote_profile.api_key) == optional_text(remote_key_choice(*settings, *env)),
        r.remote_profile.chat_model@ == model_choice(opt_text(settings.remote_chat_model), opt_text(settings.chat_model),
            shared_provider(*settings, *env) == ModelProvider::OpenAiCompatible, opt_text(env.chat_model),
            env_provider(*settings, *env) == ModelProvider::OpenAiCompatible, DEFAULT_CHAT_MODEL@),
        r.remote_profile.graph_model@ == model_choice(opt_text(settings.remote_graph_model), opt_text(settings.graph_model),
            shared_provider(*settings, *env) == ModelProvider::OpenAiCompatible, opt_text(env.graph_model),
            env_provider(*settings, *env) == ModelProvider::OpenAiCompatible, DEFAULT_GRAPH_MODEL@),
        r.remote_profile.embed_model@ == model_choice(opt_text(settings.remote_embed_model), opt_text(settings.embed_model),
            shared_provider(*settings, *env) == ModelProvider::OpenAiCompatible, opt_text(env.embed_model),
            env_provider(*settings, *env) == ModelProvider::OpenAiCompatible, DEFAULT_EMBED_MODEL_QWEN3@),
        r.remote_profile.chat_context_length == settings.remote_chat_context_length,
        r.remote_profile.graph_context_length == settings.remote_graph_context_length,
        r.remote_profile.embed_context_length == settings.remote_embed_context_length,
        r.remote_profile.chat_concurrency == settings.remote_chat_concurrency,
        r.remote_profile.graph_concurrency == settings.remote_graph_concurrency,
        r.remote_profile.embed_concurrency == settings.remote_embed_concurrency,
        r.stop_local_models_on_exit == match settings.stop_local_models_on_exit { Some(b) => b, None => true },
{
    let s = settings;
    let fallback = text_or(first_text(&first_text(&s.active_provider, &s.provider), &env.provider), DEFAULT_MODEL_PROVIDER);
    let active = ModelProvider::from_value(fallback.as_str());
    let env_prov = match &env.provider {
        Some(p) => ModelProvider::from_value(p.as_str()),
        None => active,
    };
    let shared_name = match &s.provider {
        Some(p) => p.clone(),
        None => fallback.clone(),
    };
    let shared = ModelProvider::from_value(shared_name.as_str());
    let local = ModelProvider::LlamaCppLocal;
    let remote = ModelProvider::OpenAiCompatible;
    let none: Option<String> = None;

    let local_chat = normalize_endpoint(local, choose_endpoint(&s.local_chat_endpoint, &s.local_endpoint, &s.endpoint, &env.chat_endpoint, &env.model_endpoint, DEFAULT_CHAT_ENDPOINT).as_str());
    let local_graph = normalize_endpoint(local, choose_endpoint(&s.local_graph_endpoint, &s.local_endpoint, &s.endpoint, &env.graph_endpoint, &env.model_endpoint, DEFAULT_GRAPH_ENDPOINT).as_str());
    let local_embed = normalize_endpoint(local, choose_endpoint(&s.local_embed_endpoint, &s.local_endpoint, &s.endpoint, &env.embed_endpoint, &env.model_endpoint, DEFAULT_EMBED_ENDPOINT).as_str());
    let local_rerank = normalize_endpoint(local, choose_endpoint(&s.local_rerank_endpoint, &none, &none, &env.rerank_endpoint, &env.model_endpoint, DEFAULT_RERANK_ENDPOINT).as_str());
    let (local_chat, local_graph, local_embed, local_rerank) = dedupe_local_endpoints(local_chat, local_graph, local_embed, local_rerank);

    let remote_chat = normalize_endpoint(remote, choose_endpoint(&s.remote_chat_endpoint, &s.remote_endpoint, &s.endpoint, &env.chat_endpoint, &env.model_endpoint, DEFAULT_CHAT_ENDPOINT).as_str());
    let remote_graph = normalize_endpoint(remote, choose_endpoint(&s.remote_graph_endpoint, &s.remote_endpoint, &s.endpoint, &env.graph_endpoint, &env.model_endpoint, DEFAULT_GRAPH_ENDPOINT).as_str());
    let remote_embed = normalize_endpoint(remote, choose_endpoint(&s.remote_embed_endpoint, &s.remote_endpoint, &s.endpoint, &env.embed_endpoint, &env.model_endpoint, DEFAULT_EMBED_ENDPOINT).as_str());

    let shared_local = shared == local;
    let shared_remote = shared == remote;
    let env_local = env_prov == local;
    let env_remote = env_prov == remote;

    let key_a = first_text(&s.remote_api_key, if shared_remote { &s.api_key } else { &none });
    let key_b = first_text(&key_a, if env_remote { &env.api_key } else { &none });

    let api_format = match &s.remote_api_format {
        Some(f) => f.clone(),
        None => match &s.remote_protocol {
            Some(p) => {
                let protocol = normalize_remote_protocol(Some(p.as_str()));
                if crate::text::str_eq(protocol.as_str(), "openai_responses") {
                    "responses".to_owned()
                } else {
                    "chat".to_owned()
                }
            },
            None => "chat".to_owned(),
        },
    };
    let protocol = match &s.remote_protocol {
        Some(p) => normalize_remote_protocol(Some(p.as_str())),
        None => normalize_remote_protocol(None),
    };

    ModelSettingsDto {
        active_provider: provider_to_string(active),
        local_profile: LocalModelProfileDto {
            chat_endpoint: local_chat,
            graph_endpoint: local_graph,
            embed_endpoint: local_embed,
            models_root: normalize_optional_text(copy_text(&s.local_models_root)),
            llama_server_path: normalize_optional_text(copy_text(&s.local_llama_server_path)),
            chat_model: choose_model(&s.local_chat_model, &s.chat_model, shared_local, &env.chat_model, env_local, DEFAULT_CHAT_MODEL),
            graph_model: choose_model(&s.local_graph_model, &s.graph_model, shared_local, &env.graph_model, env_local, DEFAULT_GRAPH_MODEL),
            embed_model: choose_model(&s.local_embed_model, &s.embed_model, shared_local, &env.embed_model, env_local, DEFAULT_EMBED_MODEL_QWEN3),
            chat_model_path: normalize_optional_text(copy_text(&s.local_chat_model_path)),
            graph_model_path: normalize_optional_text(copy_text(&s.local_graph_model_path)),
            embed_model_path: normalize_optional_text(copy_text(&s.local_embed_model_path)),
            chat_context_length: Some(match s.local_chat_context_length { Some(n) => n, None => DEFAULT_LOCAL_CHAT_CONTEXT_LENGTH }),
            graph_context_length: Some(match s.local_graph_context_length { Some(n) => n, None => DEFAULT_LOCAL_GRAPH_CONTEXT_LENGTH }),
            embed_context_length: Some(match s.local_embed_context_length { Some(n) => n, None => DEFAULT_LOCAL_EMBED_CONTEXT_LENGTH }),
            chat_concurrency: s.local_chat_concurrency,
            graph_concurrency: s.local_graph_concurrency,
            embed_concurrency: s.local_embed_concurrency,
            rerank_endpoint: local_rerank,
            rerank_model: choose_model(&s.local_rerank_model, &none, false, &env.rerank_model, env_local, DEFAULT_RERANK_MODEL_BGE),
            rerank_model_path: normalize_optional_text(copy_text(&s.local_rerank_model_path)),
            rerank_context_length: s.local_rerank_context_length,
            rerank_concurrency: s.local_rerank_concurrency,
            performance_preset: normalize_performance_preset(copy_text(&s.local_performance_preset)),
            n_gpu_layers: s.local_n_gpu_layers,
            batch_size: s.local_batch_size,
            ubatch_size: s.local_ubatch_size,
            threads: s.local_threads,
            threads_batch: s.local_threads_batch,
            flash_attn: s.local_flash_attn,
            cache_type_k: normalize_optional_text(copy_text(&s.local_cache_type_k)),
            cache_type_v: normalize_optional_text(copy_text(&s.local_cache_type_v)),
        },
        remote_profile: RemoteModelProfileDto {
            protocol,
            api_format: Some(normalize_chat_api_format(Some(api_format.as_str()))),
            chat_endpoint: remote_chat,
            graph_endpoint: remote_graph,
            embed_endpoint: remote_embed,
            api_key: normalize_optional_text(key_b),
            chat_model: choose_model(&s.remote_chat_model, &s.chat_model, shared_remote, &env.chat_model, env_remote, DEFAULT_CHAT_MODEL),
            graph_model: choose_model(&s.remote_graph_model, &s.graph_model, shared_remote, &env.graph_model, env_remote, DEFAULT_GRAPH_MODEL),
            embed_model: choose_model(&s.remote_embed_model, &s.embed_model, shared_remote, &env.embed_model, env_remote, DEFAULT_EMBED_MODEL_QWEN3),
            chat_context_length: s.remote_chat_context_length,
            graph_context_length: s.remote_graph_context_length,
            embed_context_length: s.remote_embed_context_length,
            chat_concurrency: s.remote_chat_concurrency,
            graph_concurrency: s.remote_graph_concurrency,
            embed_concurrency: s.remote_embed_concurrency,
        },
        stop_local_models_on_exit: match s.stop_local_models_on_exit { Some(b) => b, None => true },
    }
}


/// The provider the settings or the environment name explicitly: the active provider, else
/// the older provider field, else MEMORI_MODEL_PROVIDER, the first that is set; none when
/// that one is blank.
pub open spec fn explicit_provider(s: StoredModelSettings, env: ModelEnv) -> Option<ModelProvider> {
    match first(opt_text(s.active_provider), first(opt_text(s.provider), opt_text(env.provider))) {
        Some(v) => if crate::text::trim(v).len() > 0 { Some(provider_of(crate::text::trim(v))) } else { None },
        None => None,
    }
}

pub fn resolve_explicit_provider(settings: &StoredModelSettings, env: &ModelEnv) -> (r: Option<ModelProvider>)
    ensures
        r == explicit_provider(*settings, *env),
{
    let chosen: Option<&String> = match &settings.active_provider {
        Some(v) => Some(v),
        None => match &settings.provider {
            Some(v) => Some(v),
            None => match &env.provider {
                Some(v) => Some(v),
                None => None,
            },
        },
    };
    match chosen {
        Some(v) => {
            let t = crate::text::trim_str(v.as_str());
            if crate::text::to_chars(t.as_str()).len() > 0 {
                Some(crate::model_endpoints::ModelProvider::from_value(t.as_str()))
            } else {
                None
            }
        },
        None => None,
    }
}

} // verus!
