//! Model settings as the server stores and serves them: a single local endpoint, one
//! endpoint per remote role (with a legacy shared one), and the runtime settings derived for
//! the active provider.
use crate::model_endpoints::{
    normalize_optional_text, normalize_performance_preset, normalize_remote_protocol, optional_text,
    performance_preset, provider_name, provider_of, provider_to_string, remote_protocol, strip_openai_compatible_request_path,
    openai_base_url, ModelProvider, DEFAULT_CHAT_ENDPOINT, DEFAULT_MODEL_ENDPOINT_OPENAI,
};
use crate::stored_settings::{
    choose_model, copy_text, env_provider, fallback_provider, first, first_text, model_choice, only_if, or_default,
    remote_key_choice, shared_provider, text_or, ModelEnv, StoredModelSettings, DEFAULT_CHAT_MODEL,
    DEFAULT_EMBED_MODEL_QWEN3, DEFAULT_GRAPH_MODEL, DEFAULT_MODEL_PROVIDER,
};
use crate::text::{trim, trim_str};
use crate::text::{opt_text};
use vstd::prelude::*;

verus! {

/// The local (llama.cpp) model profile.
pub struct LocalModelProfileDto {
    pub endpoint: String,
    pub models_root: Option<String>,
    pub chat_model: String,
    pub graph_model: String,
    pub embed_model: String,
    pub chat_context_length: Option<u32>,
    pub graph_context_length: Option<u32>,
    pub embed_context_length: Option<u32>,
    pub chat_concurrency: Option<u32>,
    pub graph_concurrency: Option<u32>,
    pub embed_concurrency: Option<u32>,
    pub performance_preset: Option<String>,
    pub n_gpu_layers: Option<i32>,
    pub batch_size: Option<u32>,
    pub ubatch_size: Option<u32>,
    pub threads: Option<u32>,
    pub threads_batch: Option<u32>,
    pub flash_attn: Option<bool>,
    pub cache_type_k: Option<String>,
    pub cache_type_v: Option<String>,
}

/// The remote (OpenAI-compatible) model profile.
pub struct RemoteModelProfileDto {
    pub protocol: String,
    pub chat_endpoint: String,
    pub graph_endpoint: String,
    pub embed_endpoint: String,
    /// The single endpoint of older settings, used for roles that have none.
    pub endpoint: Option<String>,
    pub api_key: Option<String>,
    pub chat_model: String,
    pub graph_model: String,
    pub embed_model: String,
    pub chat_context_length: Option<u32>,
    pub graph_context_length: Option<u32>,
    pub embed_context_length: Option<u32>,
    pub chat_concurrency: Option<u32>,
    pub graph_concurrency: Option<u32>,
    pub embed_concurrency: Option<u32>,
}

/// Model settings: the active provider and both profiles.
pub struct ModelSettingsDto {
    pub active_provider: String,
    pub local_profile: LocalModelProfileDto,
    pub remote_profile: RemoteModelProfileDto,
    pub stop_local_models_on_exit: bool,
}

/// The endpoint of `provider` as the server normalises it: the default when blank, the
/// OpenAI base URL for the remote provider, trimmed otherwise.
pub open spec fn server_endpoint(provider: ModelProvider, endpoint: Seq<char>) -> Seq<char> {
    let t = trim(endpoint);
    if t.len() > 0 {
        if provider == ModelProvider::OpenAiCompatible {
            openai_base_url(t)
        } else {
            t
        }
    } else if provider == ModelProvider::OpenAiCompatible {
        DEFAULT_MODEL_ENDPOINT_OPENAI@
    } else {
        DEFAULT_CHAT_ENDPOINT@
    }
}

pub fn normalize_endpoint(provider: ModelProvider, endpoint: &str) -> (r: String)
    ensures
        r@ == server_endpoint(provider, endpoint@),
{
    let t = trim_str(endpoint);
    if !t.as_str().is_empty() {
        if provider == ModelProvider::OpenAiCompatible {
            proof {
                crate::text::lemma_trim_idem(endpoint@);
            }
            return strip_openai_compatible_request_path(t.as_str());
        }
        return t;
    }
    if provider == ModelProvider::OpenAiCompatible {
        DEFAULT_MODEL_ENDPOINT_OPENAI.to_owned()
    } else {
        DEFAULT_CHAT_ENDPOINT.to_owned()
    }
}

/// A remote role's endpoint: its own when not blank, the legacy shared one otherwise.
pub open spec fn remote_role_endpoint(own: Seq<char>, legacy: Option<Seq<char>>) -> Seq<char> {
    server_endpoint(
        ModelProvider::OpenAiCompatible,
        if trim(own).len() == 0 {
            match legacy {
                Some(l) => l,
                None => Seq::empty(),
            }
        } else {
            own
        },
    )
}

fn remote_endpoint(own: &String, legacy: &Option<String>) -> (r: String)
    ensures
        r@ == remote_role_endpoint(own@, opt_text(*legacy)),
{
    let t = trim_str(own.as_str());
    if t.as_str().is_empty() {
        match legacy {
            Some(l) => normalize_endpoint(ModelProvider::OpenAiCompatible, l.as_str()),
            None => {
                proof {
                    reveal_strlit("");
                }
                assert(""@ =~= Seq::<char>::empty());
                normalize_endpoint(ModelProvider::OpenAiCompatible, "")
            },
        }
    } else {
        normalize_endpoint(ModelProvider::OpenAiCompatible, own.as_str())
    }
}

/// Whether some model name of the payload is blank.
pub open spec fn some_model_blank(p: ModelSettingsDto) -> bool {
    trim(p.local_profile.chat_model@).len() == 0 || trim(p.local_profile.graph_model@).len() == 0
        || trim(p.local_profile.embed_model@).len() == 0 || trim(p.remote_profile.chat_model@).len() == 0
        || trim(p.remote_profile.graph_model@).len() == 0 || trim(p.remote_profile.embed_model@).len() == 0
}

/// Normalises model settings submitted for saving. Every chat, graph and embedding model
/// name must be non-blank; endpoints, protocol, preset and optional texts are normalised; a
/// remote role without an endpoint takes the legacy shared one, which is then dropped. The
/// models root comes back trimmed, for the caller to canonicalise on disk.
pub fn normalize_model_settings_payload(payload: ModelSettingsDto) -> (r: Result<ModelSettingsDto, String>)
    ensures
        some_model_blank(payload) <==> r is Err,
        r matches Err(msg) ==> msg@ == "chat/graph/embed model names cannot be empty"@,
        r matches Ok(n) ==> {
            &&& n.active_provider@ == provider_name(provider_of(payload.active_provider@))
            &&& n.local_profile.endpoint@ == server_endpoint(ModelProvider::LlamaCppLocal, payload.local_profile.endpoint@)
            &&& opt_text(n.local_profile.models_root) == optional_text(opt_text(payload.local_profile.models_root))
            &&& n.local_profile.chat_model@ == trim(payload.local_profile.chat_model@)
            &&& n.local_profile.graph_model@ == trim(payload.local_profile.graph_model@)
            &&& n.local_profile.embed_model@ == trim(payload.local_profile.embed_model@)
            &&& n.local_profile.chat_context_length == payload.local_profile.chat_context_length
            &&& n.local_profile.graph_context_length == payload.local_profile.graph_context_length
            &&& n.local_profile.embed_context_length == payload.local_profile.embed_context_length
            &&& n.local_profile.chat_concurrency == payload.local_profile.chat_concurrency
            &&& n.local_profile.graph_concurrency == payload.local_profile.graph_concurrency
            &&& n.local_profile.embed_concurrency == payload.local_profile.embed_concurrency
            &&& opt_text(n.local_profile.performance_preset) == Some(performance_preset(opt_text(payload.local_profile.performance_preset)))
            &&& n.local_profile.n_gpu_layers == payload.local_profile.n_gpu_layers
            &&& n.local_profile.batch_size == payload.local_profile.batch_size
            &&& n.local_profile.ubatch_size == payload.local_profile.ubatch_size
            &&& n.local_profile.threads == payload.local_profile.threads
            &&& n.local_profile.threads_batch == payload.local_profile.threads_batch
            &&& n.local_profile.flash_attn == payload.local_profile.flash_attn
            &&& opt_text(n.local_profile.cache_type_k) == optional_text(opt_text(payload.local_profile.cache_type_k))
            &&& opt_text(n.local_profile.cache_type_v) == optional_text(opt_text(payload.local_profile.cache_type_v))
            &&& n.remote_profile.protocol@ == remote_protocol(Some(payload.remote_profile.protocol@))
            &&& n.remote_profile.chat_endpoint@ == remote_role_endpoint(payload.remote_profile.chat_endpoint@, opt_text(payload.remote_profile.endpoint))
            &&& n.remote_profile.graph_endpoint@ == remote_role_endpoint(payload.remote_profile.graph_endpoint@, opt_text(payload.remote_profile.endpoint))
            &&& n.remote_profile.embed_endpoint@ == remote_role_endpoint(payload.remote_profile.embed_endpoint@, opt_text(payload.remote_profile.endpoint))
            &&& n.remote_profile.endpoint is None
            &&& opt_text(n.remote_profile.api_key) == optional_text(opt_text(payload.remote_profile.api_key))
            &&& n.remote_profile.chat_model@ == trim(payload.remote_profile.chat_model@)
            &&& n.remote_profile.graph_model@ == trim(payload.remote_profile.graph_model@)
            &&& n.remote_profile.embed_model@ == trim(payload.remote_profile.embed_model@)
            &&& n.remote_profile.chat_context_length == payload.remote_profile.chat_context_length
            &&& n.remote_profile.graph_context_length == payload.remote_profile.graph_context_length
            &&& n.remote_profile.embed_context_length == payload.remote_profile.embed_context_length
            &&& n.remote_profile.chat_concurrency == payload.remote_profile.chat_concurrency
            &&& n.remote_profile.graph_concurrency == payload.remote_profile.graph_concurrency
            &&& n.remote_profile.embed_concurrency == payload.remote_profile.embed_concurrency
            &&& n.stop_local_models_on_exit == payload.stop_local_models_on_exit
        },
{
    let active_provider = ModelProvider::from_value(payload.active_provider.as_str());
    let local_endpoint = normalize_endpoint(ModelProvider::LlamaCppLocal, payload.local_profile.endpoint.as_str());
    let remote_chat_endpoint = remote_endpoint(&payload.remote_profile.chat_endpoint, &payload.remote_profile.endpoint);
    let remote_graph_endpoint = remote_endpoint(&payload.remote_profile.graph_endpoint, &payload.remote_profile.endpoint);
    let remote_embed_endpoint = remote_endpoint(&payload.remote_profile.embed_endpoint, &payload.remote_profile.endpoint);
    let local_chat_model = trim_str(payload.local_profile.chat_model.as_str());
    let local_graph_model = trim_str(payload.local_profile.graph_model.as_str());
    let local_embed_model = trim_str(payload.local_profile.embed_model.as_str());
    let remote_chat_model = trim_str(payload.remote_profile.chat_model.as_str());
    let remote_graph_model = trim_str(payload.remote_profile.graph_model.as_str());
    let remote_embed_model = trim_str(payload.remote_profile.embed_model.as_str());
    let remote_protocol = normalize_remote_protocol(Some(payload.remote_profile.protocol.as_str()));
    if local_chat_model.as_str().is_empty() || local_graph_model.as_str().is_empty()
        || local_embed_model.as_str().is_empty() || remote_chat_model.as_str().is_empty()
        || remote_graph_model.as_str().is_empty() || remote_embed_model.as_str().is_empty() {
        return Err("chat/graph/embed model names cannot be empty".to_owned());
    }
    let local = payload.local_profile;
    let remote = payload.remote_profile;
    Ok(ModelSettingsDto {
        active_provider: provider_to_string(active_provider),
        local_profile: LocalModelProfileDto {
            endpoint: local_endpoint,
            models_root: normalize_optional_text(local.models_root),
            chat_model: local_chat_model,
            graph_model: local_graph_model,
            embed_model: local_embed_model,
            chat_context_length: local.chat_context_length,
            graph_context_length: local.graph_context_length,
            embed_context_length: local.embed_context_length,
            chat_concurrency: local.chat_concurrency,
            graph_concurrency: local.graph_concurrency,
            embed_concurrency: local.embed_concurrency,
            performance_preset: normalize_performance_preset(local.performance_preset),
            n_gpu_layers: local.n_gpu_layers,
            batch_size: local.batch_size,
            ubatch_size: local.ubatch_size,
            threads: local.threads,
            threads_batch: local.threads_batch,
            flash_attn: local.flash_attn,
            cache_type_k: normalize_optional_text(local.cache_type_k),
            cache_type_v: normalize_optional_text(local.cache_type_v),
        },
        remote_profile: RemoteModelProfileDto {
            protocol: remote_protocol,
            chat_endpoint: remote_chat_endpoint,
            graph_endpoint: remote_graph_endpoint,
            embed_endpoint: remote_embed_endpoint,
            endpoint: None,
            api_key: normalize_optional_text(remote.api_key),
            chat_model: remote_chat_model,
            graph_model: remote_graph_model,
            embed_model: remote_embed_model,
            chat_context_length: remote.chat_context_length,
            graph_context_length: remote.graph_context_length,
            embed_context_length: remote.embed_context_length,
            chat_concurrency: remote.chat_concurrency,
            graph_concurrency: remote.graph_concurrency,
            embed_concurrency: remote.embed_concurrency,
        },
        stop_local_models_on_exit: payload.stop_local_models_on_exit,
    })
}

/// The model runtime settings of the active provider.
pub struct ActiveRuntimeModelSettings {
    pub provider: ModelProvider,
    pub protocol: String,
    pub chat_endpoint: String,
    pub graph_endpoint: String,
    pub embed_endpoint: String,
    pub api_key: Option<String>,
    pub models_root: Option<String>,
    pub chat_model: String,
    pub graph_model: String,
    pub embed_model: String,
    pub chat_context_length: Option<u32>,
    pub graph_context_length: Option<u32>,
    pub embed_context_length: Option<u32>,
    pub chat_concurrency: Option<u32>,
    pub graph_concurrency: Option<u32>,
    pub embed_concurrency: Option<u32>,
}

fn clone_opt(o: &Option<String>) -> (r: Option<String>)
    ensures
        opt_text(r) == opt_text(*o),
{
    match o {
        Some(s) => Some(s.clone()),
        None => None,
    }
}

/// The runtime settings for the active provider: the remote profile's values for the
/// OpenAI-compatible provider, the local profile's otherwise (all roles on the one local
/// endpoint).
pub fn resolve_active_runtime_settings(settings: &ModelSettingsDto) -> (r: ActiveRuntimeModelSettings)
    ensures
        r.provider == provider_of(settings.active_provider@),
        r.provider == ModelProvider::OpenAiCompatible ==> {
            let rp = settings.remote_profile;
            &&& r.protocol@ == rp.protocol@
            &&& r.chat_endpoint@ == server_endpoint(ModelProvider::OpenAiCompatible, rp.chat_endpoint@)
            &&& r.graph_endpoint@ == server_endpoint(ModelProvider::OpenAiCompatible, rp.graph_endpoint@)
            &&& r.embed_endpoint@ == server_endpoint(ModelProvider::OpenAiCompatible, rp.embed_endpoint@)
            &&& opt_text(r.api_key) == optional_text(opt_text(rp.api_key))
            &&& r.models_root is None
            &&& r.chat_model@ == trim(rp.chat_model@)
            &&& r.graph_model@ == trim(rp.graph_model@)
            &&& r.embed_model@ == trim(rp.embed_model@)
            &&& r.chat_context_length == rp.chat_context_length
            &&& r.graph_context_length == rp.graph_context_length
            &&& r.embed_context_length == rp.embed_context_length
            &&& r.chat_concurrency == rp.chat_concurrency
            &&& r.graph_concurrency == rp.graph_concurrency
            &&& r.embed_concurrency == rp.embed_concurrency
        },
        r.provider == ModelProvider::LlamaCppLocal ==> {
            let lp = settings.local_profile;
            &&& r.protocol@ == "openai_chat_completions"@
            &&& r.chat_endpoint@ == server_endpoint(ModelProvider::LlamaCppLocal, lp.endpoint@)
            &&& r.graph_endpoint@ == server_endpoint(ModelProvider::LlamaCppLocal, lp.endpoint@)
            &&& r.embed_endpoint@ == server_endpoint(ModelProvider::LlamaCppLocal, lp.endpoint@)
            &&& r.api_key is None
            &&& opt_text(r.models_root) == optional_text(opt_text(lp.models_root))
            &&& r.chat_model@ == trim(lp.chat_model@)
            &&& r.graph_model@ == trim(lp.graph_model@)
            &&& r.embed_model@ == trim(lp.embed_model@)
            &&& r.chat_context_length == lp.chat_context_length
            &&& r.graph_context_length == lp.graph_context_length
            &&& r.embed_context_length == lp.embed_context_length
            &&& r.chat_concurrency == lp.chat_concurrency
            &&& r.graph_concurrency == lp.graph_concurrency
            &&& r.embed_concurrency == lp.embed_concurrency
        },
{
    let provider = ModelProvider::from_value(settings.active_provider.as_str());
    if provider == ModelProvider::OpenAiCompatible {
        let rp = &settings.remote_profile;
        ActiveRuntimeModelSettings {
            provider,
            protocol: rp.protocol.clone(),
            chat_endpoint: normalize_endpoint(ModelProvider::OpenAiCompatible, rp.chat_endpoint.as_str()),
            graph_endpoint: normalize_endpoint(ModelProvider::OpenAiCompatible, rp.graph_endpoint.as_str()),
            embed_endpoint: normalize_endpoint(ModelProvider::OpenAiCompatible, rp.embed_endpoint.as_str()),
            api_key: normalize_optional_text(clone_opt(&rp.api_key)),
            models_root: None,
            chat_model: trim_str(rp.chat_model.as_str()),
            graph_model: trim_str(rp.graph_model.as_str()),
            embed_model: trim_str(rp.embed_model.as_str()),
            chat_context_length: rp.chat_context_length,
            graph_context_length: rp.graph_context_length,
            embed_context_length: rp.embed_context_length,
            chat_concurrency: rp.chat_concurrency,
            graph_concurrency: rp.graph_concurrency,
            embed_concurrency: rp.embed_concurrency,
        }
    } else {
        let lp = &settings.local_profile;
        ActiveRuntimeModelSettings {
            provider,
            protocol: "openai_chat_completions".to_owned(),
            chat_endpoint: normalize_endpoint(ModelProvider::LlamaCppLocal, lp.endpoint.as_str()),
            graph_endpoint: normalize_endpoint(ModelProvider::LlamaCppLocal, lp.endpoint.as_str()),
            embed_endpoint: normalize_endpoint(ModelProvider::LlamaCppLocal, lp.endpoint.as_str()),
            api_key: None,
            models_root: normalize_optional_text(clone_opt(&lp.models_root)),
            chat_model: trim_str(lp.chat_model.as_str()),
            graph_model: trim_str(lp.graph_model.as_str()),
            embed_model: trim_str(lp.embed_model.as_str()),
            chat_context_length: lp.chat_context_length,
            graph_context_length: lp.graph_context_length,
            embed_context_length: lp.embed_context_length,
            chat_concurrency: lp.chat_concurrency,
            graph_concurrency: lp.graph_concurrency,
            embed_concurrency: lp.embed_concurrency,
        }
    }
}


/// The local endpoint the server starts with: the stored one, the older shared endpoint when
/// it belongs to the local provider, the environment's when it names the local provider, then
/// the default.
pub open spec fn server_local_endpoint_choice(s: StoredModelSettings, env: ModelEnv) -> Seq<char> {
    or_default(
        first(
            first(opt_text(s.local_endpoint), only_if(shared_provider(s, env) == ModelProvider::LlamaCppLocal, opt_text(s.endpoint))),
            only_if(env_provider(s, env) == ModelProvider::LlamaCppLocal, opt_text(env.model_endpoint)),
        ),
        DEFAULT_CHAT_ENDPOINT@,
    )
}

/// A remote role's endpoint: the role's own, the remote profile's single one, the older shared
/// one when it belongs to the remote provider, the environment's (the role's variable, else the
/// generic one) when it names the remote provider, then the OpenAI default.
pub open spec fn server_remote_endpoint_choice(
    s: StoredModelSettings,
    env: ModelEnv,
    own: Option<Seq<char>>,
    role_env: Option<Seq<char>>,
) -> Seq<char> {
    or_default(
        first(
            first(first(own, opt_text(s.remote_endpoint)), only_if(shared_provider(s, env) == ModelProvider::OpenAiCompatible, opt_text(s.endpoint))),
            only_if(env_provider(s, env) == ModelProvider::OpenAiCompatible, first(role_env, opt_text(env.model_endpoint))),
        ),
        DEFAULT_MODEL_ENDPOINT_OPENAI@,
    )
}

fn choose_remote_endpoint(
    s: &StoredModelSettings,
    own: &Option<String>,
    shared_remote: bool,
    env_remote: bool,
    role_env: &Option<String>,
    generic_env: &Option<String>,
) -> (r: String)
    ensures
        r@ == or_default(
            first(
                first(first(opt_text(*own), opt_text(s.remote_endpoint)), only_if(shared_remote, opt_text(s.endpoint))),
                only_if(env_remote, first(opt_text(*role_env), opt_text(*generic_env))),
            ),
            DEFAULT_MODEL_ENDPOINT_OPENAI@,
        ),
{
    let none: Option<String> = None;
    let a = first_text(own, &s.remote_endpoint);
    let b = first_text(&a, if shared_remote { &s.endpoint } else { &none });
    let e = first_text(role_env, generic_env);
    let c = first_text(&b, if env_remote { &e } else { &none });
    text_or(c, DEFAULT_MODEL_ENDPOINT_OPENAI)
}

/// The model settings the server starts with, from the settings file and the environment.
pub fn resolve_model_settings(settings: &StoredModelSettings, env: &ModelEnv) -> (r: ModelSettingsDto)
    ensures
        r.active_provider@ == provider_name(provider_of(fallback_provider(*settings, *env))),
        r.local_profile.endpoint@ == server_endpoint(ModelProvider::LlamaCppLocal, server_local_endpoint_choice(*settings, *env)),
        opt_text(r.local_profile.models_root) == optional_text(opt_text(settings.local_models_root)),
        r.local_profile.chat_model@ == model_choice(opt_text(settings.local_chat_model), opt_text(settings.chat_model),
            shared_provider(*settings, *env) == ModelProvider::LlamaCppLocal, opt_text(env.chat_model),
            env_provider(*settings, *env) == ModelProvider::LlamaCppLocal, DEFAULT_CHAT_MODEL@),
        r.local_profile.graph_model@ == model_choice(opt_text(settings.local_graph_model), opt_text(settings.graph_model),
            shared_provider(*settings, *env) == ModelProvider::LlamaCppLocal, opt_text(env.graph_model),
            env_provider(*settings, *env) == ModelProvider::LlamaCppLocal, DEFAULT_GRAPH_MODEL@),
        r.local_profile.embed_model@ == model_choice(opt_text(settings.local_embed_model), opt_text(settings.embed_model),
            shared_provider(*settings, *env) == ModelProvider::LlamaCppLocal, opt_text(env.embed_model),
            env_provider(*settings, *env) == ModelProvider::LlamaCppLocal, DEFAULT_EMBED_MODEL_QWEN3@),
        r.local_profile.chat_context_length == settings.local_chat_context_length,
        r.local_profile.graph_context_length == settings.local_graph_context_length,
        r.local_profile.embed_context_length == settings.local_embed_context_length,
        r.local_profile.chat_concurrency == settings.local_chat_concurrency,
        r.local_profile.graph_concurrency == settings.local_graph_concurrency,
        r.local_profile.embed_concurrency == settings.local_embed_concurrency,
        opt_text(r.local_profile.performance_preset) == Some(performance_preset(opt_text(settings.local_performance_preset))),
        r.local_profile.n_gpu_layers == settings.local_n_gpu_layers,
        r.local_profile.batch_size == settings.local_batch_size,
        r.local_profile.ubatch_size == settings.local_ubatch_size,
        r.local_profile.threads == settings.local_threads,
        r.local_profile.threads_batch == settings.local_threads_batch,
        r.local_profile.flash_attn == settings.local_flash_attn,
        opt_text(r.local_profile.cache_type_k) == optional_text(opt_text(settings.local_cache_type_k)),
        opt_text(r.local_profile.cache_type_v) == optional_text(opt_text(settings.local_cache_type_v)),
        r.remote_profile.protocol@ == remote_protocol(opt_text(settings.remote_protocol)),
        r.remote_profile.chat_endpoint@ == server_endpoint(ModelProvider::OpenAiCompatible,
            server_remote_endpoint_choice(*settings, *env, opt_text(settings.remote_chat_endpoint), opt_text(env.chat_endpoint))),
        r.remote_profile.graph_endpoint@ == server_endpoint(ModelProvider::OpenAiCompatible,
            server_remote_endpoint_choice(*settings, *env, opt_text(settings.remote_graph_endpoint), opt_text(env.graph_endpoint))),
        r.remote_profile.embed_endpoint@ == server_endpoint(ModelProvider::OpenAiCompatible,
            server_remote_endpoint_choice(*settings, *env, opt_text(settings.remote_embed_endpoint), opt_text(env.embed_endpoint))),
        r.remote_profile.endpoint is None,
        opt_text(r.remote_profile.api_key) == optional_text(remote_key_choice(*settings, *env)),
        r.remote_profile.chat_model@ == model_choice(opt_text(settings.remote_chat_model), opt_text(settings.chat_model),
            shared_provider(*settings, *env) == ModelProvider::OpenAiCompatible, opt_text(env.chat_model),
            env_provider(*settings, *env) == ModelProvider::OpenAiCompatible, DEFAULT_CHAT_MODEL@),
        r.remote_profile.graph_model@ == model_choice(opt_text(settings.remote_graph_model), opt_text(settings.graph_model),
            shared_provider(*settings, *env) == ModelProvider::OpenAiCompatible, opt_text(env.graph_model),
            env_provider(*settings, *env) == ModelProvider::OpenAiCompatible, DEFAULT_GRAPH_MODEL@),
        r.remote_profile.embed_model@ == model_choice(opt_text(settings.remote_embed_model), opt_text(settings.embed_model),
            shared_provider(*settings, *env) == ModelProvider::OpenAiCompatible, opt_text(env.embed_model),
            env_provider(*settings, *env) == ModelProvider::OpenAiCompatible, DEFAULT_EMBED_MODEL_QWEN3@),
        r.remote_profile.chat_context_length == settings.remote_chat_context_length,
        r.remote_profile.graph_context_length == settings.remote_graph_context_length,
        r.remote_profile.embed_context_length == settings.remote_embed_context_length,
        r.remote_profile.chat_concurrency == settings.remote_chat_concurrency,
        r.remote_profile.graph_concurrency == settings.remote_graph_concurrency,
        r.remote_profile.embed_concurrency == settings.remote_embed_concurrency,
        r.stop_local_models_on_exit == match settings.stop_local_models_on_exit { Some(b) => b, None => true },
{
    let s = settings;
    let fallback = text_or(first_text(&first_text(&s.active_provider, &s.provider), &env.provider), DEFAULT_MODEL_PROVIDER);
    let active = ModelProvider::from_value(fallback.as_str());
    let env_prov = match &env.provider {
        Some(p) => ModelProvider::from_value(p.as_str()),
        None => active,
    };
    let shared_name = match &s.provider {
        Some(p) => p.clone(),
        None => fallback.clone(),
    };
    let shared = ModelProvider::from_value(shared_name.as_str());
    let local = ModelProvider::LlamaCppLocal;
    let remote = ModelProvider::OpenAiCompatible;
    let shared_local = shared == local;
    let shared_remote = shared == remote;
    let env_local = env_prov == local;
    let env_remote = env_prov == remote;
    let none: Option<String> = None;

    let local_a = first_text(&s.local_endpoint, if shared_local { &s.endpoint } else { &none });
    let local_b = first_text(&local_a, if env_local { &env.model_endpoint } else { &none });
    let local_endpoint = text_or(local_b, DEFAULT_CHAT_ENDPOINT);

    let remote_chat = choose_remote_endpoint(s, &s.remote_chat_endpoint, shared_remote, env_remote, &env.chat_endpoint, &env.model_endpoint);
    let remote_graph = choose_remote_endpoint(s, &s.remote_graph_endpoint, shared_remote, env_remote, &env.graph_endpoint, &env.model_endpoint);
    let remote_embed = choose_remote_endpoint(s, &s.remote_embed_endpoint, shared_remote, env_remote, &env.embed_endpoint, &env.model_endpoint);

    let key_a = first_text(&s.remote_api_key, if shared_remote { &s.api_key } else { &none });
    let key_b = first_text(&key_a, if env_remote { &env.api_key } else { &none });
    let protocol = match &s.remote_protocol {
        Some(p) => normalize_remote_protocol(Some(p.as_str())),
        None => normalize_remote_protocol(None),
    };

    ModelSettingsDto {
        active_provider: provider_to_string(active),
        local_profile: LocalModelProfileDto {
            endpoint: normalize_endpoint(local, local_endpoint.as_str()),
            models_root: normalize_optional_text(copy_text(&s.local_models_root)),
            chat_model: choose_model(&s.local_chat_model, &s.chat_model, shared_local, &env.chat_model, env_local, DEFAULT_CHAT_MODEL),
            graph_model: choose_model(&s.local_graph_model, &s.graph_model, shared_local, &env.graph_model, env_local, DEFAULT_GRAPH_MODEL),
            embed_model: choose_model(&s.local_embed_model, &s.embed_model, shared_local, &env.embed_model, env_local, DEFAULT_EMBED_MODEL_QWEN3),
            chat_context_length: s.local_chat_context_length,
            graph_context_length: s.local_graph_context_length,
            embed_context_length: s.local_embed_context_length,
            chat_concurrency: s.local_chat_concurrency,
            graph_concurrency: s.local_graph_concurrency,
            embed_concurrency: s.local_embed_concurrency,
            performance_preset: normalize_performance_preset(copy_text(&s.local_performance_preset)),
            n_gpu_layers: s.local_n_gpu_layers,
            batch_size: s.local_batch_size,
            ubatch_size: s.local_ubatch_size,
            threads: s.local_threads,
            threads_batch: s.local_threads_batch,
            flash_attn: s.local_flash_attn,
            cache_type_k: normalize_optional_text(copy_text(&s.local_cache_type_k)),
            cache_type_v: normalize_optional_text(copy_text(&s.local_cache_type_v)),
        },
        remote_profile: RemoteModelProfileDto {
            protocol,
            chat_endpoint: normalize_endpoint(remote, remote_chat.as_str()),
            graph_endpoint: normalize_endpoint(remote, remote_graph.as_str()),
            embed_endpoint: normalize_endpoint(remote, remote_embed.as_str()),
            endpoint: None,
            api_key: normalize_optional_text(key_b),
            chat_model: choose_model(&s.remote_chat_model, &s.chat_model, shared_remote, &env.chat_model, env_remote, DEFAULT_CHAT_MODEL),
            graph_model: choose_model(&s.remote_graph_model, &s.graph_model, shared_remote, &env.graph_model, env_remote, DEFAULT_GRAPH_MODEL),
            embed_model: choose_model(&s.remote_embed_model, &s.embed_model, shared_remote, &env.embed_model, env_remote, DEFAULT_EMBED_MODEL_QWEN3),
            chat_context_length: s.remote_chat_context_length,
            graph_context_length: s.remote_graph_context_length,
            embed_context_length: s.remote_embed_context_length,
            chat_concurrency: s.remote_chat_concurrency,
            graph_concurrency: s.remote_graph_concurrency,
            embed_concurrency: s.remote_embed_concurrency,
        },
        stop_local_models_on_exit: match s.stop_local_models_on_exit { Some(b) => b, None => true },
    }
}

} // verus!
