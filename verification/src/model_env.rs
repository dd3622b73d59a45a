//! The environment variables through which the active model settings reach the retrieval
//! engine: which are set to which value and which are cleared.
use crate::desktop_settings::ActiveRuntimeModelSettings as DesktopRuntimeSettings;
use crate::model_endpoints::provider_name;
use crate::model_endpoints::provider_to_string;
use crate::server_settings::ActiveRuntimeModelSettings as ServerRuntimeSettings;
use crate::text::{decimal, decimal_chars, from_chars, to_chars};
use crate::text::{opt_text};
use vstd::prelude::*;

verus! {

/// One change of the environment: set `name` to `value`, or clear it when there is none.
#[derive(Debug)]
pub struct EnvChange {
    pub name: String,
    pub value: Option<String>,
}

pub type ChangeView = (Seq<char>, Option<Seq<char>>);

pub open spec fn changes_view(cs: Seq<EnvChange>) -> Seq<ChangeView> {
    cs.map_values(|c: EnvChange| (c.name@, match c.value {
        Some(v) => Some(v@),
        None => None,
    }))
}

pub open spec fn set_to(name: Seq<char>, value: Seq<char>) -> ChangeView {
    (name, Some(value))
}

/// A number in decimal, or a cleared variable.
pub open spec fn number_or_clear(name: Seq<char>, v: Option<u32>) -> ChangeView {
    (name, match v {
        Some(n) => Some(decimal(n as nat)),
        None => None,
    })
}

/// The API key, then the context lengths and concurrencies of the three roles; unset ones
/// are cleared.
pub open spec fn tuning_changes(
    api_key: Option<String>,
    chat_ctx: Option<u32>,
    graph_ctx: Option<u32>,
    embed_ctx: Option<u32>,
    chat_conc: Option<u32>,
    graph_conc: Option<u32>,
    embed_conc: Option<u32>,
) -> Seq<ChangeView> {
    seq![
        ("MEMORI_MODEL_API_KEY"@, opt_text(api_key)),
        number_or_clear("MEMORI_CHAT_CONTEXT_LENGTH"@, chat_ctx),
        number_or_clear("MEMORI_GRAPH_CONTEXT_LENGTH"@, graph_ctx),
        number_or_clear("MEMORI_EMBED_CONTEXT_LENGTH"@, embed_ctx),
        number_or_clear("MEMORI_CHAT_CONCURRENCY"@, chat_conc),
        number_or_clear("MEMORI_GRAPH_CONCURRENCY"@, graph_conc),
        number_or_clear("MEMORI_EMBED_CONCURRENCY"@, embed_conc),
    ]
}

/// The changes of the desktop application: provider, protocol, chat API format, the chat
/// endpoint also as the single model endpoint, the endpoints and models of each role, the
/// reranker and whether it is on ("1" or "0"), then the tuning.
pub open spec fn desktop_env_changes(s: DesktopRuntimeSettings) -> Seq<ChangeView> {
    seq![
        set_to("MEMORI_MODEL_PROVIDER"@, provider_name(s.provider)),
        set_to("MEMORI_MODEL_PROTOCOL"@, s.protocol@),
        set_to("MEMORI_CHAT_API_FORMAT"@, s.api_format@),
        set_to("MEMORI_MODEL_ENDPOINT"@, s.chat_endpoint@),
        set_to("MEMORI_CHAT_ENDPOINT"@, s.chat_endpoint@),
        set_to("MEMORI_GRAPH_ENDPOINT"@, s.graph_endpoint@),
        set_to("MEMORI_EMBED_ENDPOINT"@, s.embed_endpoint@),
        set_to("MEMORI_CHAT_MODEL"@, s.chat_model@),
        set_to("MEMORI_GRAPH_MODEL"@, s.graph_model@),
        set_to("MEMORI_EMBED_MODEL"@, s.embed_model@),
        set_to("MEMORI_RERANK_ENDPOINT"@, s.rerank_endpoint@),
        set_to("MEMORI_RERANK_MODEL"@, s.rerank_model@),
        set_to("MEMORI_RERANK_ENABLED"@, if s.rerank_enabled { "1"@ } else { "0"@ }),
    ] + tuning_changes(
        s.api_key,
        s.chat_context_length,
        s.graph_context_length,
        s.embed_context_length,
        s.chat_concurrency,
        s.graph_concurrency,
        s.embed_concurrency,
    )
}

/// The changes of the HTTP service: provider, protocol, the chat endpoint also as the
/// single model endpoint, the endpoints and models of each role, then the tuning.
pub open spec fn server_env_changes(s: ServerRuntimeSettings) -> Seq<ChangeView> {
    seq![
        set_to("MEMORI_MODEL_PROVIDER"@, provider_name(s.provider)),
        set_to("MEMORI_MODEL_PROTOCOL"@, s.protocol@),
        set_to("MEMORI_MODEL_ENDPOINT"@, s.chat_endpoint@),
        set_to("MEMORI_CHAT_ENDPOINT"@, s.chat_endpoint@),
        set_to("MEMORI_GRAPH_ENDPOINT"@, s.graph_endpoint@),
        set_to("MEMORI_EMBED_ENDPOINT"@, s.embed_endpoint@),
        set_to("MEMORI_CHAT_MODEL"@, s.chat_model@),
        set_to("MEMORI_GRAPH_MODEL"@, s.graph_model@),
        set_to("MEMORI_EMBED_MODEL"@, s.embed_model@),
    ] + tuning_changes(
        s.api_key,
        s.chat_context_length,
        s.graph_context_length,
        s.embed_context_length,
        s.chat_concurrency,
        s.graph_concurrency,
        s.embed_concurrency,
    )
}

fn push_set(out: &mut Vec<EnvChange>, name: &str, value: &str)
    ensures
        changes_view(final(out)@) == changes_view(old(out)@).push(set_to(name@, value@)),
{
    let ghost before = changes_view(out@);
    out.push(EnvChange { name: from_chars(&to_chars(name)), value: Some(from_chars(&to_chars(value))) });
    assert(changes_view(out@) =~= before.push(set_to(name@, value@)));
}

fn push_text_or_clear(out: &mut Vec<EnvChange>, name: &str, value: &Option<String>)
    ensures
        changes_view(final(out)@) == changes_view(old(out)@).push((name@, opt_text(*value))),
{
    let ghost before = changes_view(out@);
    let v = match value {
        Some(s) => Some(from_chars(&to_chars(s.as_str()))),
        None => None,
    };
    out.push(EnvChange { name: from_chars(&to_chars(name)), value: v });
    assert(changes_view(out@) =~= before.push((name@, opt_text(*value))));
}

fn push_number_or_clear(out: &mut Vec<EnvChange>, name: &str, value: Option<u32>)
    ensures
        changes_view(final(out)@) == changes_view(old(out)@).push(number_or_clear(name@, value)),
{
    let ghost before = changes_view(out@);
    let v = match value {
        Some(n) => Some(from_chars(&decimal_chars(n as u64))),
        None => None,
    };
    out.push(EnvChange { name: from_chars(&to_chars(name)), value: v });
    assert(changes_view(out@) =~= before.push(number_or_clear(name@, value)));
}

fn push_tuning(
    out: &mut Vec<EnvChange>,
    api_key: &Option<String>,
    chat_ctx: Option<u32>,
    graph_ctx: Option<u32>,
    embed_ctx: Option<u32>,
    chat_conc: Option<u32>,
    graph_conc: Option<u32>,
    embed_conc: Option<u32>,
)
    ensures
        changes_view(final(out)@) == changes_view(old(out)@) + tuning_changes(
            *api_key,
            chat_ctx,
            graph_ctx,
            embed_ctx,
            chat_conc,
            graph_conc,
            embed_conc,
        ),
{
    let ghost before = changes_view(out@);
    push_text_or_clear(out, "MEMORI_MODEL_API_KEY", api_key);
    push_number_or_clear(out, "MEMORI_CHAT_CONTEXT_LENGTH", chat_ctx);
    push_number_or_clear(out, "MEMORI_GRAPH_CONTEXT_LENGTH", graph_ctx);
    push_number_or_clear(out, "MEMORI_EMBED_CONTEXT_LENGTH", embed_ctx);
    push_number_or_clear(out, "MEMORI_CHAT_CONCURRENCY", chat_conc);
    push_number_or_clear(out, "MEMORI_GRAPH_CONCURRENCY", graph_conc);
    push_number_or_clear(out, "MEMORI_EMBED_CONCURRENCY", embed_conc);
    assert(changes_view(out@) =~= before + tuning_changes(
        *api_key,
        chat_ctx,
        graph_ctx,
        embed_ctx,
        chat_conc,
        graph_conc,
        embed_conc,
    ));
}

/// The environment changes that hand the desktop application's active model settings to
/// the engine, in the order they are made.
pub fn desktop_model_env(settings: &DesktopRuntimeSettings) -> (r: Vec<EnvChange>)
    ensures
        changes_view(r@) == desktop_env_changes(*settings),
{
    let mut out: Vec<EnvChange> = Vec::new();
    let provider = provider_to_string(settings.provider);
    push_set(&mut out, "MEMORI_MODEL_PROVIDER", provider.as_str());
    push_set(&mut out, "MEMORI_MODEL_PROTOCOL", settings.protocol.as_str());
    push_set(&mut out, "MEMORI_CHAT_API_FORMAT", settings.api_format.as_str());
    push_set(&mut out, "MEMORI_MODEL_ENDPOINT", settings.chat_endpoint.as_str());
    push_set(&mut out, "MEMORI_CHAT_ENDPOINT", settings.chat_endpoint.as_str());
    push_set(&mut out, "MEMORI_GRAPH_ENDPOINT", settings.graph_endpoint.as_str());
    push_set(&mut out, "MEMORI_EMBED_ENDPOINT", settings.embed_endpoint.as_str());
    push_set(&mut out, "MEMORI_CHAT_MODEL", settings.chat_model.as_str());
    push_set(&mut out, "MEMORI_GRAPH_MODEL", settings.graph_model.as_str());
    push_set(&mut out, "MEMORI_EMBED_MODEL", settings.embed_model.as_str());
    push_set(&mut out, "MEMORI_RERANK_ENDPOINT", settings.rerank_endpoint.as_str());
    push_set(&mut out, "MEMORI_RERANK_MODEL", settings.rerank_model.as_str());
    push_set(&mut out, "MEMORI_RERANK_ENABLED", if settings.rerank_enabled { "1" } else { "0" });
    let ghost head = changes_view(out@);
    push_tuning(
        &mut out,
        &settings.api_key,
        settings.chat_context_length,
        settings.graph_context_length,
        settings.embed_context_length,
        settings.chat_concurrency,
        settings.graph_concurrency,
        settings.embed_concurrency,
    );
    assert(head =~= desktop_env_changes(*settings).take(13));
    assert(changes_view(out@) =~= desktop_env_changes(*settings));
    out
}

/// The environment changes that hand the HTTP service's active model settings to the engine,
/// in the order they are made.
pub fn server_model_env(settings: &ServerRuntimeSettings) -> (r: Vec<EnvChange>)
    ensures
        changes_view(r@) == server_env_changes(*settings),
{
    let mut out: Vec<EnvChange> = Vec::new();
    let provider = provider_to_string(settings.provider);
    push_set(&mut out, "MEMORI_MODEL_PROVIDER", provider.as_str());
    push_set(&mut out, "MEMORI_MODEL_PROTOCOL", settings.protocol.as_str());
    push_set(&mut out, "MEMORI_MODEL_ENDPOINT", settings.chat_endpoint.as_str());
    push_set(&mut out, "MEMORI_CHAT_ENDPOINT", settings.chat_endpoint.as_str());
    push_set(&mut out, "MEMORI_GRAPH_ENDPOINT", settings.graph_endpoint.as_str());
    push_set(&mut out, "MEMORI_EMBED_ENDPOINT", settings.embed_endpoint.as_str());
    push_set(&mut out, "MEMORI_CHAT_MODEL", settings.chat_model.as_str());
    push_set(&mut out, "MEMORI_GRAPH_MODEL", settings.graph_model.as_str());
    push_set(&mut out, "MEMORI_EMBED_MODEL", settings.embed_model.as_str());
    let ghost head = changes_view(out@);
    push_tuning(
        &mut out,
        &settings.api_key,
        settings.chat_context_length,
        settings.graph_context_length,
        settings.embed_context_length,
        settings.chat_concurrency,
        settings.graph_concurrency,
        settings.embed_concurrency,
    );
    assert(head =~= server_env_changes(*settings).take(9));
    assert(changes_view(out@) =~= server_env_changes(*settings));
    out
}

} // verus!
