//! Model providers and endpoints: normalisation of endpoint URLs and option strings, the
//! default endpoint of each local model role, and the rule that local roles use distinct
//! host:port targets.
use crate::text::{
    chars_eq, ends_with, ends_with_chars, from_chars, is_blank_chars, lower, lower_chars, to_chars, trim,
    trim_chars, trim_lower, trim_str, without_trailing_slashes, without_trailing_slashes_chars,
};
use crate::text::{opt_str_text, opt_text};
use vstd::prelude::*;

verus! {

/// Default endpoint of the local chat model.
pub const DEFAULT_CHAT_ENDPOINT: &'static str = "http://localhost:18001";

/// Default endpoint of the local graph model.
pub const DEFAULT_GRAPH_ENDPOINT: &'static str = "http://localhost:18002";

/// Default endpoint of the local embedding model.
pub const DEFAULT_EMBED_ENDPOINT: &'static str = "http://localhost:18003";

/// Default endpoint of the local rerank model.
pub const DEFAULT_RERANK_ENDPOINT: &'static str = "http://localhost:18004";

/// Default endpoint of an OpenAI-compatible provider.
pub const DEFAULT_MODEL_ENDPOINT_OPENAI: &'static str = "https://api.openai.com";

/// Where models run.
#[derive(Debug, Clone, Copy, PartialEq, Eq, Structural)]
pub enum ModelProvider {
    LlamaCppLocal,
    OpenAiCompatible,
}

/// The provider a setting names: "openai_compatible" (in any case, around whitespace) is
/// the remote provider, anything else the local one.
pub open spec fn provider_of(value: Seq<char>) -> ModelProvider {
    if lower(trim(value)) == "openai_compatible"@ {
        ModelProvider::OpenAiCompatible
    } else {
        ModelProvider::LlamaCppLocal
    }
}

impl ModelProvider {
    pub fn from_value(value: &str) -> (r: ModelProvider)
        ensures
            r == provider_of(value@),
    {
        let v = trim_lower(value);
        if chars_eq(&v, &to_chars("openai_compatible")) {
            ModelProvider::OpenAiCompatible
        } else {
            ModelProvider::LlamaCppLocal
        }
    }
}

pub open spec fn provider_name(p: ModelProvider) -> Seq<char> {
    if p == ModelProvider::OpenAiCompatible {
        "openai_compatible"@
    } else {
        "llama_cpp_local"@
    }
}

/// The setting value that names `provider`.
pub fn provider_to_string(provider: ModelProvider) -> (r: String)
    ensures
        r@ == provider_name(provider),
{
    if provider == ModelProvider::OpenAiCompatible {
        "openai_compatible".to_owned()
    } else {
        "llama_cpp_local".to_owned()
    }
}

/// A text setting trimmed, and absent when blank.
pub open spec fn optional_text(value: Option<Seq<char>>) -> Option<Seq<char>> {
    match value {
        Some(v) => if trim(v).len() == 0 { None } else { Some(trim(v)) },
        None => None,
    }
}

pub fn normalize_optional_text(value: Option<String>) -> (r: Option<String>)
    ensures
        opt_text(r) == optional_text(opt_text(value)),
{
    match value {
        Some(v) => {
            let t = trim_str(v.as_str());
            if t.as_str().is_empty() {
                None
            } else {
                Some(t)
            }
        },
        None => None,
    }
}

/// The remote protocol: "openai_responses" when so named, "openai_chat_completions"
/// otherwise.
pub open spec fn remote_protocol(value: Option<Seq<char>>) -> Seq<char> {
    let v = match value {
        Some(s) => s,
        None => Seq::empty(),
    };
    if lower(trim(v)) == "openai_responses"@ {
        "openai_responses"@
    } else {
        "openai_chat_completions"@
    }
}

fn lowered_is(value: Option<&str>, name: &str) -> (r: bool)
    ensures
        r == (lower(trim(match value { Some(s) => s@, None => Seq::<char>::empty() })) == name@),
{
    let v = match value {
        Some(s) => trim_lower(s),
        None => {
            let e: Vec<char> = Vec::new();
            assert(lower(trim(Seq::<char>::empty())) =~= e@);
            e
        },
    };
    chars_eq(&v, &to_chars(name))
}

pub fn normalize_remote_protocol(value: Option<&str>) -> (r: String)
    ensures
        r@ == remote_protocol(opt_str_text(value)),
{
    if lowered_is(value, "openai_responses") {
        "openai_responses".to_owned()
    } else {
        "openai_chat_completions".to_owned()
    }
}

/// The chat API format: "responses" for the Responses API under any of its names, "chat"
/// otherwise.
pub open spec fn chat_api_format(value: Option<Seq<char>>) -> Seq<char> {
    let v = lower(trim(match value { Some(s) => s, None => Seq::empty() }));
    if v == "responses"@ || v == "response"@ || v == "openai_responses"@ || v == "openai-response"@ {
        "responses"@
    } else {
        "chat"@
    }
}

pub fn normalize_chat_api_format(value: Option<&str>) -> (r: String)
    ensures
        r@ == chat_api_format(opt_str_text(value)),
{
    if lowered_is(value, "responses") || lowered_is(value, "response") || lowered_is(value, "openai_responses")
        || lowered_is(value, "openai-response") {
        "responses".to_owned()
    } else {
        "chat".to_owned()
    }
}

/// The performance preset: one of "gpu", "low_vram", "throughput" and "compat" (the
/// default).
pub open spec fn performance_preset(value: Option<Seq<char>>) -> Seq<char> {
    let v = match optional_text(value) {
        Some(t) => lower(t),
        None => "compat"@,
    };
    if v == "gpu"@ {
        "gpu"@
    } else if v == "low_vram"@ || v == "low-vram"@ {
        "low_vram"@
    } else if v == "throughput"@ {
        "throughput"@
    } else {
        "compat"@
    }
}

pub fn normalize_performance_preset(value: Option<String>) -> (r: Option<String>)
    ensures
        opt_text(r) == Some(performance_preset(opt_text(value))),
{
    let v = match normalize_optional_text(value) {
        Some(t) => lower_chars(&to_chars(t.as_str())),
        None => to_chars("compat"),
    };
    if chars_eq(&v, &to_chars("gpu")) {
        Some("gpu".to_owned())
    } else if chars_eq(&v, &to_chars("low_vram")) || chars_eq(&v, &to_chars("low-vram")) {
        Some("low_vram".to_owned())
    } else if chars_eq(&v, &to_chars("throughput")) {
        Some("throughput".to_owned())
    } else {
        Some("compat".to_owned())
    }
}

// ---------------------------------------------------------------- OpenAI-compatible paths

/// The request paths that are cut off an OpenAI-compatible base URL, in the order tried.
pub open spec fn request_suffixes() -> Seq<Seq<char>> {
    seq!["/v1/chat/completions"@, "/v1/responses"@, "/v1/embeddings"@, "/v1/models"@, "/v1"@]
}

/// `value` without the first suffix of `suffixes` (from index `i`) that ends it, compared
/// without regard to ASCII case.
pub open spec fn strip_first_suffix(value: Seq<char>, suffixes: Seq<Seq<char>>, i: int) -> Seq<char>
    decreases suffixes.len() - i,
{
    if i < 0 || i >= suffixes.len() {
        value
    } else if ends_with(lower(value), suffixes[i]) {
        value.take(value.len() - suffixes[i].len())
    } else {
        strip_first_suffix(value, suffixes, i + 1)
    }
}

/// The base URL of an OpenAI-compatible endpoint: trimmed, without trailing slashes and
/// without a known request path.
pub open spec fn openai_base_url(endpoint: Seq<char>) -> Seq<char> {
    strip_first_suffix(without_trailing_slashes(trim(endpoint)), request_suffixes(), 0)
}

pub fn strip_openai_compatible_request_path(endpoint: &str) -> (r: String)
    ensures
        r@ == openai_base_url(endpoint@),
{
    let value = without_trailing_slashes_chars(&trim_chars(&to_chars(endpoint)));
    let lowered = lower_chars(&value);
    let suffixes: Vec<&str> = vec!["/v1/chat/completions", "/v1/responses", "/v1/embeddings", "/v1/models", "/v1"];
    assert(crate::text::strs_view(suffixes@) =~= request_suffixes());
    let mut i: usize = 0;
    while i < suffixes.len()
        invariant
            i <= suffixes.len(),
            crate::text::strs_view(suffixes@) == request_suffixes(),
            lowered@ == lower(value@),
            value@ == without_trailing_slashes(trim(endpoint@)),
            strip_first_suffix(value@, request_suffixes(), 0) == strip_first_suffix(value@, request_suffixes(), i as int),
        decreases suffixes.len() - i,
    {
        let suffix = to_chars(suffixes[i]);
        assert(suffix@ == request_suffixes()[i as int]);
        if ends_with_chars(&lowered, &suffix) {
            let kept = crate::text::copy_range(&value, 0, value.len() - suffix.len());
            assert(kept@ =~= value@.take(value@.len() - suffix@.len()));
            assert(strip_first_suffix(value@, request_suffixes(), i as int) == kept@);
            assert(openai_base_url(endpoint@) == strip_first_suffix(value@, request_suffixes(), 0));
            return from_chars(&kept);
        }
        i += 1;
    }
    from_chars(&value)
}

/// The endpoint of `provider`: the default when blank; for an OpenAI-compatible provider,
/// the base URL unless the endpoint ends with '/' or '#' (taken as given).
pub open spec fn endpoint_for(provider: ModelProvider, endpoint: Seq<char>) -> Seq<char> {
    let t = trim(endpoint);
    if t.len() > 0 {
        if provider == ModelProvider::OpenAiCompatible {
            if t.last() == '/' || t.last() == '#' {
                t
            } else {
                openai_base_url(t)
            }
        } else {
            t
        }
    } else if provider == ModelProvider::OpenAiCompatible {
        DEFAULT_MODEL_ENDPOINT_OPENAI@
    } else {
        DEFAULT_CHAT_ENDPOINT@
    }
}

pub fn normalize_endpoint(provider: ModelProvider, endpoint: &str) -> (r: String)
    ensures
        r@ == endpoint_for(provider, endpoint@),
{
    let t = trim_str(endpoint);
    let tc = to_chars(t.as_str());
    if tc.len() > 0 {
        if provider == ModelProvider::OpenAiCompatible {
            if tc[tc.len() - 1] == '/' || tc[tc.len() - 1] == '#' {
                return t;
            }
            proof {
                crate::text::lemma_trim_idem(endpoint@);
            }
            return strip_openai_compatible_request_path(t.as_str());
        }
        return t;
    }
    if provider == ModelProvider::OpenAiCompatible {
        DEFAULT_MODEL_ENDPOINT_OPENAI.to_owned()
    } else {
        DEFAULT_CHAT_ENDPOINT.to_owned()
    }
}

// ---------------------------------------------------------------- local roles

/// The default endpoint of a local model role; the chat endpoint for an unknown role.
pub open spec fn role_default(role: Seq<char>) -> Seq<char> {
    if role == "graph"@ {
        DEFAULT_GRAPH_ENDPOINT@
    } else if role == "embed"@ {
        DEFAULT_EMBED_ENDPOINT@
    } else if role == "rerank"@ {
        DEFAULT_RERANK_ENDPOINT@
    } else {
        DEFAULT_CHAT_ENDPOINT@
    }
}

pub fn default_local_endpoint_for_role(role: &str) -> (r: &'static str)
    ensures
        r@ == role_default(role@),
{
    if crate::text::str_eq(role, "graph") {
        DEFAULT_GRAPH_ENDPOINT
    } else if crate::text::str_eq(role, "embed") {
        DEFAULT_EMBED_ENDPOINT
    } else if crate::text::str_eq(role, "rerank") {
        DEFAULT_RERANK_ENDPOINT
    } else {
        DEFAULT_CHAT_ENDPOINT
    }
}

/// A local endpoint as saved: trimmed, or the role's default when blank.
pub open spec fn local_endpoint_for_role(role: Seq<char>, endpoint: Seq<char>) -> Seq<char> {
    if trim(endpoint).len() == 0 {
        role_default(role)
    } else {
        trim(endpoint)
    }
}

pub fn normalize_local_endpoint_for_role(role: &str, endpoint: &str) -> (r: String)
    ensures
        r@ == local_endpoint_for_role(role@, endpoint@),
{
    let t = trim_str(endpoint);
    if t.as_str().is_empty() {
        default_local_endpoint_for_role(role).to_owned()
    } else {
        t
    }
}

// ---------------------------------------------------------------- host:port targets

/// What `reqwest::Url::parse` gives for `text`: `None` when it does not parse, otherwise
/// the host (`host_str`) and the port, explicit or the scheme's default
/// (`port_or_known_default`).
pub uninterp spec fn url_authority(text: Seq<char>) -> Option<(Option<Seq<char>>, Option<u16>)>;

/// Parses `text` as a URL with `reqwest::Url::parse` and reads its host and port; the result
/// is what the url crate gives for the text, which `url_authority` names.
#[verifier::external_body]
fn parse_url_authority(text: &str) -> (r: Option<(Option<String>, Option<u16>)>)
    ensures
        r matches Some((h, p)) ==> url_authority(text@) == Some((opt_text(h), p)),
        r is None ==> url_authority(text@) is None,
{
    match reqwest::Url::parse(text) {
        Ok(url) => Some((url.host_str().map(|h| h.to_string()), url.port_or_known_default())),
        Err(_) => None,
    }
}

/// The (host, port) an endpoint designates, the host in lower case; `None` when the
/// endpoint does not parse or lacks either.
pub open spec fn host_port(endpoint: Seq<char>) -> Option<(Seq<char>, u16)> {
    match url_authority(trim(endpoint)) {
        Some((Some(h), Some(p))) => Some((lower(h), p)),
        _ => None,
    }
}

pub fn endpoint_host_port(endpoint: &str) -> (r: Option<(Vec<char>, u16)>)
    ensures
        match r {
            Some((h, p)) => host_port(endpoint@) == Some((h@, p)),
            None => host_port(endpoint@) is None,
        },
{
    let t = trim_str(endpoint);
    match parse_url_authority(t.as_str()) {
        Some((Some(h), Some(p))) => Some((lower_chars(&to_chars(h.as_str())), p)),
        _ => None,
    }
}

/// Whether two endpoints reach the same host:port; endpoints that do not both parse are
/// compared as trimmed text.
pub open spec fn same_target(a: Seq<char>, b: Seq<char>) -> bool {
    match (host_port(a), host_port(b)) {
        (Some(x), Some(y)) => x == y,
        _ => trim(a) == trim(b),
    }
}

pub fn same_endpoint_target(a: &str, b: &str) -> (r: bool)
    ensures
        r == same_target(a@, b@),
{
    match (endpoint_host_port(a), endpoint_host_port(b)) {
        (Some((ha, pa)), Some((hb, pb))) => {
            pa == pb && chars_eq(&ha, &hb)
        },
        _ => {
            let ta = trim_chars(&to_chars(a));
            let tb = trim_chars(&to_chars(b));
            chars_eq(&ta, &tb)
        },
    }
}

/// Local endpoints with collisions repaired: a role that reaches the target of an earlier
/// role takes its own default.
pub open spec fn dedupe_endpoints(chat: Seq<char>, graph: Seq<char>, embed: Seq<char>, rerank: Seq<char>) -> (
    Seq<char>,
    Seq<char>,
    Seq<char>,
    Seq<char>,
) {
    let g = if same_target(chat, graph) { DEFAULT_GRAPH_ENDPOINT@ } else { graph };
    let e = if same_target(chat, embed) || same_target(g, embed) { DEFAULT_EMBED_ENDPOINT@ } else { embed };
    let r = if same_target(chat, rerank) || same_target(g, rerank) || same_target(e, rerank) {
        DEFAULT_RERANK_ENDPOINT@
    } else {
        rerank
    };
    (chat, g, e, r)
}

pub fn dedupe_local_endpoints(chat: String, graph: String, embed: String, rerank: String) -> (r: (
    String,
    String,
    String,
    String,
))
    ensures
        (r.0@, r.1@, r.2@, r.3@) == dedupe_endpoints(chat@, graph@, embed@, rerank@),
{
    let graph = if same_endpoint_target(chat.as_str(), graph.as_str()) {
        DEFAULT_GRAPH_ENDPOINT.to_owned()
    } else {
        graph
    };
    let embed = if same_endpoint_target(chat.as_str(), embed.as_str()) || same_endpoint_target(
        graph.as_str(),
        embed.as_str(),
    ) {
        DEFAULT_EMBED_ENDPOINT.to_owned()
    } else {
        embed
    };
    let rerank = if same_endpoint_target(chat.as_str(), rerank.as_str()) || same_endpoint_target(
        graph.as_str(),
        rerank.as_str(),
    ) || same_endpoint_target(embed.as_str(), rerank.as_str()) {
        DEFAULT_RERANK_ENDPOINT.to_owned()
    } else {
        rerank
    };
    (chat, graph, embed, rerank)
}

/// Whether two of the four local endpoints reach the same target.
pub open spec fn endpoints_collide(chat: Seq<char>, graph: Seq<char>, embed: Seq<char>, rerank: Seq<char>) -> bool {
    same_target(chat, graph) || same_target(chat, embed) || same_target(chat, rerank) || same_target(graph, embed)
        || same_target(graph, rerank) || same_target(embed, rerank)
}

/// The message given when local roles share a port.
pub open spec fn distinct_ports_message() -> Seq<char> {
    "对话/图谱/向量/重排四个本地模型必须使用不同的端口：一个 llama-server 进程只能服务一个角色，向量模型需要 --embedding、重排模型需要 --reranking 独立服务。请为每个角色设置不同的端口（默认 18001 / 18002 / 18003 / 18004）。"@
}

pub fn ensure_distinct_local_endpoints(chat: &str, graph: &str, embed: &str, rerank: &str) -> (r: Result<(), String>)
    ensures
        endpoints_collide(chat@, graph@, embed@, rerank@) <==> r is Err,
        r matches Err(msg) ==> msg@ == distinct_ports_message(),
{
    if same_endpoint_target(chat, graph) || same_endpoint_target(chat, embed) || same_endpoint_target(chat, rerank)
        || same_endpoint_target(graph, embed) || same_endpoint_target(graph, rerank) || same_endpoint_target(
        embed,
        rerank,
    ) {
        return Err(
            "对话/图谱/向量/重排四个本地模型必须使用不同的端口：一个 llama-server 进程只能服务一个角色，向量模型需要 --embedding、重排模型需要 --reranking 独立服务。请为每个角色设置不同的端口（默认 18001 / 18002 / 18003 / 18004）。".to_owned(),
        );
    }
    Ok(())
}


// ---------------------------------------------------------------- laws

/// Endpoints that already reach four distinct targets are left as they are by the repair.
pub proof fn law_distinct_endpoints_untouched(chat: Seq<char>, graph: Seq<char>, embed: Seq<char>, rerank: Seq<char>)
    requires
        !endpoints_collide(chat, graph, embed, rerank),
    ensures
        dedupe_endpoints(chat, graph, embed, rerank) == (chat, graph, embed, rerank),
{
}

} // verus!
