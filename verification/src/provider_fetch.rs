//! Asking a model service for its models: the URL each request goes to, the code a failed
//! request is reported under, and how the answers of several endpoints are combined.
use crate::model_catalog::{insert_sorted, strictly_sorted};
use crate::model_endpoints::{
    chat_api_format, endpoint_for, normalize_chat_api_format, normalize_endpoint, provider_name, provider_to_string,
    ModelProvider,
};
use crate::text::{
    append_chars, from_chars, opt_str_text, str_eq, strings_view, to_chars, trim, trim_str, without_trailing_slashes,
    without_trailing_slashes_chars,
};
use vstd::prelude::*;

verus! {

/// Seconds a request to a model service may take.
pub const PROVIDER_HTTP_TIMEOUT_SECS: u64 = 15;

/// A request sent to a model service.
#[derive(Clone, Copy, PartialEq, Eq, Debug, Structural)]
pub enum ServiceRequest {
    /// Ollama's model list, `GET /api/tags`.
    OllamaTags,
    /// Ollama's model download, `POST /api/pull`.
    OllamaPull,
    /// An OpenAI-compatible model list, `GET /v1/models`.
    OpenAiModels,
    /// An OpenAI-compatible embedding, `POST /v1/embeddings`, used as a probe.
    OpenAiEmbeddings,
}

/// The path of a request, appended to the endpoint.
pub open spec fn request_path(request: ServiceRequest) -> Seq<char> {
    match request {
        ServiceRequest::OllamaTags => "/api/tags"@,
        ServiceRequest::OllamaPull => "/api/pull"@,
        ServiceRequest::OpenAiModels => "/v1/models"@,
        ServiceRequest::OpenAiEmbeddings => "/v1/embeddings"@,
    }
}

/// The URL of `request` at `endpoint`: the endpoint without its trailing '/' characters,
/// followed by the request's path.
pub fn service_url(endpoint: &str, request: ServiceRequest) -> (r: String)
    ensures
        r@ == without_trailing_slashes(endpoint@) + request_path(request),
{
    let mut url = without_trailing_slashes_chars(&to_chars(endpoint));
    let path = match request {
        ServiceRequest::OllamaTags => "/api/tags",
        ServiceRequest::OllamaPull => "/api/pull",
        ServiceRequest::OpenAiModels => "/v1/models",
        ServiceRequest::OpenAiEmbeddings => "/v1/embeddings",
    };
    proof {
        reveal_strlit("/api/tags");
        reveal_strlit("/api/pull");
        reveal_strlit("/v1/models");
        reveal_strlit("/v1/embeddings");
    }
    append_chars(&mut url, &to_chars(path));
    from_chars(&url)
}

/// How a request to a model service failed.
#[derive(Clone, Copy, PartialEq, Eq, Debug, Structural)]
pub enum FetchFailure {
    /// No answer within the time allowed.
    TimedOut,
    /// The request could not be sent, or no answer came back.
    Unreachable,
    /// The service answered with this HTTP status, which is not a success.
    Status(u16),
    /// The answer could not be read as the expected JSON.
    Unreadable,
    /// The embedding probe came back without a non-empty embedding.
    EmptyEmbedding,
}

/// The code a failure is reported under: a timeout is `request_timeout`; a failed embedding
/// probe is `embed_probe_failed`; a model list refused with 401 or 403 by an OpenAI-compatible
/// service is `auth_failed`; any other failure of a model list is `endpoint_unreachable`.
pub open spec fn failure_code(request: ServiceRequest, failure: FetchFailure) -> Seq<char> {
    match failure {
        FetchFailure::TimedOut => "request_timeout"@,
        _ => if request == ServiceRequest::OpenAiEmbeddings {
            "embed_probe_failed"@
        } else if request == ServiceRequest::OpenAiModels && (failure == FetchFailure::Status(401)
            || failure == FetchFailure::Status(403)) {
            "auth_failed"@
        } else {
            "endpoint_unreachable"@
        },
    }
}

pub fn fetch_failure_code(request: ServiceRequest, failure: FetchFailure) -> (r: String)
    ensures
        r@ == failure_code(request, failure),
{
    proof {
        reveal_strlit("request_timeout");
        reveal_strlit("embed_probe_failed");
        reveal_strlit("auth_failed");
        reveal_strlit("endpoint_unreachable");
    }
    match failure {
        FetchFailure::TimedOut => "request_timeout".to_owned(),
        _ => {
            if request == ServiceRequest::OpenAiEmbeddings {
                "embed_probe_failed".to_owned()
            } else if request == ServiceRequest::OpenAiModels && (failure == FetchFailure::Status(401)
                || failure == FetchFailure::Status(403)) {
                "auth_failed".to_owned()
            } else {
                "endpoint_unreachable".to_owned()
            }
        },
    }
}

/// Whether an embedding probe succeeded, given the length of the first embedding returned
/// (none when the answer holds no embedding): it did when that embedding is not empty.
pub fn embedding_probe_result(first_embedding_len: Option<usize>) -> (r: Result<(), FetchFailure>)
    ensures
        r is Ok <==> (first_embedding_len matches Some(n) && n > 0),
        r is Err ==> r == Err::<(), FetchFailure>(FetchFailure::EmptyEmbedding),
{
    match first_embedding_len {
        Some(n) if n > 0 => Ok(()),
        _ => Err(FetchFailure::EmptyEmbedding),
    }
}

/// A failed request for a model list: its code and a message for the user.
pub struct ProviderModelFetchError {
    pub code: String,
    pub message: String,
}

impl View for ProviderModelFetchError {
    type V = (Seq<char>, Seq<char>);

    open spec fn view(&self) -> (Seq<char>, Seq<char>) {
        (self.code@, self.message@)
    }
}

/// The content of one endpoint's answer: the names it listed, or the failure.
pub open spec fn answer_view(a: Result<Vec<String>, ProviderModelFetchError>) -> Result<Seq<Seq<char>>, (Seq<char>, Seq<char>)> {
    match a {
        Ok(names) => Ok(strings_view(names@)),
        Err(e) => Err(e@),
    }
}

pub open spec fn answers_view(answers: Seq<Result<Vec<String>, ProviderModelFetchError>>) -> Seq<Result<Seq<Seq<char>>, (Seq<char>, Seq<char>)>> {
    answers.map_values(|a: Result<Vec<String>, ProviderModelFetchError>| answer_view(a))
}

/// Whether one of the answers lists `name`.
pub open spec fn listed_by_any(answers: Seq<Result<Seq<Seq<char>>, (Seq<char>, Seq<char>)>>, name: Seq<char>) -> bool
    decreases answers.len(),
{
    answers.len() > 0 && (listed_by_any(answers.drop_last(), name) || (answers.last() matches Ok(names)
        && names.contains(name)))
}

/// The failures among the answers, in order.
pub open spec fn failures(answers: Seq<Result<Seq<Seq<char>>, (Seq<char>, Seq<char>)>>) -> Seq<(Seq<char>, Seq<char>)>
    decreases answers.len(),
{
    if answers.len() == 0 {
        Seq::empty()
    } else {
        match answers.last() {
            Ok(_) => failures(answers.drop_last()),
            Err(e) => failures(answers.drop_last()).push(e),
        }
    }
}

pub open spec fn errors_view(errors: Seq<ProviderModelFetchError>) -> Seq<(Seq<char>, Seq<char>)> {
    errors.map_values(|e: ProviderModelFetchError| e@)
}

/// Combines the answers of several endpoints: every name that an answer lists, once, in text
/// order; and the failures, in the order of the endpoints.
pub fn combine_service_models(answers: &Vec<Result<Vec<String>, ProviderModelFetchError>>) -> (r: (
    Vec<String>,
    Vec<ProviderModelFetchError>,
))
    ensures
        strictly_sorted(strings_view(r.0@)),
        forall|t: Seq<char>| strings_view(r.0@).contains(t) <==> listed_by_any(answers_view(answers@), t),
        errors_view(r.1@) == failures(answers_view(answers@)),
{
    let ghost all = answers_view(answers@);
    let mut names: Vec<String> = Vec::new();
    let mut errors: Vec<ProviderModelFetchError> = Vec::new();
    let mut k: usize = 0;
    while k < answers.len()
        invariant
            k <= answers.len(),
            all == answers_view(answers@),
            strictly_sorted(strings_view(names@)),
            forall|t: Seq<char>| #[trigger] strings_view(names@).contains(t) <==> listed_by_any(all.take(k as int), t),
            errors_view(errors@) == failures(all.take(k as int)),
        decreases answers.len() - k,
    {
        let ghost before = all.take(k as int);
        proof {
            assert(all.take(k + 1).drop_last() =~= before);
            assert(all.take(k + 1).last() == answer_view(answers@[k as int]));
        }
        match &answers[k] {
            Ok(listed) => {
                let mut j: usize = 0;
                while j < listed.len()
                    invariant
                        j <= listed.len(),
                        strictly_sorted(strings_view(names@)),
                        forall|t: Seq<char>| #[trigger] strings_view(names@).contains(t) <==> (listed_by_any(before, t)
                            || strings_view(listed@.take(j as int)).contains(t)),
                    decreases listed.len() - j,
                {
                    let ghost prev = strings_view(names@);
                    insert_sorted(&mut names, &listed[j]);
                    proof {
                        let shown = strings_view(listed@.take(j + 1));
                        let earlier = strings_view(listed@.take(j as int));
                        assert(shown =~= earlier.push(listed@[j as int]@));
                        assert forall|t: Seq<char>| strings_view(names@).contains(t) <==> (listed_by_any(before, t)
                            || shown.contains(t)) by {
                            assert(strings_view(names@).contains(t) <==> (prev.contains(t) || t == listed@[j as int]@));
                            assert(prev.contains(t) <==> (listed_by_any(before, t) || earlier.contains(t)));
                            if shown.contains(t) && t != listed@[j as int]@ {
                                let i = choose|i: int| 0 <= i < shown.len() && shown[i] == t;
                                assert(i < j);
                                assert(earlier[i] == t);
                            }
                            if earlier.contains(t) {
                                let i = choose|i: int| 0 <= i < earlier.len() && earlier[i] == t;
                                assert(shown[i] == t);
                            }
                            if t == listed@[j as int]@ {
                                assert(shown[j as int] == t);
                            }
                        }
                    }
                    j += 1;
                }
                proof {
                    assert(listed@.take(j as int) =~= listed@);
                    assert(all.take(k + 1).last() == Ok::<Seq<Seq<char>>, (Seq<char>, Seq<char>)>(strings_view(listed@)));
                    assert(failures(all.take(k + 1)) == failures(before));
                    assert forall|t: Seq<char>| strings_view(names@).contains(t) <==> listed_by_any(all.take(k + 1), t) by {
                        assert(listed_by_any(all.take(k + 1), t) <==> (listed_by_any(before, t) || strings_view(listed@).contains(t)));
                    }
                }
            },
            Err(e) => {
                errors.push(ProviderModelFetchError { code: e.code.clone(), message: e.message.clone() });
                proof {
                    assert(errors_view(errors@) =~= failures(before).push(e@));
                }
            },
        }
        k += 1;
    }
    proof {
        assert(all.take(k as int) =~= all);
    }
    (names, errors)
}

/// Whether the embedding model must still be probed: on a local llama.cpp provider, when an
/// embedding model is set (or unset ones are checked too, `skip_unset` false) and the model
/// lists did not already show it missing.
pub open spec fn probe_wanted(provider: ModelProvider, embed_model: Seq<char>, skip_unset: bool, missing: Seq<Seq<char>>) -> bool {
    provider == ModelProvider::LlamaCppLocal && !(skip_unset && embed_model.len() == 0) && !missing.contains("embed"@)
}

pub fn embedding_probe_wanted(provider: ModelProvider, embed_model: &str, skip_unset: bool, missing: &[String]) -> (r: bool)
    ensures
        r == probe_wanted(provider, embed_model@, skip_unset, strings_view(missing@)),
{
    if provider != ModelProvider::LlamaCppLocal || (skip_unset && to_chars(embed_model).len() == 0) {
        return false;
    }
    let ghost names = strings_view(missing@);
    let mut k: usize = 0;
    while k < missing.len()
        invariant
            k <= missing.len(),
            names == strings_view(missing@),
            forall|i: int| 0 <= i < k ==> names[i] != "embed"@,
        decreases missing.len() - k,
    {
        if str_eq(missing[k].as_str(), "embed") {
            assert(names[k as int] == "embed"@);
            return false;
        }
        k += 1;
    }
    proof {
        if names.contains("embed"@) {
            let i = choose|i: int| 0 <= i < names.len() && names[i] == "embed"@;
            assert(names[i] != "embed"@);
        }
    }
    true
}

/// Whether a provider's models are usable, as reported to the settings page.
pub struct ModelAvailabilityDto {
    pub configured: bool,
    /// Every endpoint answered, and the embedding probe, when made, passed.
    pub reachable: bool,
    pub models: Vec<String>,
    /// The roles ("chat", "graph", "embed") whose model is not usable.
    pub missing_roles: Vec<String>,
    pub errors: Vec<ProviderModelFetchError>,
    pub checked_provider: Option<String>,
    pub status_code: Option<String>,
    pub status_message: Option<String>,
}

/// The availability of a configured provider: the models offered, the roles found missing
/// (with "embed" added when the embedding probe failed), the endpoint failures (with the
/// probe's failure last), reachable exactly when there is no failure at all.
pub fn model_availability(
    provider: ModelProvider,
    models: Vec<String>,
    missing: Vec<String>,
    errors: Vec<ProviderModelFetchError>,
    probe_failure: Option<ProviderModelFetchError>,
) -> (r: ModelAvailabilityDto)
    ensures
        r.configured,
        r.models@ == models@,
        strings_view(r.missing_roles@) == match probe_failure {
            Some(_) => strings_view(missing@).push("embed"@),
            None => strings_view(missing@),
        },
        errors_view(r.errors@) == match probe_failure {
            Some(e) => errors_view(errors@).push(e@),
            None => errors_view(errors@),
        },
        r.reachable == (errors.len() == 0 && probe_failure is None),
        r.checked_provider matches Some(p) && p@ == provider_name(provider),
        r.status_code is None,
        r.status_message is None,
{
    let mut missing = missing;
    let mut errors = errors;
    let ghost missing0 = strings_view(missing@);
    let ghost errors0 = errors_view(errors@);
    match probe_failure {
        Some(e) => {
            missing.push("embed".to_owned());
            errors.push(e);
            proof {
                reveal_strlit("embed");
                assert(strings_view(missing@) =~= missing0.push("embed"@));
                assert(errors_view(errors@) =~= errors0.push(e@));
            }
        },
        None => {},
    }
    let reachable = errors.len() == 0;
    ModelAvailabilityDto {
        configured: true,
        reachable,
        models,
        missing_roles: missing,
        errors,
        checked_provider: Some(provider_to_string(provider)),
        status_code: None,
        status_message: None,
    }
}

/// A connection test of a remote OpenAI-compatible service: where it goes, which model it asks,
/// and whether it uses the Responses API (else Chat Completions).
pub struct RemoteConnectionTest {
    pub endpoint: String,
    pub model: String,
    pub uses_responses: bool,
}

/// The connection test that the form values ask for: the endpoint normalised as an
/// OpenAI-compatible one, the model trimmed, the API format normalised. Refused when the
/// endpoint comes out blank, then when the model is blank.
pub fn plan_remote_connection_test(base_url: &str, api_format: Option<&str>, chat_model: &str) -> (r: Result<
    RemoteConnectionTest,
    String,
>)
    ensures
        trim(endpoint_for(ModelProvider::OpenAiCompatible, base_url@)).len() == 0 ==> (r matches Err(m) && m@
            == "API 地址不能为空"@),
        trim(endpoint_for(ModelProvider::OpenAiCompatible, base_url@)).len() > 0 && trim(chat_model@).len() == 0
            ==> (r matches Err(m) && m@ == "对话模型名称不能为空"@),
        trim(endpoint_for(ModelProvider::OpenAiCompatible, base_url@)).len() > 0 && trim(chat_model@).len() > 0
            ==> (r matches Ok(t) && t.endpoint@ == endpoint_for(ModelProvider::OpenAiCompatible, base_url@)
            && t.model@ == trim(chat_model@) && t.uses_responses == (chat_api_format(opt_str_text(api_format))
            == "responses"@)),
{
    let endpoint = normalize_endpoint(ModelProvider::OpenAiCompatible, base_url);
    let format = normalize_chat_api_format(api_format);
    let model = trim_str(chat_model);
    if trim_str(endpoint.as_str()).as_str().is_empty() {
        return Err("API 地址不能为空".to_owned());
    }
    if model.as_str().is_empty() {
        return Err("对话模型名称不能为空".to_owned());
    }
    let uses_responses = str_eq(format.as_str(), "responses");
    Ok(RemoteConnectionTest { endpoint, model, uses_responses })
}

} // verus!
