//! How failures of the retrieval engine are reported: to the desktop user as a message, to
//! HTTP clients as a status code with a message.
use crate::text::{append_chars, from_chars, to_chars};
use vstd::prelude::*;

verus! {

/// The engine failures that are reported in their own words; any other failure carries the
/// engine's own message.
#[derive(Debug)]
pub enum EngineErrorKind {
    IndexUnavailable,
    IndexRebuildInProgress,
    Other(String),
}

/// The message shown to the desktop user for an engine failure.
pub open spec fn engine_error_text(err: EngineErrorKind) -> Seq<char> {
    match err {
        EngineErrorKind::IndexUnavailable =>
            "Index upgrade required. Search is temporarily unavailable until a full reindex completes.（索引需要升级，完成全量重建前暂不可检索）"@,
        EngineErrorKind::IndexRebuildInProgress =>
            "Index upgrade in progress. Search is temporarily unavailable until reindex completes.（索引升级中，重建完成前暂不可检索）"@,
        EngineErrorKind::Other(message) => message@,
    }
}

pub fn describe_engine_error(err: EngineErrorKind) -> (r: String)
    ensures
        r@ == engine_error_text(err),
{
    match err {
        EngineErrorKind::IndexUnavailable => from_chars(
            &to_chars(
                "Index upgrade required. Search is temporarily unavailable until a full reindex completes.（索引需要升级，完成全量重建前暂不可检索）",
            ),
        ),
        EngineErrorKind::IndexRebuildInProgress => from_chars(
            &to_chars(
                "Index upgrade in progress. Search is temporarily unavailable until reindex completes.（索引升级中，重建完成前暂不可检索）",
            ),
        ),
        EngineErrorKind::Other(message) => message,
    }
}

pub const BAD_REQUEST: u16 = 400;
pub const UNAUTHORIZED: u16 = 401;
pub const FORBIDDEN: u16 = 403;
pub const CONFLICT: u16 = 409;
pub const INTERNAL_SERVER_ERROR: u16 = 500;
pub const SERVICE_UNAVAILABLE: u16 = 503;

/// An error answered to an HTTP client: its status code and message.
#[derive(Debug)]
pub struct ApiError {
    pub status: u16,
    pub message: String,
}

impl ApiError {
    pub fn bad_request(message: String) -> (r: ApiError)
        ensures
            r.status == BAD_REQUEST && r.message == message,
    {
        ApiError { status: BAD_REQUEST, message }
    }

    pub fn internal(message: String) -> (r: ApiError)
        ensures
            r.status == INTERNAL_SERVER_ERROR && r.message == message,
    {
        ApiError { status: INTERNAL_SERVER_ERROR, message }
    }

    pub fn unauthorized(message: String) -> (r: ApiError)
        ensures
            r.status == UNAUTHORIZED && r.message == message,
    {
        ApiError { status: UNAUTHORIZED, message }
    }

    pub fn forbidden(message: String) -> (r: ApiError)
        ensures
            r.status == FORBIDDEN && r.message == message,
    {
        ApiError { status: FORBIDDEN, message }
    }

    pub fn conflict(message: String) -> (r: ApiError)
        ensures
            r.status == CONFLICT && r.message == message,
    {
        ApiError { status: CONFLICT, message }
    }

    pub fn service_unavailable(message: String) -> (r: ApiError)
        ensures
            r.status == SERVICE_UNAVAILABLE && r.message == message,
    {
        ApiError { status: SERVICE_UNAVAILABLE, message }
    }
}

/// The HTTP error for an engine failure: 409 when the index must be rebuilt, 503 while it is
/// being rebuilt, 500 with the engine's message otherwise.
pub fn map_engine_api_error(err: EngineErrorKind) -> (r: ApiError)
    ensures
        match err {
            EngineErrorKind::IndexUnavailable => r.status == CONFLICT && r.message@
                == "Index upgrade required. Search is temporarily unavailable until a full reindex completes."@,
            EngineErrorKind::IndexRebuildInProgress => r.status == SERVICE_UNAVAILABLE && r.message@
                == "Index upgrade in progress. Search is temporarily unavailable until reindex completes."@,
            EngineErrorKind::Other(message) => r.status == INTERNAL_SERVER_ERROR && r.message@ == message@,
        },
{
    match err {
        EngineErrorKind::IndexUnavailable => ApiError::conflict(
            from_chars(
                &to_chars("Index upgrade required. Search is temporarily unavailable until a full reindex completes."),
            ),
        ),
        EngineErrorKind::IndexRebuildInProgress => ApiError::service_unavailable(
            from_chars(&to_chars("Index upgrade in progress. Search is temporarily unavailable until reindex completes.")),
        ),
        EngineErrorKind::Other(message) => ApiError::internal(message),
    }
}

/// The message for a request that needs the engine while none is running: the start-up
/// failure when there was one, otherwise a request to retry once start-up is done.
pub open spec fn engine_not_ready_text(init_error: Option<Seq<char>>) -> Seq<char> {
    match init_error {
        Some(message) => "引擎初始化失败: "@ + message,
        None => "引擎尚在初始化中，请稍后重试。"@,
    }
}

pub fn engine_not_ready_message(init_error: Option<&str>) -> (r: String)
    ensures
        r@ == engine_not_ready_text(
            match init_error {
                Some(m) => Some(m@),
                None => None,
            },
        ),
{
    match init_error {
        Some(message) => {
            let mut out = to_chars("引擎初始化失败: ");
            append_chars(&mut out, &to_chars(message));
            from_chars(&out)
        },
        None => from_chars(&to_chars("引擎尚在初始化中，请稍后重试。")),
    }
}

} // verus!
