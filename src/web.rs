use vstd::prelude::*;

use crate::error::ErrorCode;

verus! {

/// The kinds of framework error that a request can end in.
#[derive(Clone, Copy, Debug, PartialEq, Eq, Structural)]
pub enum HttpErrorKind {
    NotFound,
    ParsePath,
    ParseTypedHeader,
    ParseQuery,
    ParseJson,
    ParseRequestPayload,
    ContentType,
    ParseParam,
    MethodNotAllowed,
    Authorization,
    /// Any other framework error.
    Other,
}

/// How a completed request is logged.
#[derive(Clone, Copy, Debug, PartialEq, Eq, Structural)]
pub enum LogLevel {
    Error,
    Warn,
    Info,
}

/// The taxonomy code of a framework error: not found, malformed input,
/// wrong method and failed authorization each have their code; another
/// error is `InternalError` when it wraps a source and keeps its own
/// response otherwise (`None`).
pub fn error_code_for(kind: HttpErrorKind, has_source: bool) -> (r: Option<ErrorCode>)
    ensures
        kind == HttpErrorKind::NotFound ==> r == Some(ErrorCode::ResourceNotFound),
        (kind == HttpErrorKind::ParsePath || kind == HttpErrorKind::ParseTypedHeader || kind
            == HttpErrorKind::ParseQuery || kind == HttpErrorKind::ParseJson || kind
            == HttpErrorKind::ParseRequestPayload || kind == HttpErrorKind::ContentType || kind
            == HttpErrorKind::ParseParam) ==> r == Some(ErrorCode::InvalidParameter),
        kind == HttpErrorKind::MethodNotAllowed ==> r == Some(ErrorCode::MethodNotAllowed),
        kind == HttpErrorKind::Authorization ==> r == Some(ErrorCode::PermissionDenied),
        kind == HttpErrorKind::Other ==> r == if has_source {
            Some(ErrorCode::InternalError)
        } else {
            None
        },
{
    match kind {
        HttpErrorKind::NotFound => Some(ErrorCode::ResourceNotFound),
        HttpErrorKind::ParsePath | HttpErrorKind::ParseTypedHeader | HttpErrorKind::ParseQuery
        | HttpErrorKind::ParseJson | HttpErrorKind::ParseRequestPayload
        | HttpErrorKind::ContentType | HttpErrorKind::ParseParam => Some(
            ErrorCode::InvalidParameter,
        ),
        HttpErrorKind::MethodNotAllowed => Some(ErrorCode::MethodNotAllowed),
        HttpErrorKind::Authorization => Some(ErrorCode::PermissionDenied),
        HttpErrorKind::Other => {
            if has_source {
                Some(ErrorCode::InternalError)
            } else {
                None
            }
        },
    }
}

/// Log level of a request that completed with `status`.
pub fn log_level_for(status: u16) -> (r: LogLevel)
    ensures
        status >= 500 ==> r == LogLevel::Error,
        400 <= status < 500 ==> r == LogLevel::Warn,
        status < 400 ==> r == LogLevel::Info,
{
    if status >= 500 {
        LogLevel::Error
    } else if status >= 400 {
        LogLevel::Warn
    } else {
        LogLevel::Info
    }
}

/// Cells of the request-log rate limiter that logging a request with
/// `status` costs: errors are cheapest to log, successes dearest.
pub fn log_cost(status: u16) -> (r: u32)
    ensures
        status >= 500 ==> r == 1,
        400 <= status < 500 ==> r == 3,
        status < 400 ==> r == 5,
{
    match log_level_for(status) {
        LogLevel::Error => 1,
        LogLevel::Warn => 3,
        LogLevel::Info => 5,
    }
}

} // verus!
