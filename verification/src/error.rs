//! What a failed request is answered with.

use crate::text::opt_str;
use vstd::prelude::*;

verus! {

/// The HTTP statuses of the bridge's error answers.
#[derive(Debug, Clone, Copy, PartialEq, Eq, Structural)]
pub enum StatusCode {
    BadRequest,
    Unauthorized,
    Forbidden,
    NotFound,
    InternalServerError,
    NotImplemented,
    BadGateway,
}

impl StatusCode {
    /// The number of the status on the wire.
    pub open spec fn number(self) -> u16 {
        match self {
            StatusCode::BadRequest => 400,
            StatusCode::Unauthorized => 401,
            StatusCode::Forbidden => 403,
            StatusCode::NotFound => 404,
            StatusCode::InternalServerError => 500,
            StatusCode::NotImplemented => 501,
            StatusCode::BadGateway => 502,
        }
    }

    /// The number of the status on the wire.
    pub fn code(self) -> (code: u16)
        ensures
            code == self.number(),
    {
        match self {
            StatusCode::BadRequest => 400,
            StatusCode::Unauthorized => 401,
            StatusCode::Forbidden => 403,
            StatusCode::NotFound => 404,
            StatusCode::InternalServerError => 500,
            StatusCode::NotImplemented => 501,
            StatusCode::BadGateway => 502,
        }
    }
}

/// The ways in which a varlink connection or the service behind it fails.
#[derive(Debug, Clone, Copy, PartialEq, Eq, Structural)]
pub enum VarlinkFailure {
    /// Reading from the socket failed.
    SocketRead,
    /// Writing to the socket failed.
    SocketWrite,
    /// The service closed the connection in the middle of a message.
    UnexpectedEof,
    /// Another I/O error.
    Io,
    /// The service refuses a parameter.
    InvalidParameter,
    /// The method only answers with a stream of replies.
    ExpectedMore,
    /// The service has no such method.
    MethodNotFound,
    /// The service has no such interface.
    InterfaceNotFound,
    /// The interface has the method, but the service does not implement it.
    MethodNotImplemented,
    /// The service denies access.
    PermissionDenied,
    /// Anything else, such as a reply that is not valid JSON.
    Other,
}

impl VarlinkFailure {
    /// The status that answers the failure: a broken transport is a bad gateway,
    /// a refused call is the caller's error, the rest is the bridge's.
    pub open spec fn status(self) -> StatusCode {
        match self {
            VarlinkFailure::SocketRead
            | VarlinkFailure::SocketWrite
            | VarlinkFailure::UnexpectedEof
            | VarlinkFailure::Io => StatusCode::BadGateway,
            VarlinkFailure::InvalidParameter | VarlinkFailure::ExpectedMore => {
                StatusCode::BadRequest
            },
            VarlinkFailure::MethodNotFound | VarlinkFailure::InterfaceNotFound => {
                StatusCode::NotFound
            },
            VarlinkFailure::MethodNotImplemented => StatusCode::NotImplemented,
            VarlinkFailure::PermissionDenied => StatusCode::Forbidden,
            VarlinkFailure::Other => StatusCode::InternalServerError,
        }
    }
}

/// A failed request: the status and the message in the body of its answer.
#[derive(Debug)]
pub struct AppError {
    pub status: StatusCode,
    pub message: String,
}

impl AppError {
    /// The request itself is wrong.
    pub fn bad_request(message: String) -> (error: Self)
        ensures
            error.status == StatusCode::BadRequest,
            error.message == message,
    {
        AppError { status: StatusCode::BadRequest, message }
    }

    /// The varlink service cannot be reached or answered with an error.
    pub fn bad_gateway(message: String) -> (error: Self)
        ensures
            error.status == StatusCode::BadGateway,
            error.message == message,
    {
        AppError { status: StatusCode::BadGateway, message }
    }

    /// The request does not pass authentication.
    pub fn unauthorized(message: String) -> (error: Self)
        ensures
            error.status == StatusCode::Unauthorized,
            error.message == message,
    {
        AppError { status: StatusCode::Unauthorized, message }
    }

    /// The bridge itself failed, as on an I/O or a JSON error of its own.
    pub fn internal(message: String) -> (error: Self)
        ensures
            error.status == StatusCode::InternalServerError,
            error.message == message,
    {
        AppError { status: StatusCode::InternalServerError, message }
    }

    /// The answer to a failure of the varlink connection, with the failure's own
    /// text.
    pub fn from_varlink_failure(failure: VarlinkFailure, message: String) -> (error: Self)
        ensures
            error.status == failure.status(),
            error.message == message,
    {
        let status = match failure {
            VarlinkFailure::SocketRead
            | VarlinkFailure::SocketWrite
            | VarlinkFailure::UnexpectedEof
            | VarlinkFailure::Io => StatusCode::BadGateway,
            VarlinkFailure::InvalidParameter | VarlinkFailure::ExpectedMore => {
                StatusCode::BadRequest
            },
            VarlinkFailure::MethodNotFound | VarlinkFailure::InterfaceNotFound => {
                StatusCode::NotFound
            },
            VarlinkFailure::MethodNotImplemented => StatusCode::NotImplemented,
            VarlinkFailure::PermissionDenied => StatusCode::Forbidden,
            VarlinkFailure::Other => StatusCode::InternalServerError,
        };
        AppError { status, message }
    }

    /// The answer to an error reply that a service defines itself: the name of
    /// the error and, when it has parameters, their text behind a colon.
    pub fn from_error_reply(error: &str, parameters: Option<&str>) -> (answer: Self)
        ensures
            answer.status == StatusCode::InternalServerError,
            answer.message@ == match opt_str(parameters) {
                Some(params) => error@ + ": "@ + params,
                None => error@,
            },
    {
        let mut message = error.to_owned();
        if let Some(params) = parameters {
            message.append(": ");
            message.append(params);
        }
        AppError { status: StatusCode::InternalServerError, message }
    }

    /// The answer to an error that the service returns in place of the info or
    /// the description it was asked for.
    pub fn service_error(text: &str) -> (error: Self)
        ensures
            error.status == StatusCode::BadGateway,
            error.message@ == "service error: "@ + text@,
    {
        let mut message = "service error: ".to_owned();
        message.append(text);
        AppError::bad_gateway(message)
    }

    /// The answer when the socket at `path` takes no WebSocket connection.
    pub fn cannot_connect(path: &str, cause: &str) -> (error: Self)
        ensures
            error.status == StatusCode::BadGateway,
            error.message@ == "cannot connect to "@ + path@ + ": "@ + cause@,
    {
        let mut message = "cannot connect to ".to_owned();
        message.append(path);
        message.append(": ");
        message.append(cause);
        AppError::bad_gateway(message)
    }
}

/// The statuses have the numbers that HTTP gives them: those of the caller's errors are
/// below 500, and no two are the same.
pub proof fn statuses_have_their_numbers(status: StatusCode, code: u16)
    requires
        call_ensures(StatusCode::code, (status,), code),
    ensures
        code == 400 <==> status is BadRequest,
        code == 401 <==> status is Unauthorized,
        code == 403 <==> status is Forbidden,
        code == 404 <==> status is NotFound,
        code == 500 <==> status is InternalServerError,
        code == 501 <==> status is NotImplemented,
        code == 502 <==> status is BadGateway,
        code == status.number(),
{
}

/// How a failure is answered depends on its kind alone, and its text is told as it is: a
/// transport that fails is a bad gateway, a call that the service refuses has the status
/// for that refusal, and anything else is an internal error.
pub proof fn failures_are_answered_by_their_kind(
    failure: VarlinkFailure,
    message: String,
    error: AppError,
)
    requires
        call_ensures(AppError::from_varlink_failure, (failure, message), error),
    ensures
        error.message@ == message@,
        error.status is BadGateway <==> failure is SocketRead || failure is SocketWrite
            || failure is UnexpectedEof || failure is Io,
        error.status is BadRequest <==> failure is InvalidParameter || failure is ExpectedMore,
        error.status is NotFound <==> failure is MethodNotFound || failure is InterfaceNotFound,
        error.status is NotImplemented <==> failure is MethodNotImplemented,
        error.status is Forbidden <==> failure is PermissionDenied,
        error.status is InternalServerError <==> failure is Other,
        !(error.status is Unauthorized),
{
}

/// An error that a service defines itself is told by its name, with its parameters behind
/// a colon and a space where it has any, all as they are.
pub proof fn error_replies_are_told_in_full(
    error: &str,
    parameters: Option<&str>,
    answer: AppError,
)
    requires
        call_ensures(AppError::from_error_reply, (error, parameters), answer),
    ensures
        answer.status is InternalServerError,
        answer.message@.take(error@.len() as int) == error@,
        parameters is None ==> answer.message@.len() == error@.len(),
        parameters matches Some(text) ==> {
            &&& answer.message@.len() == error@.len() + 2 + text@.len()
            &&& answer.message@[error@.len() as int] == ':'
            &&& answer.message@[error@.len() + 1int] == ' '
            &&& answer.message@.skip(error@.len() + 2int) == text@
        },
{
    reveal_strlit(": ");
    assert(answer.message@.take(error@.len() as int) == error@);
    if let Some(text) = parameters {
        assert(answer.message@.skip(error@.len() + 2int) == text@);
    }
}

/// A service that cannot be reached or answers with an error is a bad gateway, and the
/// answer tells the path and the cause as they are.
pub proof fn gateways_are_told_in_full(
    text: &str,
    answer: AppError,
    path: &str,
    cause: &str,
    refusal: AppError,
)
    requires
        call_ensures(AppError::service_error, (text,), answer),
        call_ensures(AppError::cannot_connect, (path, cause), refusal),
    ensures
        answer.status is BadGateway,
        answer.message@ == "service error: "@ + text@,
        refusal.status is BadGateway,
        refusal.message@ == "cannot connect to "@ + path@ + ": "@ + cause@,
{
}

/// Each kind of answer has its own status and tells the text that it is given.
pub proof fn answers_tell_their_text(
    message: String,
    bad_request: AppError,
    bad_gateway: AppError,
    unauthorized: AppError,
    internal: AppError,
)
    requires
        call_ensures(AppError::bad_request, (message,), bad_request),
        call_ensures(AppError::bad_gateway, (message,), bad_gateway),
        call_ensures(AppError::unauthorized, (message,), unauthorized),
        call_ensures(AppError::internal, (message,), internal),
    ensures
        bad_request.status.number() == 400 && bad_request.message@ == message@,
        bad_gateway.status.number() == 502 && bad_gateway.message@ == message@,
        unauthorized.status.number() == 401 && unauthorized.message@ == message@,
        internal.status.number() == 500 && internal.message@ == message@,
{
}

} // verus!
