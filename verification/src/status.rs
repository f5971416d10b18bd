//! How failures are reported to a client: a status, a code and a message.

use vstd::prelude::*;
use vstd::string::*;

use crate::error::{CommandError, ErrorCode, ExecuteError, SerializationError, StoreError};
use crate::text::{decimal, decimal_text};

verus! {

/// The kind of a failure, as a client sees it.
#[derive(Clone, Copy, Debug, PartialEq, Eq, Hash, Structural)]
pub enum ErrorStatus {
    /// Client sent invalid or malformed input (400).
    InvalidInput,
    /// Authentication required or failed (401).
    Unauthorized,
    /// Client lacks permission (403).
    Forbidden,
    /// Resource not found (404).
    NotFound,
    /// Request conflicts with current state (409).
    Conflict,
    /// Valid request but business rules rejected it (422).
    Rejected,
    /// Server-side error (500).
    Internal,
    /// Service temporarily unavailable (503).
    Unavailable,
}

impl ErrorStatus {
    /// The name of the status.
    pub open spec fn name(self) -> Seq<char> {
        match self {
            ErrorStatus::InvalidInput => "invalid_input"@,
            ErrorStatus::Unauthorized => "unauthorized"@,
            ErrorStatus::Forbidden => "forbidden"@,
            ErrorStatus::NotFound => "not_found"@,
            ErrorStatus::Conflict => "conflict"@,
            ErrorStatus::Rejected => "rejected"@,
            ErrorStatus::Internal => "internal"@,
            ErrorStatus::Unavailable => "unavailable"@,
        }
    }

    /// The HTTP status code of the status.
    pub open spec fn code(self) -> u16 {
        match self {
            ErrorStatus::InvalidInput => 400,
            ErrorStatus::Unauthorized => 401,
            ErrorStatus::Forbidden => 403,
            ErrorStatus::NotFound => 404,
            ErrorStatus::Conflict => 409,
            ErrorStatus::Rejected => 422,
            ErrorStatus::Internal => 500,
            ErrorStatus::Unavailable => 503,
        }
    }

    /// The name of the status.
    pub fn as_str(&self) -> (r: &'static str)
        ensures
            r@ == self.name(),
    {
        match self {
            ErrorStatus::InvalidInput => "invalid_input",
            ErrorStatus::Unauthorized => "unauthorized",
            ErrorStatus::Forbidden => "forbidden",
            ErrorStatus::NotFound => "not_found",
            ErrorStatus::Conflict => "conflict",
            ErrorStatus::Rejected => "rejected",
            ErrorStatus::Internal => "internal",
            ErrorStatus::Unavailable => "unavailable",
        }
    }

    /// The HTTP status code of the status.
    pub fn status_code(&self) -> (r: u16)
        ensures
            r == self.code(),
    {
        match self {
            ErrorStatus::InvalidInput => 400,
            ErrorStatus::Unauthorized => 401,
            ErrorStatus::Forbidden => 403,
            ErrorStatus::NotFound => 404,
            ErrorStatus::Conflict => 409,
            ErrorStatus::Rejected => 422,
            ErrorStatus::Internal => 500,
            ErrorStatus::Unavailable => 503,
        }
    }

    /// The status as text: its name.
    pub fn to_string(&self) -> (r: String)
        ensures
            r@ == self.name(),
    {
        String::from_str(self.as_str())
    }
}

/// The status code for a request that its client closed.
pub const CLIENT_CLOSED_REQUEST: u16 = 499;

/// A failure as reported to a client.
#[derive(Clone, Debug)]
pub struct Error {
    /// The HTTP status code.
    pub status_code: u16,
    /// The kind of the failure.
    pub status: ErrorStatus,
    /// A short machine-readable code.
    pub code: String,
    /// A message for people, if there is one.
    pub message: Option<String>,
}

/// A report as a mathematical value.
pub struct ErrorView {
    /// The HTTP status code.
    pub status_code: u16,
    /// The kind of the failure.
    pub status: ErrorStatus,
    /// A short machine-readable code.
    pub code: Seq<char>,
    /// A message for people, if there is one.
    pub message: Option<Seq<char>>,
}

impl View for Error {
    type V = ErrorView;

    open spec fn view(&self) -> ErrorView {
        ErrorView {
            status_code: self.status_code,
            status: self.status,
            code: self.code@,
            message: match self.message {
                Some(m) => Some(m@),
                None => None,
            },
        }
    }
}

/// The report with the given status, code and message, under the status's own
/// HTTP status code.
pub open spec fn report(status: ErrorStatus, code: Seq<char>, message: Seq<char>) -> ErrorView {
    ErrorView { status_code: status.code(), status, code, message: Some(message) }
}

/// The report of a rejected or failed command.
pub open spec fn command_report(err: CommandError) -> ErrorView {
    let status = match err.code {
        ErrorCode::Rejected => ErrorStatus::Rejected,
        ErrorCode::InvalidInput => ErrorStatus::InvalidInput,
        ErrorCode::Internal => ErrorStatus::Internal,
    };
    report(status, "command_"@ + err.code.name(), err.message@)
}

/// The report of a failed encoding or decoding.
pub open spec fn serialization_report(err: SerializationError) -> ErrorView {
    report(ErrorStatus::Internal, "serialization_error"@, err.message@)
}

/// The report of a failure of the event store.
pub open spec fn store_report(err: StoreError) -> ErrorView {
    match err {
        StoreError::Io(m) => report(ErrorStatus::Internal, "io_error"@, m@),
        StoreError::IntegrityError(m) => report(ErrorStatus::Conflict, "integrity_error"@, m@),
        StoreError::Corruption(m) => report(ErrorStatus::Internal, "corruption"@, m@),
        StoreError::InvalidArgument(m) => report(
            ErrorStatus::InvalidInput,
            "invalid_argument"@,
            m@,
        ),
        StoreError::InitializationError(m) => report(
            ErrorStatus::Unavailable,
            "initialization_error"@,
            m@,
        ),
        StoreError::PageNotFound(id) => report(
            ErrorStatus::Internal,
            "page_not_found"@,
            "Page "@ + decimal_text(id as nat) + " not found"@,
        ),
        StoreError::DirtyPageNotFound(id) => report(
            ErrorStatus::Internal,
            "dirty_page_not_found"@,
            "Dirty page "@ + decimal_text(id as nat) + " not found"@,
        ),
        StoreError::RootIDMismatch(expected, found) => report(
            ErrorStatus::Internal,
            "root_id_mismatch"@,
            "Root ID mismatch: expected "@ + decimal_text(expected as nat) + ", got "@
                + decimal_text(found as nat),
        ),
        StoreError::DatabaseCorrupted(m) => report(
            ErrorStatus::Internal,
            "database_corrupted"@,
            m@,
        ),
        StoreError::InternalError(m) => report(ErrorStatus::Internal, "internal_error"@, m@),
        StoreError::SerializationError(m) => report(
            ErrorStatus::Internal,
            "serialization_error"@,
            m@,
        ),
        StoreError::DeserializationError(m) => report(
            ErrorStatus::Internal,
            "deserialization_error"@,
            m@,
        ),
        StoreError::PageAlreadyFreed(id) => report(
            ErrorStatus::Internal,
            "page_already_freed"@,
            "Page "@ + decimal_text(id as nat) + " already freed"@,
        ),
        StoreError::PageAlreadyDirty(id) => report(
            ErrorStatus::Internal,
            "page_already_dirty"@,
            "Page "@ + decimal_text(id as nat) + " already dirty"@,
        ),
        StoreError::TransportError(m) => report(ErrorStatus::Unavailable, "transport_error"@, m@),
        StoreError::CancelledByUser => ErrorView {
            status_code: CLIENT_CLOSED_REQUEST,
            status: ErrorStatus::Internal,
            code: "cancelled"@,
            message: Some("Request cancelled by user"@),
        },
        StoreError::Timeout => report(ErrorStatus::Unavailable, "timeout"@, "Request timed out"@),
        StoreError::Unknown(m) => report(ErrorStatus::Internal, "unknown"@, m@),
        StoreError::AuthenticationError(m) => report(
            ErrorStatus::Unauthorized,
            "authentication_error"@,
            m@,
        ),
    }
}

/// The report of a failed command execution.
pub open spec fn execute_report(err: ExecuteError) -> ErrorView {
    match err {
        ExecuteError::Command(e) => report(ErrorStatus::Rejected, "command_rejected"@, e.text()),
        ExecuteError::Validation(e) => report(
            ErrorStatus::Rejected,
            "command_rejected"@,
            e.text(),
        ),
        ExecuteError::DCB(e) => store_report(e),
        ExecuteError::Serialization(e) => serialization_report(e),
        ExecuteError::HookSuspended => report(
            ErrorStatus::Internal,
            "hook_suspended"@,
            "The hook before the commit did not complete at once"@,
        ),
    }
}

/// The text `before`, the number `n` in decimal, the text `after`.
fn around_number(before: &str, n: u64, after: &str) -> (r: String)
    ensures
        r@ == before@ + decimal_text(n as nat) + after@,
{
    let mut r = String::from_str(before);
    let digits = decimal(n);
    r.append(digits.as_str());
    r.append(after);
    r
}

impl Error {
    /// A report with the given status and code, under the status's own HTTP
    /// status code, without a message.
    pub fn new(status: ErrorStatus, code: String) -> (r: Self)
        ensures
            r@ == (ErrorView { status_code: status.code(), status, code: code@, message: None }),
    {
        Error { status_code: status.status_code(), status, code, message: None }
    }

    /// The same report under another HTTP status code.
    pub fn with_status_code(self, status_code: u16) -> (r: Self)
        ensures
            r@ == (ErrorView { status_code, ..self@ }),
    {
        Error { status_code, status: self.status, code: self.code, message: self.message }
    }

    /// The same report with the given message.
    pub fn with_message(self, msg: String) -> (r: Self)
        ensures
            r@ == (ErrorView { message: Some(msg@), ..self@ }),
    {
        Error {
            status_code: self.status_code,
            status: self.status,
            code: self.code,
            message: Some(msg),
        }
    }

    /// Reports a rejected or failed command.
    pub fn from_command_error(err: CommandError) -> (r: Self)
        ensures
            r@ == command_report(err),
    {
        let status = match err.code {
            ErrorCode::Rejected => ErrorStatus::Rejected,
            ErrorCode::InvalidInput => ErrorStatus::InvalidInput,
            ErrorCode::Internal => ErrorStatus::Internal,
        };
        let mut code = String::from_str("command_");
        code.append(err.code.as_str());
        Error::new(status, code).with_message(err.message)
    }

    /// Reports a failed encoding or decoding.
    pub fn from_serialization_error(err: SerializationError) -> (r: Self)
        ensures
            r@ == serialization_report(err),
    {
        Error::new(ErrorStatus::Internal, String::from_str("serialization_error")).with_message(
            err.message,
        )
    }

    /// Reports a failure of the event store.
    pub fn from_store_error(err: StoreError) -> (r: Self)
        ensures
            r@ == store_report(err),
    {
        match err {
            StoreError::Io(m) => Error::new(
                ErrorStatus::Internal,
                String::from_str("io_error"),
            ).with_message(m),
            StoreError::IntegrityError(m) => Error::new(
                ErrorStatus::Conflict,
                String::from_str("integrity_error"),
            ).with_message(m),
            StoreError::Corruption(m) => Error::new(
                ErrorStatus::Internal,
                String::from_str("corruption"),
            ).with_message(m),
            StoreError::InvalidArgument(m) => Error::new(
                ErrorStatus::InvalidInput,
                String::from_str("invalid_argument"),
            ).with_message(m),
            StoreError::InitializationError(m) => Error::new(
                ErrorStatus::Unavailable,
                String::from_str("initialization_error"),
            ).with_message(m),
            StoreError::PageNotFound(id) => Error::new(
                ErrorStatus::Internal,
                String::from_str("page_not_found"),
            ).with_message(around_number("Page ", id, " not found")),
            StoreError::DirtyPageNotFound(id) => Error::new(
                ErrorStatus::Internal,
                String::from_str("dirty_page_not_found"),
            ).with_message(around_number("Dirty page ", id, " not found")),
            StoreError::RootIDMismatch(expected, found) => {
                let mut msg = around_number("Root ID mismatch: expected ", expected, ", got ");
                let digits = decimal(found);
                msg.append(digits.as_str());
                Error::new(
                    ErrorStatus::Internal,
                    String::from_str("root_id_mismatch"),
                ).with_message(msg)
            },
            StoreError::DatabaseCorrupted(m) => Error::new(
                ErrorStatus::Internal,
                String::from_str("database_corrupted"),
            ).with_message(m),
            StoreError::InternalError(m) => Error::new(
                ErrorStatus::Internal,
                String::from_str("internal_error"),
            ).with_message(m),
            StoreError::SerializationError(m) => Error::new(
                ErrorStatus::Internal,
                String::from_str("serialization_error"),
            ).with_message(m),
            StoreError::DeserializationError(m) => Error::new(
                ErrorStatus::Internal,
                String::from_str("deserialization_error"),
            ).with_message(m),
            StoreError::PageAlreadyFreed(id) => Error::new(
                ErrorStatus::Internal,
                String::from_str("page_already_freed"),
            ).with_message(around_number("Page ", id, " already freed")),
            StoreError::PageAlreadyDirty(id) => Error::new(
                ErrorStatus::Internal,
                String::from_str("page_already_dirty"),
            ).with_message(around_number("Page ", id, " already dirty")),
            StoreError::TransportError(m) => Error::new(
                ErrorStatus::Unavailable,
                String::from_str("transport_error"),
            ).with_message(m),
            StoreError::CancelledByUser => Error::new(
                ErrorStatus::Internal,
                String::from_str("cancelled"),
            ).with_status_code(CLIENT_CLOSED_REQUEST).with_message(
                String::from_str("Request cancelled by user"),
            ),
            StoreError::Timeout => Error::new(
                ErrorStatus::Unavailable,
                String::from_str("timeout"),
            ).with_message(String::from_str("Request timed out")),
            StoreError::Unknown(m) => Error::new(
                ErrorStatus::Internal,
                String::from_str("unknown"),
            ).with_message(m),
            StoreError::AuthenticationError(m) => Error::new(
                ErrorStatus::Unauthorized,
                String::from_str("authentication_error"),
            ).with_message(m),
        }
    }

    /// Reports a failed command execution.
    pub fn from_execute_error(err: ExecuteError) -> (r: Self)
        ensures
            r@ == execute_report(err),
    {
        match err {
            ExecuteError::Command(e) => Error::new(
                ErrorStatus::Rejected,
                String::from_str("command_rejected"),
            ).with_message(e.to_string()),
            ExecuteError::Validation(e) => Error::new(
                ErrorStatus::Rejected,
                String::from_str("command_rejected"),
            ).with_message(e.to_string()),
            ExecuteError::DCB(e) => Error::from_store_error(e),
            ExecuteError::Serialization(e) => Error::from_serialization_error(e),
            ExecuteError::HookSuspended => Error::new(
                ErrorStatus::Internal,
                String::from_str("hook_suspended"),
            ).with_message(String::from_str("The hook before the commit did not complete at once")),
        }
    }
}

} // verus!
