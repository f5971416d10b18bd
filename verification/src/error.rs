//! The errors of commands and of the runtime around them.

use vstd::prelude::*;
use vstd::string::*;

verus! {

/// Classification of command errors.
#[derive(Clone, Copy, Debug, PartialEq, Eq, Structural)]
pub enum ErrorCode {
    /// Business rule violation: the command was understood but rejected.
    Rejected,
    /// The input was malformed or invalid.
    InvalidInput,
    /// An unexpected error occurred in the handler.
    Internal,
}

impl ErrorCode {
    /// The name of the code.
    pub open spec fn name(self) -> Seq<char> {
        match self {
            ErrorCode::Rejected => "rejected"@,
            ErrorCode::InvalidInput => "invalid_input"@,
            ErrorCode::Internal => "internal"@,
        }
    }

    /// The name of the code.
    pub fn as_str(&self) -> (r: &'static str)
        ensures
            r@ == self.name(),
    {
        match self {
            ErrorCode::Rejected => "rejected",
            ErrorCode::InvalidInput => "invalid_input",
            ErrorCode::Internal => "internal",
        }
    }
}

/// Error returned when a command is rejected or fails.
#[derive(Clone, Debug)]
pub struct CommandError {
    /// The error classification.
    pub code: ErrorCode,
    /// Human-readable error message.
    pub message: String,
}

impl CommandError {
    /// A rejection, for business rule violations.
    pub fn rejected(message: String) -> (r: Self)
        ensures
            r.code == ErrorCode::Rejected,
            r.message@ == message@,
    {
        CommandError { code: ErrorCode::Rejected, message }
    }

    /// An invalid input error.
    pub fn invalid_input(message: String) -> (r: Self)
        ensures
            r.code == ErrorCode::InvalidInput,
            r.message@ == message@,
    {
        CommandError { code: ErrorCode::InvalidInput, message }
    }

    /// An internal error.
    pub fn internal(message: String) -> (r: Self)
        ensures
            r.code == ErrorCode::Internal,
            r.message@ == message@,
    {
        CommandError { code: ErrorCode::Internal, message }
    }

    /// The error as text: the code's name, a colon and a space, the message.
    pub open spec fn text(self) -> Seq<char> {
        self.code.name() + ": "@ + self.message@
    }

    /// The error as text.
    pub fn to_string(&self) -> (r: String)
        ensures
            r@ == self.text(),
    {
        let mut r = String::from_str(self.code.as_str());
        r.append(": ");
        r.append(self.message.as_str());
        r
    }
}

/// Error during event serialization or deserialization.
#[derive(Clone, Debug)]
pub struct SerializationError {
    /// What went wrong.
    pub message: String,
}

impl SerializationError {
    /// An error with the given message.
    pub fn new(message: String) -> (r: Self)
        ensures
            r.message@ == message@,
    {
        SerializationError { message }
    }

    /// The error as text.
    pub open spec fn text(self) -> Seq<char> {
        "(de)serialization error: "@ + self.message@
    }

    /// The error as text.
    pub fn to_string(&self) -> (r: String)
        ensures
            r@ == self.text(),
    {
        let mut r = String::from_str("(de)serialization error: ");
        r.append(self.message.as_str());
        r
    }
}

/// A failure of the event store, by kind.
#[derive(Clone, Debug)]
pub enum StoreError {
    /// An I/O failure, with its description.
    Io(String),
    /// An append condition matched: another writer got there first.
    IntegrityError(String),
    /// Corrupt data was detected.
    Corruption(String),
    /// The caller gave an invalid argument.
    InvalidArgument(String),
    /// The store could not be set up.
    InitializationError(String),
    /// A page was not found.
    PageNotFound(u64),
    /// A dirty page was not found.
    DirtyPageNotFound(u64),
    /// The root ID is not the expected one: expected, then found.
    RootIDMismatch(u64, u64),
    /// The database is corrupted.
    DatabaseCorrupted(String),
    /// An internal inconsistency.
    InternalError(String),
    /// The store could not serialize.
    SerializationError(String),
    /// The store could not deserialize.
    DeserializationError(String),
    /// A page was freed twice.
    PageAlreadyFreed(u64),
    /// A page was already dirty.
    PageAlreadyDirty(u64),
    /// The transport to the store failed.
    TransportError(String),
    /// The user cancelled the request.
    CancelledByUser,
    /// The store did not answer in time.
    Timeout,
    /// A failure of no known kind.
    Unknown(String),
    /// The store refused the credentials.
    AuthenticationError(String),
}

/// Why the execution of a command failed.
#[derive(Clone, Debug)]
pub enum ExecuteError {
    /// The handler rejected the command.
    Command(CommandError),
    /// The input did not pass validation.
    Validation(CommandError),
    /// The event store failed.
    DCB(StoreError),
    /// An event could not be encoded or decoded.
    Serialization(SerializationError),
    /// The hook before the commit did not complete at once where it had to.
    HookSuspended,
}

/// Why a projection stopped.
#[derive(Clone, Debug)]
pub enum ProjectionError<E> {
    /// The handler failed.
    Handler(E),
    /// The event store failed.
    DCB(StoreError),
    /// A stored event could not be read.
    Deserialize(SerializationError),
    /// An event could not be decoded into the handler's event set.
    Serialize(SerializationError),
    /// The database failed, or another runner moved the checkpoint.
    Sqlx(String),
}

} // verus!
