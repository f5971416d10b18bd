use esruntime::error::{
    CommandError, ErrorCode, ExecuteError, SerializationError, StoreError,
};
use esruntime::status::ErrorStatus::{Conflict, Internal, InvalidInput, Unauthorized, Unavailable};
use esruntime::status::{Error, ErrorStatus};

fn s(text: &str) -> String {
    text.to_string()
}

#[test]
fn command_error_constructors_set_code_and_message() {
    let e = CommandError::rejected(s("Insufficient funds"));
    assert_eq!(e.code, ErrorCode::Rejected);
    assert_eq!(e.message, "Insufficient funds");
    let e = CommandError::invalid_input(s("Amount must be positive"));
    assert_eq!(e.code, ErrorCode::InvalidInput);
    assert_eq!(e.message, "Amount must be positive");
    let e = CommandError::internal(s("bug"));
    assert_eq!(e.code, ErrorCode::Internal);
    assert_eq!(e.message, "bug");
}

#[test]
fn command_error_text_names_the_code() {
    assert_eq!(
        CommandError::rejected(s("Insufficient funds")).to_string(),
        "rejected: Insufficient funds"
    );
    assert_eq!(
        CommandError::invalid_input(s("x")).to_string(),
        "invalid_input: x"
    );
    assert_eq!(CommandError::internal(s("")).to_string(), "internal: ");
    assert_eq!(ErrorCode::Rejected.as_str(), "rejected");
    assert_eq!(ErrorCode::InvalidInput.as_str(), "invalid_input");
    assert_eq!(ErrorCode::Internal.as_str(), "internal");
}

#[test]
fn serialization_error_text() {
    let e = SerializationError::new(s("missing field `amount`"));
    assert_eq!(e.message, "missing field `amount`");
    assert_eq!(
        e.to_string(),
        "(de)serialization error: missing field `amount`"
    );
}

#[test]
fn status_names_and_codes() {
    let all = [
        (ErrorStatus::InvalidInput, "invalid_input", 400),
        (ErrorStatus::Unauthorized, "unauthorized", 401),
        (ErrorStatus::Forbidden, "forbidden", 403),
        (ErrorStatus::NotFound, "not_found", 404),
        (ErrorStatus::Conflict, "conflict", 409),
        (ErrorStatus::Rejected, "rejected", 422),
        (ErrorStatus::Internal, "internal", 500),
        (ErrorStatus::Unavailable, "unavailable", 503),
    ];
    for (status, name, code) in all {
        assert_eq!(status.as_str(), name);
        assert_eq!(status.to_string(), name);
        assert_eq!(status.status_code(), code);
    }
}

#[test]
fn report_builders() {
    let e = Error::new(ErrorStatus::NotFound, s("no_such_command"));
    assert_eq!(e.status_code, 404);
    assert_eq!(e.status, ErrorStatus::NotFound);
    assert_eq!(e.code, "no_such_command");
    assert_eq!(e.message, None);
    let e = e.with_message(s("nothing here")).with_status_code(410);
    assert_eq!(e.status_code, 410);
    assert_eq!(e.status, ErrorStatus::NotFound);
    assert_eq!(e.message, Some(s("nothing here")));
}

#[test]
fn command_errors_are_reported_by_code() {
    let e = Error::from_command_error(CommandError::rejected(s("no")));
    assert_eq!((e.status, e.status_code), (ErrorStatus::Rejected, 422));
    assert_eq!(e.code, "command_rejected");
    assert_eq!(e.message, Some(s("no")));
    let e = Error::from_command_error(CommandError::invalid_input(s("bad")));
    assert_eq!((e.status, e.status_code), (ErrorStatus::InvalidInput, 400));
    assert_eq!(e.code, "command_invalid_input");
    let e = Error::from_command_error(CommandError::internal(s("bug")));
    assert_eq!((e.status, e.status_code), (ErrorStatus::Internal, 500));
    assert_eq!(e.code, "command_internal");
}

#[test]
fn serialization_errors_are_internal() {
    let e = Error::from_serialization_error(SerializationError::new(s("eof")));
    assert_eq!((e.status, e.status_code), (ErrorStatus::Internal, 500));
    assert_eq!(e.code, "serialization_error");
    assert_eq!(e.message, Some(s("eof")));
}

fn report(err: StoreError) -> (ErrorStatus, u16, String, Option<String>) {
    let e = Error::from_store_error(err);
    (e.status, e.status_code, e.code, e.message)
}

fn expect(status: ErrorStatus, code: u16, name: &str, message: &str) -> (ErrorStatus, u16, String, Option<String>) {
    (status, code, s(name), Some(s(message)))
}

#[test]
fn store_errors_are_reported_by_kind() {
    assert_eq!(report(StoreError::Io(s("disk"))), expect(Internal, 500, "io_error", "disk"));
    assert_eq!(
        report(StoreError::IntegrityError(s("condition failed"))),
        expect(Conflict, 409, "integrity_error", "condition failed")
    );
    assert_eq!(report(StoreError::Corruption(s("c"))), expect(Internal, 500, "corruption", "c"));
    assert_eq!(
        report(StoreError::InvalidArgument(s("a"))),
        expect(InvalidInput, 400, "invalid_argument", "a")
    );
    assert_eq!(
        report(StoreError::InitializationError(s("i"))),
        expect(Unavailable, 503, "initialization_error", "i")
    );
    assert_eq!(
        report(StoreError::PageNotFound(42)),
        expect(Internal, 500, "page_not_found", "Page 42 not found")
    );
    assert_eq!(
        report(StoreError::DirtyPageNotFound(7)),
        expect(Internal, 500, "dirty_page_not_found", "Dirty page 7 not found")
    );
    assert_eq!(
        report(StoreError::RootIDMismatch(3, 120)),
        expect(Internal, 500, "root_id_mismatch", "Root ID mismatch: expected 3, got 120")
    );
    assert_eq!(
        report(StoreError::DatabaseCorrupted(s("d"))),
        expect(Internal, 500, "database_corrupted", "d")
    );
    assert_eq!(
        report(StoreError::InternalError(s("x"))),
        expect(Internal, 500, "internal_error", "x")
    );
    assert_eq!(
        report(StoreError::SerializationError(s("x"))),
        expect(Internal, 500, "serialization_error", "x")
    );
    assert_eq!(
        report(StoreError::DeserializationError(s("x"))),
        expect(Internal, 500, "deserialization_error", "x")
    );
    assert_eq!(
        report(StoreError::PageAlreadyFreed(0)),
        expect(Internal, 500, "page_already_freed", "Page 0 already freed")
    );
    assert_eq!(
        report(StoreError::PageAlreadyDirty(18446744073709551615)),
        expect(Internal, 500, "page_already_dirty", "Page 18446744073709551615 already dirty")
    );
    assert_eq!(
        report(StoreError::TransportError(s("t"))),
        expect(Unavailable, 503, "transport_error", "t")
    );
    assert_eq!(
        report(StoreError::CancelledByUser),
        expect(Internal, 499, "cancelled", "Request cancelled by user")
    );
    assert_eq!(
        report(StoreError::Timeout),
        expect(Unavailable, 503, "timeout", "Request timed out")
    );
    assert_eq!(report(StoreError::Unknown(s("u"))), expect(Internal, 500, "unknown", "u"));
    assert_eq!(
        report(StoreError::AuthenticationError(s("who"))),
        expect(Unauthorized, 401, "authentication_error", "who")
    );
}

#[test]
fn execution_errors_are_reported() {
    let e = Error::from_execute_error(ExecuteError::Command(CommandError::rejected(s(
        "Insufficient funds",
    ))));
    assert_eq!((e.status, e.status_code), (ErrorStatus::Rejected, 422));
    assert_eq!(e.code, "command_rejected");
    assert_eq!(e.message, Some(s("rejected: Insufficient funds")));

    let e = Error::from_execute_error(ExecuteError::Validation(CommandError::invalid_input(s(
        "empty",
    ))));
    assert_eq!((e.status, e.status_code), (ErrorStatus::Rejected, 422));
    assert_eq!(e.code, "command_rejected");
    assert_eq!(e.message, Some(s("invalid_input: empty")));

    let e = Error::from_execute_error(ExecuteError::DCB(StoreError::IntegrityError(s("moved"))));
    assert_eq!((e.status, e.status_code), (ErrorStatus::Conflict, 409));
    assert_eq!(e.code, "integrity_error");

    let e = Error::from_execute_error(ExecuteError::Serialization(SerializationError::new(s(
        "eof",
    ))));
    assert_eq!((e.status, e.status_code), (ErrorStatus::Internal, 500));
    assert_eq!(e.code, "serialization_error");
    assert_eq!(e.message, Some(s("eof")));
}
