use esruntime::schema::{all_types_query, check_event, effective_fields, schema_entry, SchemaError};

fn texts(values: &[&str]) -> Vec<String> {
    values.iter().map(|v| v.to_string()).collect()
}

#[test]
fn well_declared_events_pass() {
    assert!(check_event("SentFunds", &texts(&["account_id", "recipient_id"])).is_ok());
    assert!(check_event("SystemStarted", &texts(&[])).is_ok());
}

#[test]
fn event_type_must_be_non_empty_ascii() {
    assert!(matches!(check_event("", &texts(&["a"])), Err(SchemaError::EmptyEventType)));
    assert!(matches!(
        check_event("Überweisung", &texts(&["a"])),
        Err(SchemaError::NonAsciiEventType)
    ));
}

#[test]
fn field_names_must_not_hold_a_colon() {
    match check_event("T", &texts(&["ok", "bad:name", "bad:too"])) {
        Err(SchemaError::SeparatorInField(name)) => assert_eq!(name, "bad:name"),
        other => panic!("unexpected: {other:?}"),
    }
}

#[test]
fn field_names_must_not_repeat() {
    match check_event("T", &texts(&["a", "b", "a", "b"])) {
        Err(SchemaError::DuplicateField(name)) => assert_eq!(name, "a"),
        other => panic!("unexpected: {other:?}"),
    }
}

#[test]
fn first_fault_is_reported() {
    // the repeated field comes before the one with a colon
    match check_event("T", &texts(&["a", "a", "b:c"])) {
        Err(SchemaError::DuplicateField(name)) => assert_eq!(name, "a"),
        other => panic!("unexpected: {other:?}"),
    }
    // the name is looked at before the fields
    assert!(matches!(check_event("", &texts(&["a:b"])), Err(SchemaError::EmptyEventType)));
}

#[test]
fn without_scope_all_declared_fields_are_in_effect() {
    let declared = texts(&["account_id", "recipient_id"]);
    assert_eq!(effective_fields(&declared, None).unwrap(), declared);
}

#[test]
fn scope_narrows_the_fields() {
    let declared = texts(&["account_id", "recipient_id"]);
    let scope = texts(&["recipient_id"]);
    assert_eq!(effective_fields(&declared, Some(&scope)).unwrap(), scope);
    assert_eq!(effective_fields(&declared, Some(&texts(&[]))).unwrap(), texts(&[]));
}

#[test]
fn scope_must_lie_within_the_declared_fields() {
    let declared = texts(&["account_id", "recipient_id"]);
    let scope = texts(&["account_id", "sender_id", "other"]);
    match effective_fields(&declared, Some(&scope)) {
        Err(SchemaError::UnknownScopeField(name)) => assert_eq!(name, "sender_id"),
        other => panic!("unexpected: {other:?}"),
    }
}

#[test]
fn schema_entry_checks_declaration_and_scope() {
    let declared = texts(&["account_id", "recipient_id"]);
    let entry = schema_entry("SentFunds", &declared, None).unwrap();
    assert_eq!(entry.event_type, "SentFunds");
    assert_eq!(entry.fields, declared);

    let scope = texts(&["account_id"]);
    let entry = schema_entry("SentFunds", &declared, Some(&scope)).unwrap();
    assert_eq!(entry.fields, scope);

    assert!(matches!(
        schema_entry("SentFunds", &declared, Some(&texts(&["nope"]))),
        Err(SchemaError::UnknownScopeField(_))
    ));
    assert!(matches!(
        schema_entry("", &declared, Some(&texts(&["nope"]))),
        Err(SchemaError::EmptyEventType)
    ));
    assert!(matches!(
        schema_entry("T", &texts(&["a:b"]), None),
        Err(SchemaError::SeparatorInField(_))
    ));
}

#[test]
fn query_for_all_types_is_one_item_without_tags() {
    let items = all_types_query(texts(&["A", "B"]));
    assert_eq!(items.len(), 1);
    assert!(items[0].tags.is_empty());
    assert_eq!(items[0].types, texts(&["A", "B"]));
}
