use crud_core::binder::{
    clone_record, create_binding, key_binding, plan_operation, resolve_single, stream_item,
    FieldValue, OperationKind, Record, ResultShape,
};
use crud_core::builder::{build, RawField, RawShape, RawTypeDefinition};
use crud_core::descriptor::SchemaDescriptor;
use crud_core::error::{classify_store_failure, CRUDError, ErrorKind, StoreFailure};

fn named_field(name: &str, value_type: &str, is_id: bool) -> RawField {
    RawField { name: Some(name.to_string()), value_type: value_type.to_string(), is_id }
}

fn users_descriptor() -> SchemaDescriptor {
    build(&RawTypeDefinition {
        record_name: "User".to_string(),
        shape: RawShape::Record,
        table_annotations: vec!["users".to_string()],
        fields: vec![
            named_field("id", "i64", true),
            named_field("name", "String", false),
            named_field("email", "String", false),
            named_field("age", "i32", false),
        ],
    })
    .expect("a valid definition must build")
}

fn debbie_values() -> Vec<FieldValue> {
    vec![
        FieldValue::Text("Debbie".to_string()),
        FieldValue::Text("debbie@example.com".to_string()),
        FieldValue::Int(47),
    ]
}

#[test]
fn plans_fix_statement_parameters_and_shape() {
    let d = users_descriptor();

    let create = plan_operation(&d, OperationKind::Create);
    assert_eq!(create.kind, OperationKind::Create);
    assert_eq!(
        create.sql,
        "INSERT INTO users (name, email, age) VALUES (?, ?, ?) RETURNING id, name, email, age"
    );
    assert_eq!(create.param_count, 3);
    assert_eq!(create.shape, ResultShape::OneRecord);

    let read = plan_operation(&d, OperationKind::ReadByKey);
    assert_eq!(read.sql, "SELECT * FROM users WHERE id = ?");
    assert_eq!(read.param_count, 1);
    assert_eq!(read.shape, ResultShape::RecordStream);

    let read_one = plan_operation(&d, OperationKind::ReadOneByKey);
    assert_eq!(read_one.sql, "SELECT * FROM users WHERE id = ?");
    assert_eq!(read_one.param_count, 1);
    assert_eq!(read_one.shape, ResultShape::OneRecord);

    let read_all = plan_operation(&d, OperationKind::ReadAll);
    assert_eq!(read_all.sql, "SELECT * FROM users");
    assert_eq!(read_all.param_count, 0);
    assert_eq!(read_all.shape, ResultShape::RecordList);

    let update = plan_operation(&d, OperationKind::Update);
    assert_eq!(update.sql, "UPDATE users SET name = ?, email = ?, age = ? WHERE id = ?");
    assert_eq!(update.param_count, 4);
    assert_eq!(update.shape, ResultShape::NoValue);

    let delete = plan_operation(&d, OperationKind::Delete);
    assert_eq!(delete.sql, "DELETE FROM users WHERE id = ?");
    assert_eq!(delete.param_count, 1);
    assert_eq!(delete.shape, ResultShape::NoValue);
}

#[test]
fn create_binding_passes_values_in_declaration_order() {
    let d = users_descriptor();
    let bound = create_binding(&d, debbie_values()).expect("the arity matches");
    assert_eq!(bound, debbie_values());
}

#[test]
fn create_binding_rejects_wrong_arity_before_the_store() {
    let d = users_descriptor();
    let err = create_binding(&d, vec![FieldValue::Int(1)]).expect_err("the arity is wrong");
    assert_eq!(err.kind, ErrorKind::InvalidInput);
}

#[test]
fn update_binding_binds_the_key_last() {
    let d = users_descriptor();
    let rec = Record { key: 7, values: debbie_values() };
    let bound = update_binding_ok(&d, &rec);
    assert_eq!(bound.len(), 4);
    assert_eq!(bound[0], FieldValue::Text("Debbie".to_string()));
    assert_eq!(bound[1], FieldValue::Text("debbie@example.com".to_string()));
    assert_eq!(bound[2], FieldValue::Int(47));
    assert_eq!(bound[3], FieldValue::Int(7));
}

fn update_binding_ok(d: &SchemaDescriptor, rec: &Record) -> Vec<FieldValue> {
    crud_core::binder::update_binding(d, rec).expect("the arity matches")
}

#[test]
fn update_binding_rejects_wrong_arity_before_the_store() {
    let d = users_descriptor();
    let rec = Record { key: 7, values: vec![FieldValue::Int(1)] };
    let err = crud_core::binder::update_binding(&d, &rec).expect_err("the arity is wrong");
    assert_eq!(err.kind, ErrorKind::InvalidInput);
}

#[test]
fn key_binding_is_the_single_key_parameter() {
    assert_eq!(key_binding(42), vec![FieldValue::Int(42)]);
}

#[test]
fn stream_item_passes_a_fetched_record_through() {
    let rec = Record { key: 1, values: debbie_values() };
    let out = stream_item(Ok(rec.clone())).expect("a fetched record passes through");
    assert_eq!(out, rec);
}

#[test]
fn stream_item_translates_a_per_element_failure() {
    let out = stream_item(Err(StoreFailure::Other { message: "disk gone".to_string() }))
        .expect_err("a failure is translated");
    assert_eq!(out.kind, ErrorKind::InternalError);
    assert_eq!(out.message, "disk gone");
}

#[test]
fn resolve_single_returns_the_only_match() {
    let rec = Record { key: 3, values: vec![FieldValue::Int(9)] };
    let out = resolve_single(vec![rec.clone()]).expect("one match resolves");
    assert_eq!(out, rec);
}

#[test]
fn resolve_single_reports_not_found_for_no_match() {
    let err = resolve_single(vec![]).expect_err("no match");
    assert_eq!(err.kind, ErrorKind::NotFound);
    assert_eq!(err.message, "no matching row");
}

#[test]
fn resolve_single_reports_internal_error_for_two_matches() {
    let rec = Record { key: 3, values: vec![FieldValue::Int(9)] };
    let err = resolve_single(vec![rec.clone(), rec]).expect_err("two matches");
    assert_eq!(err.kind, ErrorKind::InternalError);
}

#[test]
fn clone_record_copies_key_and_values() {
    let rec = Record { key: 5, values: debbie_values() };
    let copy = clone_record(&rec);
    assert_eq!(copy, rec);
}

#[test]
fn constraint_violation_becomes_already_exists() {
    let err = classify_store_failure(StoreFailure::ConstraintViolation {
        message: "UNIQUE constraint failed".to_string(),
    });
    assert_eq!(err.kind, ErrorKind::AlreadyExists);
    assert_eq!(err.message, "UNIQUE constraint failed");
}

#[test]
fn access_denial_becomes_unauthorized() {
    let err =
        classify_store_failure(StoreFailure::AccessDenied { message: "no role".to_string() });
    assert_eq!(err.kind, ErrorKind::Unauthorized);
}

#[test]
fn any_other_failure_becomes_internal_error() {
    let err = classify_store_failure(StoreFailure::Other { message: "timeout".to_string() });
    assert_eq!(err.kind, ErrorKind::InternalError);
    assert_eq!(err.message, "timeout");
}

#[test]
fn new_wraps_a_diagnostic_as_internal_error() {
    let err = CRUDError::new("database is locked".to_string());
    assert_eq!(err.kind, ErrorKind::InternalError);
    assert_eq!(err.message, "database is locked");
}
