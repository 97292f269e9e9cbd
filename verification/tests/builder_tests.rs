use crud_core::builder::{build, DescriptorError, RawField, RawShape, RawTypeDefinition};

fn named_field(name: &str, value_type: &str, is_id: bool) -> RawField {
    RawField { name: Some(name.to_string()), value_type: value_type.to_string(), is_id }
}

fn users_raw() -> RawTypeDefinition {
    RawTypeDefinition {
        record_name: "User".to_string(),
        shape: RawShape::Record,
        table_annotations: vec!["users".to_string()],
        fields: vec![
            named_field("id", "i64", true),
            named_field("name", "String", false),
            named_field("email", "String", false),
            named_field("age", "i32", false),
        ],
    }
}

#[test]
fn valid_record_builds_descriptor() {
    let d = build(&users_raw()).expect("a valid definition must build");
    assert_eq!(d.record_name, "User");
    assert_eq!(d.table_name, "users");
    assert_eq!(d.fields.len(), 4);
    assert_eq!(d.fields[0].name, "id");
    assert!(d.fields[0].is_id);
    assert_eq!(d.fields[1].name, "name");
    assert_eq!(d.fields[2].name, "email");
    assert_eq!(d.fields[3].name, "age");
    assert!(!d.fields[1].is_id);
    assert_eq!(d.fields[1].value_type, "String");
}

#[test]
fn field_order_is_preserved_verbatim() {
    let mut raw = users_raw();
    raw.fields.swap(1, 3);
    let d = build(&raw).expect("still valid");
    assert_eq!(d.fields[1].name, "age");
    assert_eq!(d.fields[3].name, "name");
}

#[test]
fn sum_type_is_rejected_as_unsupported_shape() {
    let mut raw = users_raw();
    raw.shape = RawShape::Sum;
    let errs = build(&raw).expect_err("a sum type must be rejected");
    assert_eq!(errs, vec![DescriptorError::UnsupportedShape]);
}

#[test]
fn union_type_is_rejected_as_unsupported_shape() {
    let mut raw = users_raw();
    raw.shape = RawShape::Union;
    let errs = build(&raw).expect_err("a union must be rejected");
    assert_eq!(errs, vec![DescriptorError::UnsupportedShape]);
}

#[test]
fn two_table_annotations_are_rejected() {
    let mut raw = users_raw();
    raw.table_annotations.push("more_users".to_string());
    let errs = build(&raw).expect_err("two table annotations must be rejected");
    assert_eq!(errs, vec![DescriptorError::DuplicateTableAnnotation]);
}

#[test]
fn zero_table_annotations_are_rejected() {
    let mut raw = users_raw();
    raw.table_annotations.clear();
    let errs = build(&raw).expect_err("a missing table annotation must be rejected");
    assert_eq!(errs, vec![DescriptorError::MissingTableAnnotation]);
}

#[test]
fn two_id_fields_are_rejected() {
    let mut raw = users_raw();
    raw.fields[2].is_id = true;
    let errs = build(&raw).expect_err("two id-marked fields must be rejected");
    assert_eq!(errs, vec![DescriptorError::DuplicateIdField]);
}

#[test]
fn zero_id_fields_are_rejected() {
    let mut raw = users_raw();
    raw.fields[0].is_id = false;
    let errs = build(&raw).expect_err("a definition without an id field must be rejected");
    assert_eq!(errs, vec![DescriptorError::MissingIdField]);
}

#[test]
fn positional_member_is_rejected_as_unnamed() {
    let mut raw = users_raw();
    raw.fields[2].name = None;
    let errs = build(&raw).expect_err("an unnamed member must be rejected");
    assert_eq!(errs, vec![DescriptorError::UnnamedField]);
}

#[test]
fn empty_name_is_rejected_as_unnamed() {
    let mut raw = users_raw();
    raw.fields[1].name = Some(String::new());
    let errs = build(&raw).expect_err("an empty field name must be rejected");
    assert_eq!(errs, vec![DescriptorError::UnnamedField]);
}

#[test]
fn all_violations_are_reported_in_one_pass() {
    let raw = RawTypeDefinition {
        record_name: "Broken".to_string(),
        shape: RawShape::Sum,
        table_annotations: vec!["a".to_string(), "b".to_string()],
        fields: vec![RawField { name: None, value_type: "i64".to_string(), is_id: false }],
    };
    let errs = build(&raw).expect_err("every violation must be reported");
    assert_eq!(
        errs,
        vec![
            DescriptorError::UnsupportedShape,
            DescriptorError::DuplicateTableAnnotation,
            DescriptorError::MissingIdField,
            DescriptorError::UnnamedField,
        ]
    );
}

#[test]
fn duplicate_table_and_missing_id_coexist() {
    let mut raw = users_raw();
    raw.table_annotations.push("again".to_string());
    raw.fields[0].is_id = false;
    let errs = build(&raw).expect_err("both violations must be reported");
    assert_eq!(
        errs,
        vec![DescriptorError::DuplicateTableAnnotation, DescriptorError::MissingIdField]
    );
}

#[test]
fn violation_messages_name_the_problem() {
    assert_eq!(
        DescriptorError::DuplicateIdField.message(),
        "only one field can carry the id marker"
    );
    assert_eq!(
        DescriptorError::MissingTableAnnotation.message(),
        "a table annotation naming the database table is required"
    );
    assert_eq!(DescriptorError::UnnamedField.message(), "all fields must have names");
    assert_eq!(
        DescriptorError::UnsupportedShape.message(),
        "only record types can be mapped to a table"
    );
    assert_eq!(
        DescriptorError::DuplicateTableAnnotation.message(),
        "only one table annotation is allowed"
    );
    assert_eq!(
        DescriptorError::MissingIdField.message(),
        "a field carrying the id marker is required"
    );
}
