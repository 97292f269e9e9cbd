use crud_core::builder::{build, RawField, RawShape, RawTypeDefinition};
use crud_core::descriptor::SchemaDescriptor;
use crud_core::synth::{
    create_query, delete_query, read_all_query, read_by_key_query, update_query,
};

fn named_field(name: &str, value_type: &str, is_id: bool) -> RawField {
    RawField { name: Some(name.to_string()), value_type: value_type.to_string(), is_id }
}

fn descriptor(table: &str, fields: Vec<RawField>) -> SchemaDescriptor {
    build(&RawTypeDefinition {
        record_name: "T".to_string(),
        shape: RawShape::Record,
        table_annotations: vec![table.to_string()],
        fields,
    })
    .expect("a valid definition must build")
}

fn users_descriptor() -> SchemaDescriptor {
    descriptor(
        "users",
        vec![
            named_field("id", "i64", true),
            named_field("name", "String", false),
            named_field("email", "String", false),
            named_field("age", "i32", false),
        ],
    )
}

#[test]
fn create_statement_for_users() {
    assert_eq!(
        create_query(&users_descriptor()),
        "INSERT INTO users (name, email, age) VALUES (?, ?, ?) RETURNING id, name, email, age"
    );
}

#[test]
fn update_statement_for_users() {
    assert_eq!(
        update_query(&users_descriptor()),
        "UPDATE users SET name = ?, email = ?, age = ? WHERE id = ?"
    );
}

#[test]
fn delete_statement_for_users() {
    assert_eq!(delete_query(&users_descriptor()), "DELETE FROM users WHERE id = ?");
}

#[test]
fn read_by_key_statement_for_users() {
    assert_eq!(read_by_key_query(&users_descriptor()), "SELECT * FROM users WHERE id = ?");
}

#[test]
fn read_all_statement_for_users() {
    assert_eq!(read_all_query(&users_descriptor()), "SELECT * FROM users");
}

#[test]
fn synthesis_is_deterministic() {
    let d1 = users_descriptor();
    let d2 = users_descriptor();
    assert_eq!(create_query(&d1), create_query(&d2));
    assert_eq!(read_by_key_query(&d1), read_by_key_query(&d2));
    assert_eq!(read_all_query(&d1), read_all_query(&d2));
    assert_eq!(update_query(&d1), update_query(&d2));
    assert_eq!(delete_query(&d1), delete_query(&d2));
}

#[test]
fn create_statement_has_one_placeholder_per_non_id_field() {
    let q = create_query(&users_descriptor());
    let placeholders = q.chars().filter(|c| *c == '?').count();
    assert_eq!(placeholders, 3);
}

#[test]
fn returning_clause_lists_id_then_columns_in_order() {
    let q = create_query(&users_descriptor());
    let (_, returning) = q.split_once(" RETURNING ").expect("a RETURNING clause");
    assert_eq!(returning, "id, name, email, age");
}

#[test]
fn column_order_skips_id_in_mid_declaration() {
    let d = descriptor(
        "things",
        vec![
            named_field("a", "i64", false),
            named_field("key", "i64", true),
            named_field("b", "String", false),
        ],
    );
    assert_eq!(
        create_query(&d),
        "INSERT INTO things (a, b) VALUES (?, ?) RETURNING key, a, b"
    );
    assert_eq!(update_query(&d), "UPDATE things SET a = ?, b = ? WHERE key = ?");
    assert_eq!(delete_query(&d), "DELETE FROM things WHERE key = ?");
}

#[test]
fn degenerate_create_with_no_non_id_fields_is_well_formed() {
    let d = descriptor("solo", vec![named_field("id", "i64", true)]);
    assert_eq!(create_query(&d), "INSERT INTO solo () VALUES () RETURNING id");
    assert_eq!(update_query(&d), "UPDATE solo SET  WHERE id = ?");
}
