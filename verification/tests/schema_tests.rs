use grid_store::entity::Fault;
use grid_store::error::EntityKind;
use grid_store::ledger::MAX_COMMIT_NUM;
use grid_store::schema::{GridPropertyDefinition, GridSchema, SchemaStore};

fn schema(name: &str, service_id: Option<&str>) -> GridSchema {
    GridSchema {
        name: name.to_string(),
        description: format!("{} schema", name),
        owner: "org-1".to_string(),
        start_commit_num: 0,
        end_commit_num: 0,
        service_id: service_id.map(|s| s.to_string()),
    }
}

fn definition(name: &str, schema_name: &str, service_id: Option<&str>) -> GridPropertyDefinition {
    GridPropertyDefinition {
        name: name.to_string(),
        schema_name: schema_name.to_string(),
        data_type: "Enum".to_string(),
        required: true,
        description: "a property".to_string(),
        number_exponent: -2,
        enum_options: vec!["red".to_string(), "green".to_string()],
        struct_properties: vec!["x".to_string()],
        start_commit_num: 0,
        end_commit_num: 0,
        service_id: service_id.map(|s| s.to_string()),
    }
}

fn stored(mut definition: GridPropertyDefinition, start: i64, end: i64) -> GridPropertyDefinition {
    definition.start_commit_num = start;
    definition.end_commit_num = end;
    definition
}

#[test]
fn schema_round_trip_with_definitions() {
    let mut store = SchemaStore::new();
    let definitions = vec![definition("color", "widget", None), definition("size", "widget", None)];
    store.add_schema(schema("widget", None), definitions.clone(), 2).unwrap();

    let mut expected = schema("widget", None);
    expected.start_commit_num = 2;
    expected.end_commit_num = MAX_COMMIT_NUM;
    assert_eq!(store.fetch_grid_schema("widget", None), Ok(expected.clone()));
    assert_eq!(store.list_grid_schemas(None), vec![expected]);
    assert_eq!(
        store.list_grid_property_definitions_with_schema_name("widget", None),
        vec![
            stored(definitions[0].clone(), 2, MAX_COMMIT_NUM),
            stored(definitions[1].clone(), 2, MAX_COMMIT_NUM)
        ]
    );
}

#[test]
fn definitions_are_listed_by_scope_and_by_schema() {
    let mut store = SchemaStore::new();
    store.add_schema(schema("widget", Some("A")), vec![definition("color", "widget", Some("A"))], 1).unwrap();
    store.add_schema(schema("gadget", Some("A")), vec![definition("size", "gadget", Some("A"))], 2).unwrap();
    store.add_schema(schema("widget", Some("B")), vec![definition("weight", "widget", Some("B"))], 3).unwrap();

    let of_a: Vec<String> = store
        .list_grid_property_definitions(Some("A"))
        .into_iter()
        .map(|d| format!("{}.{}", d.schema_name, d.name))
        .collect();
    assert_eq!(of_a, vec!["widget.color", "gadget.size"]);
    let of_widget_b: Vec<String> = store
        .list_grid_property_definitions_with_schema_name("widget", Some("B"))
        .into_iter()
        .map(|d| d.name)
        .collect();
    assert_eq!(of_widget_b, vec!["weight"]);
    assert_eq!(store.list_grid_property_definitions(None), vec![]);
    assert_eq!(store.list_grid_property_definitions_with_schema_name("gadget", Some("B")), vec![]);
}

#[test]
fn a_definition_is_stored_under_the_schema_it_was_added_with() {
    let mut store = SchemaStore::new();
    store.add_schema(schema("widget", None), vec![definition("color", "elsewhere", None)], 1).unwrap();
    let listed = store.list_grid_property_definitions_with_schema_name("widget", None);
    assert_eq!(listed.len(), 1);
    assert_eq!(listed[0].schema_name, "widget");
    assert_eq!(store.list_grid_property_definitions_with_schema_name("elsewhere", None), vec![]);
}

#[test]
fn schema_update_and_delete_keep_history() {
    let mut store = SchemaStore::new();
    store.add_schema(schema("widget", None), vec![definition("color", "widget", None)], 1).unwrap();
    let mut changed = schema("widget", None);
    changed.description = "changed".to_string();
    store.update_schema(changed, vec![definition("size", "widget", None)], 3).unwrap();

    assert_eq!(store.fetch_grid_schema("widget", None).unwrap().description, "changed");
    let earlier = store.fetch_grid_schema_as_of("widget", None, 2).unwrap();
    assert_eq!(earlier.description, "widget schema");
    assert_eq!(earlier.end_commit_num, 3);
    let names: Vec<String> = store
        .list_grid_property_definitions_with_schema_name("widget", None)
        .into_iter()
        .map(|d| d.name)
        .collect();
    assert_eq!(names, vec!["size"]);

    let earlier: Vec<String> = store
        .list_grid_property_definitions_as_of("widget", None, 2)
        .into_iter()
        .map(|d| d.name)
        .collect();
    assert_eq!(earlier, vec!["color"]);
    assert_eq!(store.list_grid_property_definitions_as_of("widget", None, 0), vec![]);

    store.delete_schema("widget", None, 4).unwrap();
    let refused = store.fetch_grid_schema("widget", None).unwrap_err();
    assert_eq!(refused.fault, Fault::NotFound);
    assert_eq!(refused.entity, EntityKind::Schema);
    assert_eq!(refused.key, "widget");
    assert_eq!(store.list_grid_property_definitions(None), vec![]);
    assert_eq!(store.fetch_grid_schema_as_of("widget", None, 3).unwrap().description, "changed");
}

#[test]
fn schema_writes_that_are_refused_change_nothing() {
    let mut store = SchemaStore::new();
    store.add_schema(schema("widget", None), vec![definition("color", "widget", None)], 1).unwrap();
    let refused = store
        .update_schema(
            schema("widget", None),
            vec![definition("size", "widget", None), definition("size", "widget", None)],
            2,
        )
        .unwrap_err();
    assert_eq!(refused.fault, Fault::InvariantViolation);
    let refused = store.delete_schema("gadget", None, 2).unwrap_err();
    assert_eq!(refused.fault, Fault::NotFound);
    let mut expected = SchemaStore::new();
    expected.add_schema(schema("widget", None), vec![definition("color", "widget", None)], 1).unwrap();
    assert_eq!(store, expected);
}
