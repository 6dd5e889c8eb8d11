use grid_store::entity::{ChildKey, Fault};
use grid_store::error::EntityKind;
use grid_store::ledger::MAX_COMMIT_NUM;
use grid_store::location::{
    assemble_attributes, create_lat_long_value, make_location_attribute_models, LatLong,
    LatLongValue, Location, LocationAttribute, LocationAttributeModel, LocationModel,
    LocationPayload, LocationStore,
};
use grid_store::property::PropertyData;
use grid_store::table::Row;

fn attribute(name: &str, children: Option<Vec<LocationAttribute>>) -> LocationAttribute {
    LocationAttribute {
        location_id: "loc-1".to_string(),
        location_address: "621dee".to_string(),
        property_name: name.to_string(),
        parent_property_name: None,
        data_type: "String".to_string(),
        bytes_value: None,
        boolean_value: None,
        number_value: None,
        string_value: Some(format!("value of {}", name)),
        enum_value: None,
        struct_values: children,
        lat_long_value: None,
        start_commit_num: 0,
        end_commit_num: 0,
        service_id: None,
    }
}

fn location(id: &str, service_id: Option<&str>) -> Location {
    Location {
        location_id: id.to_string(),
        location_namespace: "GS1".to_string(),
        owner: "org-1".to_string(),
        attributes: vec![],
        start_commit_num: 0,
        end_commit_num: 0,
        service_id: service_id.map(|s| s.to_string()),
    }
}

fn model(name: &str, parent: Option<&str>) -> LocationAttributeModel {
    Row {
        key: ChildKey {
            owner: "loc-1".to_string(),
            parent: parent.map(|p| p.to_string()),
            name: name.to_string(),
        },
        service_id: None,
        start_commit_num: 2,
        end_commit_num: MAX_COMMIT_NUM,
        payload: PropertyData {
            address: "621dee".to_string(),
            data_type: "LatLong".to_string(),
            bytes_value: Some(vec![1, 2]),
            boolean_value: Some(true),
            number_value: Some(-4),
            string_value: Some("text".to_string()),
            enum_value: Some(3),
            latitude_value: Some(46_786_299),
            longitude_value: Some(-92_051_373),
        },
    }
}

fn names(attributes: &[LocationAttribute]) -> Vec<String> {
    attributes.iter().map(|a| a.property_name.clone()).collect()
}

#[test]
fn lat_long_value_needs_both_parts() {
    assert_eq!(create_lat_long_value(Some(1), Some(2)), Some(LatLongValue(1, 2)));
    assert_eq!(create_lat_long_value(Some(1), None), None);
    assert_eq!(create_lat_long_value(None, Some(2)), None);
    assert_eq!(create_lat_long_value(None, None), None);
    assert_eq!(LatLongValue::from((-7, 9)), LatLongValue(-7, 9));
    let _marker = LatLong;
}

#[test]
fn from_model_reads_every_field_and_has_no_children() {
    let attribute = LocationAttribute::from_model(model("position", Some("site")));
    assert_eq!(attribute.location_id, "loc-1");
    assert_eq!(attribute.location_address, "621dee");
    assert_eq!(attribute.property_name, "position");
    assert_eq!(attribute.parent_property_name, Some("site".to_string()));
    assert_eq!(attribute.data_type, "LatLong");
    assert_eq!(attribute.bytes_value, Some(vec![1, 2]));
    assert_eq!(attribute.boolean_value, Some(true));
    assert_eq!(attribute.number_value, Some(-4));
    assert_eq!(attribute.string_value, Some("text".to_string()));
    assert_eq!(attribute.enum_value, Some(3));
    assert!(attribute.struct_values.is_none());
    assert_eq!(attribute.lat_long_value, Some(LatLongValue(46_786_299, -92_051_373)));
    assert_eq!(attribute.start_commit_num, 2);
    assert_eq!(attribute.end_commit_num, MAX_COMMIT_NUM);
    assert_eq!(attribute.service_id, None);
}

#[test]
fn from_model_with_children_keeps_the_children() {
    let children = vec![attribute("a", None), attribute("b", None)];
    let attribute = LocationAttribute::from_model_with_children(model("site", None), children);
    assert_eq!(attribute.property_name, "site");
    assert_eq!(names(attribute.struct_values.as_ref().unwrap()), vec!["a", "b"]);
    let empty = LocationAttribute::from_model_with_children(model("site", None), vec![]);
    assert_eq!(empty.struct_values.map(|v| v.len()), Some(0));
}

#[test]
fn attribute_models_are_flattened_parent_first() {
    let tree = vec![
        attribute(
            "site",
            Some(vec![
                attribute("building", Some(vec![attribute("floor", None)])),
                attribute("gate", Some(vec![])),
            ]),
        ),
        attribute("contact", None),
    ];
    let models = make_location_attribute_models(&tree, None);
    let flat: Vec<(String, Option<String>)> =
        models.iter().map(|m| (m.key.name.clone(), m.key.parent.clone())).collect();
    assert_eq!(
        flat,
        vec![
            ("site".to_string(), None),
            ("building".to_string(), Some("site".to_string())),
            ("floor".to_string(), Some("building".to_string())),
            ("gate".to_string(), Some("site".to_string())),
            ("contact".to_string(), None),
        ]
    );
    for model in &models {
        assert_eq!(model.end_commit_num, MAX_COMMIT_NUM);
        assert_eq!(model.key.owner, "loc-1");
    }
}

#[test]
fn attribute_models_carry_the_given_parent_and_the_values() {
    let mut leaf = attribute("position", None);
    leaf.lat_long_value = Some(LatLongValue(5, 6));
    leaf.start_commit_num = 9;
    leaf.end_commit_num = 10;
    leaf.service_id = Some("A".to_string());
    let models = make_location_attribute_models(&vec![leaf], Some("root".to_string()));
    assert_eq!(models.len(), 1);
    assert_eq!(models[0].key.parent, Some("root".to_string()));
    assert_eq!(models[0].payload.latitude_value, Some(5));
    assert_eq!(models[0].payload.longitude_value, Some(6));
    assert_eq!(models[0].payload.string_value, Some("value of position".to_string()));
    assert_eq!(models[0].start_commit_num, 9);
    assert_eq!(models[0].end_commit_num, MAX_COMMIT_NUM);
    assert_eq!(models[0].service_id, Some("A".to_string()));
    assert_eq!(make_location_attribute_models(&vec![], None), vec![]);
}

#[test]
fn attributes_are_assembled_from_rows_by_parent_name() {
    let rows = vec![
        model("site", None),
        model("building", Some("site")),
        model("floor", Some("building")),
        model("gate", Some("site")),
        model("contact", None),
        model("orphan", Some("nowhere")),
    ];
    let tree = assemble_attributes(&rows);
    assert_eq!(names(&tree), vec!["site", "contact"]);
    let site = tree[0].struct_values.as_ref().unwrap();
    assert_eq!(names(site), vec!["building", "gate"]);
    assert_eq!(names(site[0].struct_values.as_ref().unwrap()), vec!["floor"]);
    assert!(site[1].struct_values.is_none());
    assert!(tree[1].struct_values.is_none());
}

#[test]
fn assembling_rows_that_name_each_other_ends() {
    let rows = vec![model("a", Some("b")), model("b", Some("a")), model("top", None)];
    let tree = assemble_attributes(&rows);
    assert_eq!(names(&tree), vec!["top"]);
}

#[test]
fn location_round_trip_with_nested_attributes() {
    let mut store = LocationStore::new();
    let attributes = vec![
        attribute("site", Some(vec![attribute("building", None), attribute("gate", None)])),
        attribute("contact", None),
    ];
    store.add_location(location("loc-1", Some("A")), attributes, 4).unwrap();

    let found = store.fetch_location("loc-1", Some("A".to_string())).unwrap();
    assert_eq!(found.location_id, "loc-1");
    assert_eq!(found.location_namespace, "GS1");
    assert_eq!(found.owner, "org-1");
    assert_eq!(found.start_commit_num, 4);
    assert_eq!(found.end_commit_num, MAX_COMMIT_NUM);
    assert_eq!(found.service_id, Some("A".to_string()));
    assert_eq!(names(&found.attributes), vec!["site", "contact"]);
    let site = &found.attributes[0];
    assert_eq!(names(site.struct_values.as_ref().unwrap()), vec!["building", "gate"]);
    assert_eq!(site.string_value, Some("value of site".to_string()));
    let building = &site.struct_values.as_ref().unwrap()[0];
    assert_eq!(building.parent_property_name, Some("site".to_string()));
    assert_eq!(building.start_commit_num, 4);
    assert_eq!(building.end_commit_num, MAX_COMMIT_NUM);
    assert_eq!(building.service_id, Some("A".to_string()));
    assert_eq!(building.location_id, "loc-1");
}

#[test]
fn location_update_replaces_the_attributes_and_keeps_history() {
    let mut store = LocationStore::new();
    store
        .add_location(location("loc-1", None), vec![attribute("a", None), attribute("b", None)], 1)
        .unwrap();
    store
        .update_location(location("loc-1", None), vec![attribute("b", None), attribute("c", None)], 3)
        .unwrap();
    let current = store.fetch_location("loc-1", None).unwrap();
    assert_eq!(names(&current.attributes), vec!["b", "c"]);
    assert_eq!(current.start_commit_num, 3);
    let earlier = store.fetch_location_as_of("loc-1", None, 2).unwrap();
    assert_eq!(names(&earlier.attributes), vec!["a", "b"]);
    assert_eq!(earlier.end_commit_num, 3);
    assert_eq!(earlier.attributes[0].end_commit_num, 3);
}

#[test]
fn location_delete_closes_the_location_and_its_attributes() {
    let mut store = LocationStore::new();
    store.add_location(location("loc-1", None), vec![attribute("a", None)], 1).unwrap();
    store.delete_location("loc-1", None, 2).unwrap();
    let refused = store.fetch_location("loc-1", None).unwrap_err();
    assert_eq!(refused.fault, Fault::NotFound);
    assert_eq!(refused.entity, EntityKind::Location);
    assert_eq!(refused.key, "loc-1");
    assert_eq!(store.list_locations(None).len(), 0);
    let earlier = store.fetch_location_as_of("loc-1", None, 1).unwrap();
    assert_eq!(names(&earlier.attributes), vec!["a"]);
}

#[test]
fn deleting_a_location_that_is_not_there_is_not_found() {
    let mut store = LocationStore::new();
    store.add_location(location("loc-1", Some("A")), vec![], 1).unwrap();
    let refused = store.delete_location("loc-1", None, 2).unwrap_err();
    assert_eq!(refused.fault, Fault::NotFound);
    let refused = store.delete_location("loc-2", Some("A".to_string()), 2).unwrap_err();
    assert_eq!(refused.fault, Fault::NotFound);
    assert_eq!(store.list_locations(Some("A".to_string())).len(), 1);
}

#[test]
fn a_location_with_an_attribute_twice_is_refused_whole() {
    let mut store = LocationStore::new();
    let refused = store
        .add_location(location("loc-1", None), vec![attribute("a", None), attribute("a", None)], 1)
        .unwrap_err();
    assert_eq!(refused.fault, Fault::InvariantViolation);
    assert_eq!(store, LocationStore::new());
}

#[test]
fn locations_are_listed_by_scope_with_their_own_attributes() {
    let mut store = LocationStore::new();
    store.add_location(location("loc-1", Some("A")), vec![attribute("a", None)], 1).unwrap();
    store.add_location(location("loc-2", Some("A")), vec![attribute("b", None)], 1).unwrap();
    store.add_location(location("loc-3", Some("B")), vec![attribute("c", None)], 1).unwrap();
    let listed = store.list_locations(Some("A".to_string()));
    assert_eq!(listed.len(), 2);
    assert_eq!(listed[0].location_id, "loc-1");
    assert_eq!(names(&listed[0].attributes), vec!["a"]);
    assert_eq!(listed[1].location_id, "loc-2");
    assert_eq!(names(&listed[1].attributes), vec!["b"]);
    assert_eq!(store.list_locations(None).len(), 0);
}

#[test]
fn location_conversions() {
    let root: LocationModel = Row {
        key: "loc-1".to_string(),
        service_id: Some("A".to_string()),
        start_commit_num: 3,
        end_commit_num: 8,
        payload: LocationPayload {
            location_namespace: "GS1".to_string(),
            owner: "org-1".to_string(),
        },
    };
    let bare = Location::from_model(LocationModel { ..root_copy(&root) });
    assert_eq!(bare.location_id, "loc-1");
    assert_eq!(bare.attributes.len(), 0);
    assert_eq!(bare.start_commit_num, 3);
    assert_eq!(bare.end_commit_num, 8);

    let full = Location::from((root_copy(&root), vec![attribute("a", None)]));
    assert_eq!(names(&full.attributes), vec!["a"]);
    assert_eq!(full.owner, "org-1");

    let back = full.into_model();
    assert_eq!(back.key, "loc-1");
    assert_eq!(back.start_commit_num, 3);
    assert_eq!(back.end_commit_num, MAX_COMMIT_NUM);
    assert_eq!(back.payload, root.payload);
}

fn root_copy(root: &LocationModel) -> LocationModel {
    Row {
        key: root.key.clone(),
        service_id: root.service_id.clone(),
        start_commit_num: root.start_commit_num,
        end_commit_num: root.end_commit_num,
        payload: LocationPayload {
            location_namespace: root.payload.location_namespace.clone(),
            owner: root.payload.owner.clone(),
        },
    }
}

#[test]
fn an_attribute_that_owns_nothing_is_read_as_a_leaf() {
    let mut store = LocationStore::new();
    store
        .add_location(location("loc-1", None), vec![attribute("empty", Some(vec![]))], 1)
        .unwrap();
    let found = store.fetch_location("loc-1", None).unwrap();
    assert_eq!(names(&found.attributes), vec!["empty"]);
    assert!(found.attributes[0].struct_values.is_none());
}

#[test]
fn attributes_are_stored_under_the_location_they_were_added_with() {
    let mut store = LocationStore::new();
    let mut stray = attribute("a", None);
    stray.location_id = "elsewhere".to_string();
    stray.service_id = Some("B".to_string());
    stray.parent_property_name = Some("nothing".to_string());
    store.add_location(location("loc-1", Some("A")), vec![stray], 2).unwrap();
    let found = store.fetch_location("loc-1", Some("A".to_string())).unwrap();
    assert_eq!(found.attributes.len(), 1);
    assert_eq!(found.attributes[0].location_id, "loc-1");
    assert_eq!(found.attributes[0].service_id, Some("A".to_string()));
    assert_eq!(found.attributes[0].parent_property_name, None);
    assert_eq!(found.attributes[0].start_commit_num, 2);
}

#[test]
fn attributes_of_one_name_share_what_hangs_below_that_name() {
    let mut store = LocationStore::new();
    let tree = vec![
        attribute("site", Some(vec![attribute("gate", Some(vec![attribute("lock", None)]))])),
        attribute("gate", None),
    ];
    store.add_location(location("loc-1", None), tree, 1).unwrap();
    let found = store.fetch_location("loc-1", None).unwrap();
    assert_eq!(names(&found.attributes), vec!["site", "gate"]);
    let inner = &found.attributes[0].struct_values.as_ref().unwrap()[0];
    assert_eq!(names(inner.struct_values.as_ref().unwrap()), vec!["lock"]);
    // The topmost gate is read with the lock too: rows are grouped by the
    // name of their parent alone.
    assert_eq!(names(found.attributes[1].struct_values.as_ref().unwrap()), vec!["lock"]);
}

#[test]
fn a_deep_tree_with_distinct_names_is_read_back_as_it_was() {
    let mut store = LocationStore::new();
    let tree = vec![attribute(
        "a",
        Some(vec![
            attribute("b", Some(vec![attribute("c", Some(vec![attribute("d", None)]))])),
            attribute("e", None),
        ]),
    )];
    store.add_location(location("loc-1", None), tree, 1).unwrap();
    let found = store.fetch_location("loc-1", None).unwrap();
    let a = &found.attributes[0];
    let b = &a.struct_values.as_ref().unwrap()[0];
    let c = &b.struct_values.as_ref().unwrap()[0];
    let d = &c.struct_values.as_ref().unwrap()[0];
    assert_eq!(
        (a.property_name.as_str(), b.property_name.as_str(), c.property_name.as_str(), d.property_name.as_str()),
        ("a", "b", "c", "d")
    );
    assert!(d.struct_values.is_none());
    assert_eq!(names(a.struct_values.as_ref().unwrap()), vec!["b", "e"]);
    assert_eq!(d.parent_property_name, Some("c".to_string()));
    assert_eq!(d.string_value, Some("value of d".to_string()));
}
