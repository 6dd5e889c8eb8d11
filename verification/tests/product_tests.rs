use grid_store::entity::Fault;
use grid_store::error::EntityKind;
use grid_store::ledger::MAX_COMMIT_NUM;
use grid_store::product::{
    make_property_value_models, LatLongValue, Paging, Product, ProductList, ProductStore,
    PropertyValue,
};

fn property(name: &str, children: Vec<PropertyValue>) -> PropertyValue {
    PropertyValue {
        product_id: "prod-1".to_string(),
        product_address: "621dee02".to_string(),
        property_name: name.to_string(),
        data_type: "Struct".to_string(),
        bytes_value: None,
        boolean_value: None,
        number_value: Some(12),
        string_value: None,
        enum_value: None,
        struct_values: children,
        lat_long_value: Some(LatLongValue { latitude: 1, longitude: -1 }),
        start_commit_num: 0,
        end_commit_num: 0,
        service_id: None,
    }
}

fn product(id: &str, service_id: Option<&str>, properties: Vec<PropertyValue>) -> Product {
    Product {
        product_id: id.to_string(),
        product_address: "621dee02".to_string(),
        product_namespace: "GS1".to_string(),
        owner: "org-1".to_string(),
        start_commit_num: 0,
        end_commit_num: 0,
        service_id: service_id.map(|s| s.to_string()),
        properties,
    }
}

fn names(properties: &[PropertyValue]) -> Vec<String> {
    properties.iter().map(|p| p.property_name.clone()).collect()
}

fn ids(products: &[Product]) -> Vec<String> {
    products.iter().map(|p| p.product_id.clone()).collect()
}

#[test]
fn product_list_holds_its_data_and_paging() {
    let list = ProductList::new(vec![product("prod-1", None, vec![])], Paging::new(1, 2, 3));
    assert_eq!(ids(&list.data), vec!["prod-1"]);
    assert_eq!(list.paging, Paging { offset: 1, limit: 2, total: 3 });
}

#[test]
fn property_models_are_flattened_parent_first() {
    let tree = vec![
        property("dimensions", vec![property("width", vec![]), property("height", vec![])]),
        property("color", vec![]),
    ];
    let models = make_property_value_models(&tree, None);
    let flat: Vec<(String, Option<String>)> =
        models.iter().map(|m| (m.key.name.clone(), m.key.parent.clone())).collect();
    assert_eq!(
        flat,
        vec![
            ("dimensions".to_string(), None),
            ("width".to_string(), Some("dimensions".to_string())),
            ("height".to_string(), Some("dimensions".to_string())),
            ("color".to_string(), None),
        ]
    );
    assert_eq!(models[0].payload.latitude_value, Some(1));
    assert_eq!(models[0].payload.longitude_value, Some(-1));
    assert_eq!(models[0].payload.number_value, Some(12));
}

#[test]
fn product_round_trip_with_a_property_tree() {
    let mut store = ProductStore::new();
    let tree = vec![
        property("dimensions", vec![property("width", vec![]), property("height", vec![])]),
        property("color", vec![]),
    ];
    store.add_product(product("prod-1", Some("A"), tree), 6).unwrap();
    let found = store.get_product("prod-1", Some("A")).unwrap();
    assert_eq!(found.product_id, "prod-1");
    assert_eq!(found.product_address, "621dee02");
    assert_eq!(found.product_namespace, "GS1");
    assert_eq!(found.owner, "org-1");
    assert_eq!(found.start_commit_num, 6);
    assert_eq!(found.end_commit_num, MAX_COMMIT_NUM);
    assert_eq!(names(&found.properties), vec!["dimensions", "color"]);
    assert_eq!(names(&found.properties[0].struct_values), vec!["width", "height"]);
    assert_eq!(found.properties[1].struct_values.len(), 0);
    let width = &found.properties[0].struct_values[0];
    assert_eq!(width.lat_long_value, Some(LatLongValue { latitude: 1, longitude: -1 }));
    assert_eq!(width.service_id, Some("A".to_string()));
    assert_eq!(width.start_commit_num, 6);
}

#[test]
fn product_update_and_delete_keep_history() {
    let mut store = ProductStore::new();
    store.add_product(product("prod-1", None, vec![property("a", vec![])]), 1).unwrap();
    store.update_product(product("prod-1", None, vec![property("b", vec![])]), 2).unwrap();
    store.delete_product("prod-1", None, 5).unwrap();
    let refused = store.get_product("prod-1", None).unwrap_err();
    assert_eq!(refused.fault, Fault::NotFound);
    assert_eq!(refused.entity, EntityKind::Product);
    assert_eq!(names(&store.get_product_as_of("prod-1", None, 1).unwrap().properties), vec!["a"]);
    let second = store.get_product_as_of("prod-1", None, 4).unwrap();
    assert_eq!(names(&second.properties), vec!["b"]);
    assert_eq!(second.start_commit_num, 2);
    assert_eq!(second.end_commit_num, 5);
    assert!(store.get_product_as_of("prod-1", None, 5).is_err());
}

#[test]
fn products_are_paged() {
    let mut store = ProductStore::new();
    for (i, id) in ["apple", "birch", "cedar", "dove", "elm"].iter().enumerate() {
        store.add_product(product(id, Some("A"), vec![]), 1 + i as i64).unwrap();
    }
    store.add_product(product("other", Some("B"), vec![]), 9).unwrap();

    let page = store.list_products(Some("A"), 1, 2);
    assert_eq!(ids(&page.data), vec!["birch", "cedar"]);
    assert_eq!(page.paging, Paging { offset: 1, limit: 2, total: 5 });

    let page = store.list_products(Some("A"), 3, 10);
    assert_eq!(ids(&page.data), vec!["dove", "elm"]);
    assert_eq!(page.paging, Paging { offset: 3, limit: 10, total: 5 });

    assert_eq!(ids(&store.list_products(Some("A"), 0, 5).data), vec!["apple", "birch", "cedar", "dove", "elm"]);
    assert_eq!(ids(&store.list_products(Some("A"), 5, 5).data), Vec::<String>::new());
    assert_eq!(ids(&store.list_products(Some("A"), 7, 5).data), Vec::<String>::new());
    assert_eq!(ids(&store.list_products(Some("A"), 0, 0).data), Vec::<String>::new());
    assert_eq!(ids(&store.list_products(Some("A"), -3, 2).data), vec!["apple", "birch"]);
    assert_eq!(ids(&store.list_products(Some("A"), 2, -1).data), Vec::<String>::new());
    assert_eq!(ids(&store.list_products(Some("A"), 4, i64::MAX).data), vec!["elm"]);
    assert_eq!(store.list_products(Some("B"), 0, 10).paging.total, 1);
    assert_eq!(store.list_products(None, 0, 10).paging.total, 0);
    assert_eq!(ids(&store.all_products(Some("B"))), vec!["other"]);
}

#[test]
fn properties_are_stored_under_the_product_they_were_added_with() {
    let mut store = ProductStore::new();
    let mut stray = property("a", vec![property("b", vec![])]);
    stray.product_id = "elsewhere".to_string();
    stray.service_id = Some("B".to_string());
    store.add_product(product("prod-1", Some("A"), vec![stray]), 2).unwrap();
    let found = store.get_product("prod-1", Some("A")).unwrap();
    assert_eq!(found.properties[0].product_id, "prod-1");
    assert_eq!(found.properties[0].service_id, Some("A".to_string()));
    assert_eq!(found.properties[0].struct_values[0].product_id, "prod-1");
    assert_eq!(found.properties[0].struct_values[0].start_commit_num, 2);
    assert_eq!(found.properties[0].struct_values[0].end_commit_num, MAX_COMMIT_NUM);
}

#[test]
fn a_product_with_a_property_twice_is_refused_whole() {
    let mut store = ProductStore::new();
    let refused = store
        .add_product(product("prod-1", None, vec![property("a", vec![]), property("a", vec![])]), 1)
        .unwrap_err();
    assert_eq!(refused.fault, Fault::InvariantViolation);
    assert_eq!(refused.key, "prod-1");
    assert_eq!(store, ProductStore::new());
    let refused = store.update_product(product("prod-1", None, vec![]), 1).unwrap_err();
    assert_eq!(refused.fault, Fault::NotFound);
}
