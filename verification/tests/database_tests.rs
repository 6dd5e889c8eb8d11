use grid_store::database::{clear_database, BatchError, Database, Delta};
use grid_store::entity::Fault;
use grid_store::error::EntityKind;
use grid_store::ledger::{VersionError, MAX_COMMIT_NUM};
use grid_store::location::{Location, LocationAttribute};
use grid_store::pike::{Agent, Organization};
use grid_store::product::{Product, PropertyValue};
use grid_store::schema::{GridPropertyDefinition, GridSchema};

fn organization(org_id: &str, name: &str, service_id: Option<&str>) -> Organization {
    Organization {
        org_id: org_id.to_string(),
        name: name.to_string(),
        address: "1 Main Street".to_string(),
        metadata: vec![],
        start_commit_num: 0,
        end_commit_num: 0,
        service_id: service_id.map(|s| s.to_string()),
    }
}

fn agent(public_key: &str, roles: &[&str]) -> Agent {
    Agent {
        public_key: public_key.to_string(),
        org_id: "org-1".to_string(),
        active: true,
        metadata: vec![1],
        roles: roles.iter().map(|r| r.to_string()).collect(),
        start_commit_num: 0,
        end_commit_num: 0,
        service_id: None,
    }
}

fn attribute(name: &str) -> LocationAttribute {
    LocationAttribute {
        location_id: "loc-1".to_string(),
        location_address: "621dee".to_string(),
        property_name: name.to_string(),
        parent_property_name: None,
        data_type: "Number".to_string(),
        bytes_value: None,
        boolean_value: None,
        number_value: Some(1),
        string_value: None,
        enum_value: None,
        struct_values: None,
        lat_long_value: None,
        start_commit_num: 0,
        end_commit_num: 0,
        service_id: None,
    }
}

fn location(id: &str) -> Location {
    Location {
        location_id: id.to_string(),
        location_namespace: "GS1".to_string(),
        owner: "org-1".to_string(),
        attributes: vec![],
        start_commit_num: 0,
        end_commit_num: 0,
        service_id: None,
    }
}

fn product(id: &str) -> Product {
    Product {
        product_id: id.to_string(),
        product_address: "621dee02".to_string(),
        product_namespace: "GS1".to_string(),
        owner: "org-1".to_string(),
        start_commit_num: 0,
        end_commit_num: 0,
        service_id: None,
        properties: vec![PropertyValue {
            product_id: id.to_string(),
            product_address: "621dee02".to_string(),
            property_name: "weight".to_string(),
            data_type: "Number".to_string(),
            bytes_value: None,
            boolean_value: None,
            number_value: Some(3),
            string_value: None,
            enum_value: None,
            struct_values: vec![],
            lat_long_value: None,
            start_commit_num: 0,
            end_commit_num: 0,
            service_id: None,
        }],
    }
}

fn schema(name: &str) -> GridSchema {
    GridSchema {
        name: name.to_string(),
        description: "a schema".to_string(),
        owner: "org-1".to_string(),
        start_commit_num: 0,
        end_commit_num: 0,
        service_id: None,
    }
}

fn definition(name: &str, schema_name: &str) -> GridPropertyDefinition {
    GridPropertyDefinition {
        name: name.to_string(),
        schema_name: schema_name.to_string(),
        data_type: "String".to_string(),
        required: false,
        description: "a property".to_string(),
        number_exponent: 0,
        enum_options: vec![],
        struct_properties: vec![],
        start_commit_num: 0,
        end_commit_num: 0,
        service_id: None,
    }
}

/// The batches of commits 1 to 5, each on the one before it.
fn batch(commit: i64) -> Vec<Delta> {
    match commit {
        1 => vec![
            Delta::AddOrganization(organization("org-1", "Acme", None)),
            Delta::AddAgent(agent("key-1", &["admin"])),
        ],
        2 => vec![
            Delta::AddLocation { location: location("loc-1"), attributes: vec![attribute("a")] },
            Delta::AddSchema { schema: schema("widget"), definitions: vec![definition("color", "widget")] },
        ],
        3 => vec![
            Delta::UpdateOrganization(organization("org-1", "Acme Corp", None)),
            Delta::AddProduct(product("prod-1")),
        ],
        4 => vec![
            Delta::UpdateAgent(agent("key-1", &["auditor"])),
            Delta::DeleteOrganization { org_id: "org-1".to_string(), service_id: None },
            Delta::UpdateLocation { location: location("loc-1"), attributes: vec![attribute("b")] },
            Delta::DeleteSchema { name: "widget".to_string(), service_id: None },
            Delta::UpdateProduct(product("prod-1")),
        ],
        5 => vec![
            Delta::AddOrganization(organization("org-2", "Other", Some("A"))),
            Delta::DeleteLocation { location_id: "loc-1".to_string(), service_id: None },
            Delta::DeleteAgent { public_key: "key-1".to_string(), service_id: None },
            Delta::DeleteProduct { product_id: "prod-1".to_string(), service_id: None },
        ],
        _ => vec![],
    }
}

fn applied(upto: i64) -> Database {
    let mut database = Database::new();
    for commit in 1..=upto {
        database.apply_batch(commit, commit - 1, &batch(commit)).unwrap();
    }
    database
}

#[test]
fn a_new_database_is_empty() {
    let database = Database::new();
    assert_eq!(database.current_height(), 0);
    assert_eq!(database.pike().list_organizations(None), vec![]);
    assert_eq!(database.pike().list_agents(None), vec![]);
    assert_eq!(database.locations().list_locations(None).len(), 0);
    assert_eq!(database.products().all_products(None).len(), 0);
    assert_eq!(database.schemas().list_grid_schemas(None), vec![]);
    assert_eq!(database.ledger().current_height(), 0);
}

#[test]
fn a_batch_makes_its_changes_at_its_commit_and_records_it() {
    let mut database = Database::new();
    database.apply_batch(10, 0, &vec![Delta::AddOrganization(organization("org-1", "Acme", None))]).unwrap();
    database
        .apply_batch(12, 10, &vec![Delta::UpdateOrganization(organization("org-1", "Acme Corp", None))])
        .unwrap();
    assert_eq!(database.current_height(), 12);
    let current = database.pike().fetch_organization("org-1", None).unwrap();
    assert_eq!(
        (current.name.as_str(), current.start_commit_num, current.end_commit_num),
        ("Acme Corp", 12, MAX_COMMIT_NUM)
    );
    let earlier = database.pike().fetch_organization_as_of("org-1", None, 11).unwrap();
    assert_eq!(
        (earlier.name.as_str(), earlier.start_commit_num, earlier.end_commit_num),
        ("Acme", 10, 12)
    );
}

#[test]
fn a_batch_on_another_predecessor_is_a_fork() {
    let mut database = applied(3);
    let before = applied(3);
    let refused = database.apply_batch(4, 2, &batch(4)).unwrap_err();
    assert!(matches!(
        refused,
        BatchError::Version(VersionError::ForkDetected { head: 3, predecessor: 2 })
    ));
    assert_eq!(database, before);
}

#[test]
fn a_batch_with_a_commit_out_of_order_is_refused() {
    let mut database = applied(3);
    let refused = database.apply_batch(3, 3, &vec![]).unwrap_err();
    assert!(matches!(
        refused,
        BatchError::Version(VersionError::OutOfOrder { commit: 3, predecessor: 3 })
    ));
    assert_eq!(database, applied(3));
}

#[test]
fn a_batch_with_a_change_that_is_refused_changes_nothing() {
    let mut database = applied(2);
    let deltas = vec![
        Delta::AddOrganization(organization("org-9", "Nine", None)),
        Delta::UpdateAgent(agent("key-1", &["auditor"])),
        Delta::DeleteProduct { product_id: "missing".to_string(), service_id: None },
        Delta::AddOrganization(organization("org-10", "Ten", None)),
    ];
    match database.apply_batch(3, 2, &deltas).unwrap_err() {
        BatchError::Store(error) => {
            assert_eq!(error.fault, Fault::NotFound);
            assert_eq!(error.entity, EntityKind::Product);
            assert_eq!(error.key, "missing");
        }
        other => panic!("unexpected error: {:?}", other),
    }
    assert_eq!(database, applied(2));
    assert_eq!(database.current_height(), 2);
    // The commit can still be applied with other changes.
    database.apply_batch(3, 2, &batch(3)).unwrap();
    assert_eq!(database, applied(3));
}

#[test]
fn an_empty_batch_only_records_its_commit() {
    let mut database = applied(2);
    database.apply_batch(7, 2, &vec![]).unwrap();
    assert_eq!(database.current_height(), 7);
    assert_eq!(database.pike(), applied(2).pike());
    assert_ne!(database, applied(2));
}

#[test]
fn rollback_after_five_commits_equals_three_commits() {
    let mut database = applied(5);
    assert_eq!(database.current_height(), 5);
    assert_eq!(database.rollback_to(3), Ok(()));
    assert_eq!(database, applied(3));
    assert_eq!(database.current_height(), 3);
    assert_eq!(database.pike().fetch_organization("org-1", None).unwrap().name, "Acme Corp");
    assert_eq!(database.pike().fetch_agent("key-1", None).unwrap().roles, vec!["admin"]);
    assert_eq!(database.products().get_product("prod-1", None).unwrap().start_commit_num, 3);
    assert_eq!(database.pike().list_organizations(Some("A")), vec![]);
}

#[test]
fn rollback_to_every_earlier_commit_equals_the_replay_up_to_it() {
    for target in 0..=5 {
        let mut database = applied(5);
        assert_eq!(database.rollback_to(target), Ok(()));
        assert_eq!(database, applied(target), "rollback to {}", target);
    }
}

#[test]
fn rollback_to_an_unknown_commit_changes_nothing() {
    let mut database = applied(3);
    assert_eq!(database.rollback_to(4), Err(VersionError::UnknownCommit { commit: 4 }));
    assert_eq!(database.rollback_to(-1), Err(VersionError::UnknownCommit { commit: -1 }));
    assert_eq!(database, applied(3));
}

#[test]
fn after_a_fork_the_other_branch_can_be_applied() {
    let mut database = applied(5);
    let other_branch = vec![Delta::AddOrganization(organization("org-7", "Seven", None))];
    assert!(matches!(
        database.apply_batch(6, 3, &other_branch),
        Err(BatchError::Version(VersionError::ForkDetected { .. }))
    ));
    database.rollback_to(3).unwrap();
    database.apply_batch(6, 3, &other_branch).unwrap();

    let mut expected = applied(3);
    expected.apply_batch(6, 3, &other_branch).unwrap();
    assert_eq!(database, expected);
    assert_eq!(database.current_height(), 6);
}

#[test]
fn reads_after_all_five_commits() {
    let database = applied(5);
    assert!(database.pike().fetch_organization("org-1", None).unwrap_err().is_not_found());
    assert!(database.pike().fetch_agent("key-1", None).unwrap_err().is_not_found());
    assert!(database.locations().fetch_location("loc-1", None).unwrap_err().is_not_found());
    assert!(database.products().get_product("prod-1", None).unwrap_err().is_not_found());
    assert!(database.schemas().fetch_grid_schema("widget", None).unwrap_err().is_not_found());
    assert_eq!(database.pike().list_organizations(Some("A")).len(), 1);
    assert_eq!(database.pike().fetch_agent_as_of("key-1", None, 4).unwrap().roles, vec!["auditor"]);
    let at_four = database.locations().fetch_location_as_of("loc-1", None, 4).unwrap();
    assert_eq!(at_four.attributes[0].property_name, "b");
    assert_eq!(at_four.end_commit_num, 5);
}

#[test]
fn a_version_cannot_start_and_end_at_one_commit() {
    let mut database = applied(2);
    let deltas = vec![
        Delta::AddProduct(product("prod-1")),
        Delta::DeleteProduct { product_id: "prod-1".to_string(), service_id: None },
    ];
    match database.apply_batch(3, 2, &deltas).unwrap_err() {
        BatchError::Store(error) => {
            assert_eq!(error.fault, Fault::InvariantViolation);
            assert_eq!(error.entity, EntityKind::Product);
        }
        other => panic!("unexpected error: {:?}", other),
    }
    assert_eq!(database, applied(2));
}

#[test]
fn clear_database_removes_everything() {
    let mut database = applied(5);
    clear_database(&mut database);
    assert_eq!(database, Database::new());
    assert_eq!(database.current_height(), 0);
    database.apply_batch(1, 0, &batch(1)).unwrap();
    assert_eq!(database, applied(1));
}
