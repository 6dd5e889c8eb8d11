use grid_store::entity::Fault;
use grid_store::error::{EntityKind, StoreError};
use grid_store::ledger::MAX_COMMIT_NUM;
use grid_store::payload::Payload;
use grid_store::pike::{Agent, Organization, PikeStore, Role};

fn scope(name: &str) -> Option<String> {
    Some(name.to_string())
}

fn organization(org_id: &str, name: &str, service_id: Option<&str>) -> Organization {
    Organization {
        org_id: org_id.to_string(),
        name: name.to_string(),
        address: "1 Main Street".to_string(),
        metadata: vec![1, 2, 3],
        start_commit_num: 0,
        end_commit_num: 0,
        service_id: service_id.map(|s| s.to_string()),
    }
}

fn agent(public_key: &str, roles: &[&str], service_id: Option<&str>) -> Agent {
    Agent {
        public_key: public_key.to_string(),
        org_id: "org-1".to_string(),
        active: true,
        metadata: vec![9, 8],
        roles: roles.iter().map(|r| r.to_string()).collect(),
        start_commit_num: 0,
        end_commit_num: 0,
        service_id: service_id.map(|s| s.to_string()),
    }
}

fn versioned(mut organization: Organization, start: i64, end: i64) -> Organization {
    organization.start_commit_num = start;
    organization.end_commit_num = end;
    organization
}

#[test]
fn organization_scenario_with_history() {
    let mut store = PikeStore::new();
    store.add_organization(organization("org-1", "Acme", None), 10).unwrap();
    store.update_organization(organization("org-1", "Acme Corp", None), 12).unwrap();

    let current = store.fetch_organization("org-1", None).unwrap();
    assert_eq!(current.name, "Acme Corp");
    assert_eq!(current.start_commit_num, 12);
    assert_eq!(current.end_commit_num, MAX_COMMIT_NUM);

    let earlier = store.fetch_organization_as_of("org-1", None, 11).unwrap();
    assert_eq!(earlier.name, "Acme");
    assert_eq!(earlier.start_commit_num, 10);
    assert_eq!(earlier.end_commit_num, 12);
}

#[test]
fn add_then_fetch_returns_what_was_added() {
    let mut store = PikeStore::new();
    let added = organization("org-1", "Acme", Some("A"));
    store.add_organization(added.clone(), 7).unwrap();
    assert_eq!(
        store.fetch_organization("org-1", Some("A")),
        Ok(versioned(added, 7, MAX_COMMIT_NUM))
    );
}

#[test]
fn add_ignores_the_commit_numbers_that_the_entity_carries() {
    let mut store = PikeStore::new();
    let added = versioned(organization("org-1", "Acme", None), 99, 100);
    store.add_organization(added.clone(), 7).unwrap();
    let found = store.fetch_organization("org-1", None).unwrap();
    assert_eq!(found.start_commit_num, 7);
    assert_eq!(found.end_commit_num, MAX_COMMIT_NUM);
}

#[test]
fn update_preserves_history() {
    let mut store = PikeStore::new();
    let first = organization("org-1", "Acme", None);
    let second = organization("org-1", "Acme Corp", None);
    store.add_organization(first.clone(), 1).unwrap();
    store.update_organization(second.clone(), 2).unwrap();
    assert_eq!(store.fetch_organization_as_of("org-1", None, 1), Ok(versioned(first, 1, 2)));
    assert_eq!(
        store.fetch_organization("org-1", None),
        Ok(versioned(second, 2, MAX_COMMIT_NUM))
    );
}

#[test]
fn delete_then_fetch_is_not_found_and_history_remains() {
    let mut store = PikeStore::new();
    let added = organization("org-1", "Acme", None);
    store.add_organization(added.clone(), 4).unwrap();
    store.delete_organization("org-1", None, 6).unwrap();
    assert_eq!(
        store.fetch_organization("org-1", None),
        Err(StoreError {
            fault: Fault::NotFound,
            entity: EntityKind::Organization,
            key: "org-1".to_string()
        })
    );
    assert_eq!(store.fetch_organization_as_of("org-1", None, 5), Ok(versioned(added, 4, 6)));
    assert!(store.fetch_organization_as_of("org-1", None, 6).is_err());
    assert!(store.fetch_organization_as_of("org-1", None, 3).is_err());
    assert_eq!(store.list_organizations(None), vec![]);
}

#[test]
fn an_organization_can_be_added_again_after_it_was_deleted() {
    let mut store = PikeStore::new();
    store.add_organization(organization("org-1", "Acme", None), 1).unwrap();
    store.delete_organization("org-1", None, 2).unwrap();
    store.add_organization(organization("org-1", "Acme Again", None), 3).unwrap();
    assert_eq!(store.fetch_organization("org-1", None).unwrap().name, "Acme Again");
    assert_eq!(store.fetch_organization_as_of("org-1", None, 1).unwrap().name, "Acme");
    assert!(store.fetch_organization_as_of("org-1", None, 2).is_err());
}

#[test]
fn tenants_are_isolated() {
    let mut store = PikeStore::new();
    store.add_organization(organization("org-1", "Acme", Some("A")), 1).unwrap();
    assert_eq!(store.list_organizations(Some("B")), vec![]);
    assert_eq!(store.list_organizations(None), vec![]);
    assert_eq!(store.list_organizations(Some("A")).len(), 1);
    assert!(store.fetch_organization("org-1", Some("B")).unwrap_err().is_not_found());
    assert!(store.fetch_organization("org-1", None).unwrap_err().is_not_found());
}

#[test]
fn the_same_key_lives_apart_in_each_scope() {
    let mut store = PikeStore::new();
    store.add_organization(organization("org-1", "Shared", None), 1).unwrap();
    store.add_organization(organization("org-1", "Of A", Some("A")), 1).unwrap();
    store.add_organization(organization("org-1", "Of B", Some("B")), 2).unwrap();
    assert_eq!(store.fetch_organization("org-1", None).unwrap().name, "Shared");
    assert_eq!(store.fetch_organization("org-1", Some("A")).unwrap().name, "Of A");
    assert_eq!(store.fetch_organization("org-1", Some("B")).unwrap().name, "Of B");
    store.delete_organization("org-1", Some("A"), 3).unwrap();
    assert_eq!(store.fetch_organization("org-1", None).unwrap().name, "Shared");
    assert_eq!(store.fetch_organization("org-1", Some("B")).unwrap().name, "Of B");
}

#[test]
fn adding_what_is_current_is_an_invariant_violation() {
    let mut store = PikeStore::new();
    store.add_organization(organization("org-1", "Acme", None), 1).unwrap();
    let before = store.list_organizations(None);
    assert_eq!(
        store.add_organization(organization("org-1", "Other", None), 2),
        Err(StoreError {
            fault: Fault::InvariantViolation,
            entity: EntityKind::Organization,
            key: "org-1".to_string()
        })
    );
    assert_eq!(store.list_organizations(None), before);
}

#[test]
fn updating_or_deleting_what_is_not_there_is_not_found() {
    let mut store = PikeStore::new();
    assert_eq!(
        store.update_organization(organization("org-1", "Acme", None), 2),
        Err(StoreError {
            fault: Fault::NotFound,
            entity: EntityKind::Organization,
            key: "org-1".to_string()
        })
    );
    assert_eq!(
        store.delete_organization("org-1", None, 2),
        Err(StoreError {
            fault: Fault::NotFound,
            entity: EntityKind::Organization,
            key: "org-1".to_string()
        })
    );
    assert_eq!(
        store.delete_agent("key-1", Some("A"), 2),
        Err(StoreError {
            fault: Fault::NotFound,
            entity: EntityKind::Agent,
            key: "key-1".to_string()
        })
    );
    assert_eq!(store, PikeStore::new());
}

#[test]
fn updating_at_the_commit_of_the_current_version_is_an_invariant_violation() {
    let mut store = PikeStore::new();
    store.add_organization(organization("org-1", "Acme", None), 5).unwrap();
    let refused = store.update_organization(organization("org-1", "Later", None), 5).unwrap_err();
    assert_eq!(refused.fault, Fault::InvariantViolation);
    let refused = store.delete_organization("org-1", None, 4).unwrap_err();
    assert_eq!(refused.fault, Fault::InvariantViolation);
    assert_eq!(store.fetch_organization("org-1", None).unwrap().name, "Acme");
}

#[test]
fn add_organizations_adds_all_or_none() {
    let mut store = PikeStore::new();
    store.add_organization(organization("org-2", "Taken", None), 1).unwrap();
    let before = store.duplicate();
    let refused = store
        .add_organizations(
            vec![organization("org-1", "One", None), organization("org-2", "Two", None)],
            2,
        )
        .unwrap_err();
    assert_eq!(refused.key, "org-2");
    assert_eq!(refused.fault, Fault::InvariantViolation);
    assert_eq!(store, before);

    store
        .add_organizations(
            vec![organization("org-1", "One", None), organization("org-3", "Three", None)],
            2,
        )
        .unwrap();
    let names: Vec<String> = store.list_organizations(None).into_iter().map(|o| o.name).collect();
    assert_eq!(names, vec!["Taken", "One", "Three"]);
}

#[test]
fn add_organizations_refuses_a_key_that_occurs_twice() {
    let mut store = PikeStore::new();
    let refused = store
        .add_organizations(
            vec![organization("org-1", "One", None), organization("org-1", "Again", None)],
            2,
        )
        .unwrap_err();
    assert_eq!(refused.key, "org-1");
    assert_eq!(store, PikeStore::new());
}

#[test]
fn agent_round_trip_with_roles() {
    let mut store = PikeStore::new();
    let added = agent("key-1", &["admin", "inspector"], Some("A"));
    store.add_agent(added.clone(), 3).unwrap();
    let mut expected = added;
    expected.start_commit_num = 3;
    expected.end_commit_num = MAX_COMMIT_NUM;
    assert_eq!(store.fetch_agent("key-1", Some("A")), Ok(expected.clone()));
    assert_eq!(store.list_agents(Some("A")), vec![expected]);
    assert_eq!(store.list_agents(None), vec![]);
}

#[test]
fn agent_roles_are_versioned_with_the_agent() {
    let mut store = PikeStore::new();
    store.add_agent(agent("key-1", &["admin", "inspector"], None), 1).unwrap();
    store.update_agent(agent("key-1", &["inspector", "auditor"], None), 4).unwrap();

    assert_eq!(store.fetch_agent("key-1", None).unwrap().roles, vec!["inspector", "auditor"]);
    let earlier = store.fetch_agent_as_of("key-1", None, 2).unwrap();
    assert_eq!(earlier.roles, vec!["admin", "inspector"]);
    assert_eq!(earlier.start_commit_num, 1);
    assert_eq!(earlier.end_commit_num, 4);

    assert_eq!(
        store.list_roles("key-1", None).unwrap(),
        vec![
            Role {
                public_key: "key-1".to_string(),
                role_name: "inspector".to_string(),
                start_commit_num: 4,
                end_commit_num: MAX_COMMIT_NUM,
                service_id: None,
            },
            Role {
                public_key: "key-1".to_string(),
                role_name: "auditor".to_string(),
                start_commit_num: 4,
                end_commit_num: MAX_COMMIT_NUM,
                service_id: None,
            },
        ]
    );
}

#[test]
fn an_agent_with_a_role_twice_is_refused_whole() {
    let mut store = PikeStore::new();
    let refused = store.add_agent(agent("key-1", &["admin", "admin"], None), 1).unwrap_err();
    assert_eq!(refused.fault, Fault::InvariantViolation);
    assert_eq!(refused.entity, EntityKind::Agent);
    assert_eq!(store, PikeStore::new());
}

#[test]
fn deleting_an_agent_closes_its_roles() {
    let mut store = PikeStore::new();
    store.add_agent(agent("key-1", &["admin"], Some("A")), 1).unwrap();
    store.delete_agent("key-1", Some("A"), 2).unwrap();
    assert!(store.fetch_agent("key-1", Some("A")).unwrap_err().is_not_found());
    assert!(store.list_roles("key-1", Some("A")).unwrap_err().is_not_found());
    assert_eq!(store.fetch_agent_as_of("key-1", Some("A"), 1).unwrap().roles, vec!["admin"]);
    // The agent can come back with other roles.
    store.add_agent(agent("key-1", &["admin", "auditor"], Some("A")), 3).unwrap();
    assert_eq!(store.fetch_agent("key-1", Some("A")).unwrap().roles, vec!["admin", "auditor"]);
}

#[test]
fn a_store_has_at_most_one_current_version_of_each_organization() {
    let mut store = PikeStore::new();
    store.add_organization(organization("org-1", "One", None), 1).unwrap();
    let _ = store.add_organization(organization("org-1", "Two", None), 2);
    store.update_organization(organization("org-1", "Three", None), 3).unwrap();
    let _ = store.update_organization(organization("org-1", "Four", None), 3);
    store.delete_organization("org-1", None, 5).unwrap();
    store.add_organization(organization("org-1", "Five", None), 5).unwrap();
    assert_eq!(store.list_organizations(None).len(), 1);
    // At every commit at most one version is valid, and their intervals meet.
    let mut ends = Vec::new();
    for commit in 0..8 {
        if let Ok(found) = store.fetch_organization_as_of("org-1", None, commit) {
            assert!(found.start_commit_num <= commit && commit < found.end_commit_num);
            ends.push((found.name, found.start_commit_num, found.end_commit_num));
        }
    }
    ends.dedup();
    assert_eq!(
        ends,
        vec![
            ("One".to_string(), 1, 3),
            ("Three".to_string(), 3, 5),
            ("Five".to_string(), 5, MAX_COMMIT_NUM)
        ]
    );
}

#[test]
fn rollback_of_the_store_undoes_later_writes() {
    let mut long = PikeStore::new();
    let mut short = PikeStore::new();
    for store in [&mut long, &mut short] {
        store.add_organization(organization("org-1", "Acme", None), 1).unwrap();
        store.add_agent(agent("key-1", &["admin"], Some("A")), 2).unwrap();
        store.update_organization(organization("org-1", "Acme Corp", None), 3).unwrap();
    }
    long.update_agent(agent("key-1", &["auditor"], Some("A")), 4).unwrap();
    long.delete_organization("org-1", None, 4).unwrap();
    long.add_organization(organization("org-2", "Other", None), 5).unwrap();
    long.rollback_to(3);
    assert_eq!(long, short);
    assert_eq!(scope("A"), long.fetch_agent("key-1", Some("A")).unwrap().service_id);
}
