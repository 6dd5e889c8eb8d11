use grid_store::database::{Database, Delta};
use grid_store::pike::{Agent, Organization};
use grid_store::protocol::{
    format_unreadable, format_unsupported, ProtocolCheck, ProtocolHeader, ProtocolRejection,
    ProtocolVersionRangeGuard, BATCHES_MAX_VERSION, BATCHES_MIN_VERSION,
};
use grid_store::routes::{
    accept, fetch_agent, fetch_grid_schema, fetch_location, fetch_organization, fetch_product,
    group_schemas, list_agents, list_grid_schemas, list_locations, list_organizations,
    list_products, AgentDocument, AgentSlice, ErrorKind, GridPropertyDefinitionSlice,
    GridSchemaSlice, RestApiResponseError,
};
use grid_store::schema::{GridPropertyDefinition, GridSchema};
use grid_store::tenant::{
    AcceptServiceIdParam, Backend, Endpoint, QueryServiceId, TenantModeMismatch,
};

fn sawtooth() -> Endpoint {
    Endpoint { backend: Backend::Sawtooth, url: "tcp://localhost:4004".to_string() }
}

fn splinter() -> Endpoint {
    Endpoint { backend: Backend::Splinter, url: "http://localhost:8085".to_string() }
}

fn query(service_id: Option<&str>) -> QueryServiceId {
    QueryServiceId { service_id: service_id.map(|s| s.to_string()) }
}

fn schema(name: &str, service_id: Option<&str>) -> GridSchema {
    GridSchema {
        name: name.to_string(),
        description: format!("{} schema", name),
        owner: "org-1".to_string(),
        start_commit_num: 3,
        end_commit_num: 9,
        service_id: service_id.map(|s| s.to_string()),
    }
}

fn definition(name: &str, schema_name: &str, service_id: Option<&str>) -> GridPropertyDefinition {
    GridPropertyDefinition {
        name: name.to_string(),
        schema_name: schema_name.to_string(),
        data_type: "Enum".to_string(),
        required: true,
        description: "a property".to_string(),
        number_exponent: -2,
        enum_options: vec!["red".to_string()],
        struct_properties: vec!["x".to_string(), "y".to_string()],
        start_commit_num: 3,
        end_commit_num: 9,
        service_id: service_id.map(|s| s.to_string()),
    }
}

fn definition_slice(name: &str, schema_name: &str, service_id: Option<&str>) -> GridPropertyDefinitionSlice {
    GridPropertyDefinitionSlice {
        name: name.to_string(),
        schema_name: schema_name.to_string(),
        data_type: "Enum".to_string(),
        required: true,
        description: "a property".to_string(),
        number_exponent: -2,
        enum_options: vec!["red".to_string()],
        struct_properties: vec!["x".to_string(), "y".to_string()],
        service_id: service_id.map(|s| s.to_string()),
    }
}

fn agent(public_key: &str, service_id: Option<&str>) -> Agent {
    Agent {
        public_key: public_key.to_string(),
        org_id: "org-1".to_string(),
        active: true,
        metadata: b"{\"a\":1}".to_vec(),
        roles: vec!["admin".to_string()],
        start_commit_num: 0,
        end_commit_num: 0,
        service_id: service_id.map(|s| s.to_string()),
    }
}

fn organization(org_id: &str, service_id: Option<&str>) -> Organization {
    Organization {
        org_id: org_id.to_string(),
        name: "Acme".to_string(),
        address: "1 Main Street".to_string(),
        metadata: vec![],
        start_commit_num: 0,
        end_commit_num: 0,
        service_id: service_id.map(|s| s.to_string()),
    }
}

fn database() -> Database {
    let mut database = Database::new();
    database
        .apply_batch(
            1,
            0,
            &vec![
                Delta::AddAgent(agent("key-1", Some("A"))),
                Delta::AddAgent(agent("key-2", None)),
                Delta::AddOrganization(organization("org-1", Some("A"))),
                Delta::AddSchema {
                    schema: schema("widget", Some("A")),
                    definitions: vec![
                        definition("color", "widget", Some("A")),
                        definition("size", "widget", Some("A")),
                    ],
                },
                Delta::AddSchema {
                    schema: schema("gadget", Some("A")),
                    definitions: vec![definition("weight", "gadget", Some("A"))],
                },
                Delta::AddSchema { schema: schema("shared", None), definitions: vec![] },
            ],
        )
        .unwrap();
    database
}

#[test]
fn guard_keeps_its_range() {
    let guard = ProtocolVersionRangeGuard::new(2, 7);
    assert_eq!(guard.min(), 2);
    assert_eq!(guard.max(), 7);
}

#[test]
fn guard_for_a_path() {
    let batches = ProtocolVersionRangeGuard::for_path("/batches");
    assert_eq!((batches.min(), batches.max()), (BATCHES_MIN_VERSION, BATCHES_MAX_VERSION));
    assert_eq!((batches.min(), batches.max()), (1, 1));
    for path in ["/agent", "/batches/", "/batch_statuses", "", "batches"] {
        let any = ProtocolVersionRangeGuard::for_path(path);
        assert_eq!((any.min(), any.max()), (0, u32::MAX));
    }
}

#[test]
fn a_request_without_the_header_goes_on() {
    let guard = ProtocolVersionRangeGuard::new(2, 3);
    assert_eq!(guard.evaluate(&ProtocolHeader::Missing), ProtocolCheck::Continue);
}

#[test]
fn a_version_in_the_range_goes_on() {
    let guard = ProtocolVersionRangeGuard::new(2, 4);
    for text in ["2", "3", "4", "+3", "003"] {
        assert_eq!(
            guard.evaluate(&ProtocolHeader::Text(text.to_string())),
            ProtocolCheck::Continue,
            "{}",
            text
        );
    }
}

#[test]
fn a_version_below_the_range_is_rejected_with_the_minimum() {
    let guard = ProtocolVersionRangeGuard::new(12, 40);
    assert_eq!(
        guard.evaluate(&ProtocolHeader::Text("5".to_string())),
        ProtocolCheck::Reject(ProtocolRejection {
            message: "Client must support protocol version 12 or greater.".to_string(),
            requested_protocol: Some(5),
            grid_protocol: Some(12),
            accepted_range: Some((12, 40)),
        })
    );
}

#[test]
fn a_version_above_the_range_is_rejected_with_the_maximum() {
    let guard = ProtocolVersionRangeGuard::for_path("/batches");
    assert_eq!(
        guard.evaluate(&ProtocolHeader::Text("2".to_string())),
        ProtocolCheck::Reject(ProtocolRejection {
            message: "Client must support protocol version 1 or greater.".to_string(),
            requested_protocol: Some(2),
            grid_protocol: Some(1),
            accepted_range: Some((1, 1)),
        })
    );
    assert_eq!(
        guard.evaluate(&ProtocolHeader::Text("0".to_string())),
        ProtocolCheck::Reject(ProtocolRejection {
            message: "Client must support protocol version 1 or greater.".to_string(),
            requested_protocol: Some(0),
            grid_protocol: Some(1),
            accepted_range: Some((1, 1)),
        })
    );
}

#[test]
fn a_header_that_is_no_number_is_rejected() {
    let guard = ProtocolVersionRangeGuard::new(0, u32::MAX);
    for text in ["", "one", "-1", "1.0", " 1", "4294967296"] {
        assert_eq!(
            guard.evaluate(&ProtocolHeader::Text(text.to_string())),
            ProtocolCheck::Reject(ProtocolRejection {
                message: "GridProtocolVersion must be a valid positive integer".to_string(),
                requested_protocol: None,
                grid_protocol: None,
                accepted_range: None,
            }),
            "{:?}",
            text
        );
    }
    assert_eq!(
        guard.evaluate(&ProtocolHeader::Text("4294967295".to_string())),
        ProtocolCheck::Continue
    );
}

#[test]
fn a_header_that_is_no_text_is_rejected() {
    let guard = ProtocolVersionRangeGuard::new(0, u32::MAX);
    assert_eq!(
        guard.evaluate(&ProtocolHeader::Unreadable("failed to convert header to a str".to_string())),
        ProtocolCheck::Reject(ProtocolRejection {
            message: "Invalid characters in GridProtocolVersion header: failed to convert header to a str"
                .to_string(),
            requested_protocol: None,
            grid_protocol: None,
            accepted_range: None,
        })
    );
}

#[test]
fn checks_on_a_version_that_was_read() {
    let guard = ProtocolVersionRangeGuard::new(2, 4);
    assert_eq!(guard.check_version(3, "2", "4"), ProtocolCheck::Continue);
    assert_eq!(guard.check_parsed(Some(2), "2", "4"), ProtocolCheck::Continue);
    assert_eq!(
        guard.check_version(1, "two", "four"),
        ProtocolCheck::Reject(ProtocolRejection {
            message: "Client must support protocol version two or greater.".to_string(),
            requested_protocol: Some(1),
            grid_protocol: Some(2),
            accepted_range: Some((2, 4)),
        })
    );
    assert_eq!(
        guard.check_parsed(Some(5), "two", "four"),
        ProtocolCheck::Reject(ProtocolRejection {
            message: "Client must support protocol version four or greater.".to_string(),
            requested_protocol: Some(5),
            grid_protocol: Some(4),
            accepted_range: Some((2, 4)),
        })
    );
    assert!(matches!(guard.check_parsed(None, "2", "4"), ProtocolCheck::Reject(_)));
    assert_eq!(format_unsupported("7"), "Client must support protocol version 7 or greater.");
    assert_eq!(format_unreadable("x"), "Invalid characters in GridProtocolVersion header: x");
}

#[test]
fn tenant_scope_must_match_the_mode() {
    assert_eq!(AcceptServiceIdParam::from_request(&sawtooth(), &query(None)), Ok(AcceptServiceIdParam));
    assert_eq!(
        AcceptServiceIdParam::from_request(&splinter(), &query(Some("A"))),
        Ok(AcceptServiceIdParam)
    );
    assert_eq!(
        AcceptServiceIdParam::from_request(&sawtooth(), &query(Some("A"))),
        Err(TenantModeMismatch::UnexpectedServiceId)
    );
    assert_eq!(
        AcceptServiceIdParam::from_request(&splinter(), &query(None)),
        Err(TenantModeMismatch::MissingServiceId)
    );
    assert!(sawtooth().is_sawtooth());
    assert!(!splinter().is_sawtooth());
}

#[test]
fn tenant_mismatch_messages() {
    assert_eq!(
        TenantModeMismatch::UnexpectedServiceId.message(),
        "Circuit ID present, but grid is running in sawtooth mode"
    );
    assert_eq!(
        TenantModeMismatch::MissingServiceId.message(),
        "Circuit ID is not present, but grid is running in splinter mode"
    );
    let refused = accept(&sawtooth(), &query(Some("A"))).unwrap_err();
    assert_eq!(
        refused,
        RestApiResponseError {
            kind: ErrorKind::TenantModeMismatch,
            message: "Circuit ID present, but grid is running in sawtooth mode".to_string(),
        }
    );
    assert_eq!(refused.status_code(), 400);
    assert!(accept(&splinter(), &query(Some("A"))).is_ok());
}

#[test]
fn error_statuses() {
    let status = |kind| RestApiResponseError { kind, message: String::new() }.status_code();
    assert_eq!(status(ErrorKind::NotFound), 404);
    assert_eq!(status(ErrorKind::TenantModeMismatch), 400);
    assert_eq!(status(ErrorKind::InvariantViolation), 500);
    assert_eq!(status(ErrorKind::ForkDetected), 500);
    assert_eq!(status(ErrorKind::ConnectionError), 500);
    assert_eq!(status(ErrorKind::TransactionError), 500);
    assert_eq!(
        RestApiResponseError::not_found("Could not find thing: ", "x"),
        RestApiResponseError { kind: ErrorKind::NotFound, message: "Could not find thing: x".to_string() }
    );
}

#[test]
fn definition_slice_drops_the_commits() {
    let slice = GridPropertyDefinitionSlice::from_definition(&definition("color", "widget", Some("A")));
    assert_eq!(slice, definition_slice("color", "widget", Some("A")));
}

#[test]
fn schema_slice_holds_the_properties_given() {
    let slice = GridSchemaSlice::from_schema(
        &schema("widget", None),
        vec![definition("color", "widget", None), definition("size", "other", None)],
    );
    assert_eq!(
        slice,
        GridSchemaSlice {
            name: "widget".to_string(),
            description: "widget schema".to_string(),
            owner: "org-1".to_string(),
            properties: vec![
                definition_slice("color", "widget", None),
                definition_slice("size", "other", None)
            ],
            service_id: None,
        }
    );
}

#[test]
fn schemas_are_grouped_with_the_definitions_that_name_them() {
    let schemas = vec![schema("widget", None), schema("empty", None), schema("gadget", None)];
    let definitions = vec![
        definition("color", "widget", None),
        definition("weight", "gadget", None),
        definition("size", "widget", None),
        definition("lost", "nothing", None),
    ];
    let slices = group_schemas(&schemas, &definitions);
    let grouped: Vec<(String, Vec<String>)> = slices
        .into_iter()
        .map(|s| (s.name, s.properties.into_iter().map(|p| p.name).collect()))
        .collect();
    assert_eq!(
        grouped,
        vec![
            ("widget".to_string(), vec!["color".to_string(), "size".to_string()]),
            ("empty".to_string(), vec![]),
            ("gadget".to_string(), vec!["weight".to_string()]),
        ]
    );
}

#[test]
fn a_schema_listed_twice_gets_its_definitions_once() {
    let schemas = vec![schema("widget", None), schema("widget", None)];
    let definitions = vec![definition("color", "widget", None)];
    let slices = group_schemas(&schemas, &definitions);
    assert_eq!(slices[0].properties.len(), 1);
    assert_eq!(slices[1].properties.len(), 0);
}

#[test]
fn agent_slice_copies_the_document() {
    let metadata = serde_json::Value::from(vec![
        serde_json::Value::from("gs1"),
        serde_json::Value::from(7),
        serde_json::Value::Null,
    ]);
    let document = AgentDocument::new(&agent("key-1", Some("A")), metadata.clone());
    let slice = AgentSlice::from_agent(&document);
    assert_eq!(
        slice,
        AgentSlice {
            public_key: "key-1".to_string(),
            org_id: "org-1".to_string(),
            active: true,
            roles: vec!["admin".to_string()],
            metadata,
            service_id: Some("A".to_string()),
        }
    );
    assert_eq!(document.metadata, slice.metadata);
}

#[test]
fn gateway_fetches_and_lists_agents_in_the_scope_of_the_request() {
    let database = database();
    let found = fetch_agent(&database, &splinter(), "key-1", &query(Some("A"))).unwrap();
    assert_eq!(found.public_key, "key-1");
    assert_eq!(found.roles, vec!["admin"]);
    let listed = list_agents(&database, &splinter(), &query(Some("A"))).unwrap();
    assert_eq!(listed.len(), 1);
    let shared = list_agents(&database, &sawtooth(), &query(None)).unwrap();
    assert_eq!(shared.len(), 1);
    assert_eq!(shared[0].public_key, "key-2");
    assert_eq!(list_agents(&database, &splinter(), &query(Some("B"))).unwrap(), vec![]);
}

#[test]
fn gateway_answers_not_found_with_the_key() {
    let database = database();
    let cases = [
        (
            fetch_agent(&database, &splinter(), "key-2", &query(Some("A"))).map(|_| ()),
            "Could not find agent with public key: key-2",
        ),
        (
            fetch_organization(&database, &splinter(), "org-9", &query(Some("A"))).map(|_| ()),
            "Could not find organization with id: org-9",
        ),
        (
            fetch_location(&database, &sawtooth(), "loc-9", &query(None)).map(|_| ()),
            "Could not find location with id: loc-9",
        ),
        (
            fetch_product(&database, &sawtooth(), "prod-9", &query(None)).map(|_| ()),
            "Could not find product with id: prod-9",
        ),
        (
            fetch_grid_schema(&database, &sawtooth(), "widget", &query(None)).map(|_| ()),
            "Could not find schema with name: widget",
        ),
    ];
    for (result, message) in cases {
        let refused = result.unwrap_err();
        assert_eq!(refused.kind, ErrorKind::NotFound);
        assert_eq!(refused.message, message);
        assert_eq!(refused.status_code(), 404);
    }
}

#[test]
fn gateway_refuses_a_scope_that_does_not_match_before_it_reads() {
    let database = database();
    let refused = fetch_agent(&database, &sawtooth(), "key-1", &query(Some("A"))).unwrap_err();
    assert_eq!(refused.kind, ErrorKind::TenantModeMismatch);
    let refused = fetch_agent(&database, &splinter(), "key-2", &query(None)).unwrap_err();
    assert_eq!(refused.kind, ErrorKind::TenantModeMismatch);
    assert_eq!(
        refused.message,
        "Circuit ID is not present, but grid is running in splinter mode"
    );
    assert!(list_organizations(&database, &splinter(), &query(None)).is_err());
    assert!(list_locations(&database, &sawtooth(), &query(Some("A"))).is_err());
    assert!(list_products(&database, &sawtooth(), &query(Some("A"))).is_err());
    assert!(list_grid_schemas(&database, &splinter(), &query(None)).is_err());
    assert!(fetch_organization(&database, &sawtooth(), "org-1", &query(Some("A"))).is_err());
}

#[test]
fn gateway_answers_with_schemas_and_their_definitions() {
    let database = database();
    let found = fetch_grid_schema(&database, &splinter(), "widget", &query(Some("A"))).unwrap();
    assert_eq!(
        found,
        GridSchemaSlice {
            name: "widget".to_string(),
            description: "widget schema".to_string(),
            owner: "org-1".to_string(),
            properties: vec![
                definition_slice("color", "widget", Some("A")),
                definition_slice("size", "widget", Some("A"))
            ],
            service_id: Some("A".to_string()),
        }
    );
    let listed = list_grid_schemas(&database, &splinter(), &query(Some("A"))).unwrap();
    let grouped: Vec<(String, usize)> =
        listed.iter().map(|s| (s.name.clone(), s.properties.len())).collect();
    assert_eq!(grouped, vec![("widget".to_string(), 2), ("gadget".to_string(), 1)]);
    let shared = list_grid_schemas(&database, &sawtooth(), &query(None)).unwrap();
    assert_eq!(shared.len(), 1);
    assert_eq!(shared[0].name, "shared");
    assert_eq!(shared[0].properties, vec![]);
}

#[test]
fn gateway_reads_the_current_version_only() {
    let mut database = database();
    let mut renamed = organization("org-1", Some("A"));
    renamed.name = "Acme Corp".to_string();
    database.apply_batch(2, 1, &vec![Delta::UpdateOrganization(renamed)]).unwrap();
    database
        .apply_batch(3, 2, &vec![Delta::DeleteAgent { public_key: "key-1".to_string(), service_id: Some("A".to_string()) }])
        .unwrap();
    let found = fetch_organization(&database, &splinter(), "org-1", &query(Some("A"))).unwrap();
    assert_eq!(found.name, "Acme Corp");
    assert_eq!(list_organizations(&database, &splinter(), &query(Some("A"))).unwrap().len(), 1);
    assert!(fetch_agent(&database, &splinter(), "key-1", &query(Some("A"))).is_err());
    assert_eq!(list_locations(&database, &sawtooth(), &query(None)).unwrap().len(), 0);
    assert_eq!(list_products(&database, &sawtooth(), &query(None)).unwrap().len(), 0);
}
