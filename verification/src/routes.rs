//! The query gateway: what an outside request for one entity or for a
//! listing is answered with.  Every read is bound to the current versions,
//! and a request whose tenant scope does not match the mode of the
//! deployment is refused before any store is read.

use vstd::prelude::*;
use vstd::string::*;
use crate::database::{Database, DatabaseView};
use crate::location::{Location, LocationView, location_at, locations_at};
use crate::payload::{Key, Payload, borrowed_scope};
use crate::pike::{
    Agent, AgentView, Organization, OrganizationView, agent_at, agents_at, organization_at,
    organizations_at,
};
use crate::product::{Product, ProductView, product_at, products_at};
use crate::schema::{
    GridPropertyDefinition, GridPropertyDefinitionView, GridSchema, GridSchemaView, definitions_at,
    definitions_of_schema_at, schema_at, schemas_at,
};
use crate::tenant::{
    AcceptServiceIdParam, Backend, Endpoint, QueryServiceId, TenantModeMismatch, mismatch,
    mismatch_message,
};

verus! {

/// A JSON document, of which the library reads nothing.
#[verifier::external_type_specification]
#[verifier::external_body]
pub struct ExJsonValue(serde_json::Value);

/// Specifies `<serde_json::Value as Clone>::clone`.  The contract says that
/// the copy equals the document: the impl is derived, and copies every part.
pub assume_specification[ <serde_json::Value as Clone>::clone ](
    value: &serde_json::Value,
) -> (copy: serde_json::Value)
    ensures
        copy == *value,
;

/// The kinds of error that an answer can report.
#[derive(Clone, Copy, Debug, PartialEq, Eq, Structural)]
pub enum ErrorKind {
    /// The entity asked for has no current version.
    NotFound,
    /// A store found its invariant broken.
    InvariantViolation,
    /// The ledger has forked.
    ForkDetected,
    /// The store could not be reached.
    ConnectionError,
    /// A transaction of the store failed.
    TransactionError,
    /// The tenant scope of the request does not match the deployment.
    TenantModeMismatch,
}

/// An error as an answer reports it.
#[derive(Clone, Debug, PartialEq, Eq)]
pub struct RestApiResponseError {
    pub kind: ErrorKind,
    pub message: String,
}

/// The view of an error.
pub struct ResponseErrorView {
    pub kind: ErrorKind,
    pub message: Seq<char>,
}

impl DeepView for RestApiResponseError {
    type V = ResponseErrorView;

    open spec fn deep_view(&self) -> ResponseErrorView {
        ResponseErrorView { kind: self.kind, message: self.message@ }
    }
}

/// The status with which an error of `kind` is answered.
pub open spec fn status_of(kind: ErrorKind) -> u16 {
    match kind {
        ErrorKind::NotFound => 404,
        ErrorKind::TenantModeMismatch => 400,
        ErrorKind::InvariantViolation => 500,
        ErrorKind::ForkDetected => 500,
        ErrorKind::ConnectionError => 500,
        ErrorKind::TransactionError => 500,
    }
}

impl RestApiResponseError {
    /// The status with which the error is answered.
    pub fn status_code(&self) -> (status: u16)
        ensures
            status == status_of(self.kind),
    {
        match self.kind {
            ErrorKind::NotFound => 404,
            ErrorKind::TenantModeMismatch => 400,
            ErrorKind::InvariantViolation => 500,
            ErrorKind::ForkDetected => 500,
            ErrorKind::ConnectionError => 500,
            ErrorKind::TransactionError => 500,
        }
    }

    /// The error that tells a client that `what` was not found under `key`.
    pub fn not_found(what: &str, key: &str) -> (error: Self)
        ensures
            error.deep_view() == missing(what@, key@),
    {
        let mut message = String::from_str(what);
        message.append(key);
        RestApiResponseError { kind: ErrorKind::NotFound, message }
    }

    /// The error that tells a client of a tenant scope that does not match.
    pub fn scope(refusal: TenantModeMismatch) -> (error: Self)
        ensures
            error.deep_view() == unmatched(refusal),
    {
        RestApiResponseError { kind: ErrorKind::TenantModeMismatch, message: refusal.message() }
    }
}

/// The error for an entity that was not found: `what` says what was looked
/// for, `key` under which key.
pub open spec fn missing(what: Seq<char>, key: Seq<char>) -> ResponseErrorView {
    ResponseErrorView { kind: ErrorKind::NotFound, message: what + key }
}

/// The error for a tenant scope that does not match the deployment.
pub open spec fn unmatched(refusal: TenantModeMismatch) -> ResponseErrorView {
    ResponseErrorView { kind: ErrorKind::TenantModeMismatch, message: mismatch_message(refusal) }
}

/// The scope in which a request is answered, or the error with which it is
/// refused.
pub open spec fn request_scope(endpoint: Endpoint, query: QueryServiceId) -> Result<
    Option<Seq<char>>,
    ResponseErrorView,
> {
    match mismatch(endpoint.backend == Backend::Sawtooth, query.service_id is Some) {
        Some(refusal) => Err(unmatched(refusal)),
        None => Ok(query.service_id.deep_view()),
    }
}

/// Refuses a request whose tenant scope does not match the deployment.
pub fn accept(endpoint: &Endpoint, query: &QueryServiceId) -> (result: Result<
    AcceptServiceIdParam,
    RestApiResponseError,
>)
    ensures
        match request_scope(*endpoint, *query) {
            Ok(_) => result is Ok,
            Err(error) => result matches Err(refusal) && refusal.deep_view() == error,
        },
{
    match AcceptServiceIdParam::from_request(endpoint, query) {
        Ok(accepted) => Ok(accepted),
        Err(refusal) => Err(RestApiResponseError::scope(refusal)),
    }
}

/// An agent whose metadata has been read as a JSON document.
#[derive(Clone, Debug, PartialEq)]
pub struct AgentDocument {
    pub public_key: String,
    pub org_id: String,
    pub active: bool,
    pub roles: Vec<String>,
    pub metadata: serde_json::Value,
    pub service_id: Option<String>,
}

/// An agent as an answer holds it.
#[derive(Clone, Debug, PartialEq)]
pub struct AgentSlice {
    pub public_key: String,
    pub org_id: String,
    pub active: bool,
    pub roles: Vec<String>,
    pub metadata: serde_json::Value,
    pub service_id: Option<String>,
}

/// The view of an agent in an answer.
pub struct AgentSliceView {
    pub public_key: Seq<char>,
    pub org_id: Seq<char>,
    pub active: bool,
    pub roles: Seq<Seq<char>>,
    pub metadata: serde_json::Value,
    pub service_id: Option<Seq<char>>,
}

impl DeepView for AgentSlice {
    type V = AgentSliceView;

    open spec fn deep_view(&self) -> AgentSliceView {
        AgentSliceView {
            public_key: self.public_key.deep_view(),
            org_id: self.org_id.deep_view(),
            active: self.active,
            roles: self.roles.deep_view(),
            metadata: self.metadata,
            service_id: self.service_id.deep_view(),
        }
    }
}

impl DeepView for AgentDocument {
    type V = AgentSliceView;

    open spec fn deep_view(&self) -> AgentSliceView {
        AgentSliceView {
            public_key: self.public_key.deep_view(),
            org_id: self.org_id.deep_view(),
            active: self.active,
            roles: self.roles.deep_view(),
            metadata: self.metadata,
            service_id: self.service_id.deep_view(),
        }
    }
}

impl AgentDocument {
    /// The agent with `metadata` as the document that its metadata holds.
    pub fn new(agent: &Agent, metadata: serde_json::Value) -> (document: Self)
        ensures
            document.deep_view() == (AgentSliceView {
                public_key: agent.deep_view().public_key,
                org_id: agent.deep_view().org_id,
                active: agent.deep_view().active,
                roles: agent.deep_view().roles,
                metadata,
                service_id: agent.deep_view().service_id,
            }),
    {
        AgentDocument {
            public_key: agent.public_key.duplicate(),
            org_id: agent.org_id.duplicate(),
            active: agent.active,
            roles: agent.roles.duplicate(),
            metadata,
            service_id: agent.service_id.duplicate(),
        }
    }
}

impl AgentSlice {
    /// The agent as an answer holds it.
    pub fn from_agent(agent: &AgentDocument) -> (slice: Self)
        ensures
            slice.deep_view() == agent.deep_view(),
    {
        Self {
            public_key: agent.public_key.duplicate(),
            org_id: agent.org_id.duplicate(),
            active: agent.active,
            roles: agent.roles.duplicate(),
            metadata: agent.metadata.clone(),
            service_id: agent.service_id.duplicate(),
        }
    }
}

/// The definition of a property as an answer holds it.
#[derive(Clone, Debug, PartialEq)]
pub struct GridPropertyDefinitionSlice {
    pub name: String,
    pub schema_name: String,
    pub data_type: String,
    pub required: bool,
    pub description: String,
    pub number_exponent: i64,
    pub enum_options: Vec<String>,
    pub struct_properties: Vec<String>,
    pub service_id: Option<String>,
}

/// The view of the definition of a property in an answer.
pub struct GridPropertyDefinitionSliceView {
    pub name: Seq<char>,
    pub schema_name: Seq<char>,
    pub data_type: Seq<char>,
    pub required: bool,
    pub description: Seq<char>,
    pub number_exponent: i64,
    pub enum_options: Seq<Seq<char>>,
    pub struct_properties: Seq<Seq<char>>,
    pub service_id: Option<Seq<char>>,
}

impl DeepView for GridPropertyDefinitionSlice {
    type V = GridPropertyDefinitionSliceView;

    open spec fn deep_view(&self) -> GridPropertyDefinitionSliceView {
        GridPropertyDefinitionSliceView {
            name: self.name.deep_view(),
            schema_name: self.schema_name.deep_view(),
            data_type: self.data_type.deep_view(),
            required: self.required,
            description: self.description.deep_view(),
            number_exponent: self.number_exponent,
            enum_options: self.enum_options.deep_view(),
            struct_properties: self.struct_properties.deep_view(),
            service_id: self.service_id.deep_view(),
        }
    }
}

/// The definition of a property as an answer holds it: the definition
/// without the commits between which it is valid.
pub open spec fn definition_slice(definition: GridPropertyDefinitionView) -> GridPropertyDefinitionSliceView {
    GridPropertyDefinitionSliceView {
        name: definition.name,
        schema_name: definition.schema_name,
        data_type: definition.data_type,
        required: definition.required,
        description: definition.description,
        number_exponent: definition.number_exponent,
        enum_options: definition.enum_options,
        struct_properties: definition.struct_properties,
        service_id: definition.service_id,
    }
}

impl GridPropertyDefinitionSlice {
    /// The definition as an answer holds it.
    pub fn from_definition(definition: &GridPropertyDefinition) -> (slice: Self)
        ensures
            slice.deep_view() == definition_slice(definition.deep_view()),
    {
        Self {
            name: definition.name.duplicate(),
            schema_name: definition.schema_name.duplicate(),
            data_type: definition.data_type.duplicate(),
            required: definition.required,
            description: definition.description.duplicate(),
            number_exponent: definition.number_exponent,
            enum_options: definition.enum_options.duplicate(),
            struct_properties: definition.struct_properties.duplicate(),
            service_id: definition.service_id.duplicate(),
        }
    }
}

/// A schema as an answer holds it, with the definitions of its properties.
#[derive(Clone, Debug, PartialEq)]
pub struct GridSchemaSlice {
    pub name: String,
    pub description: String,
    pub owner: String,
    pub properties: Vec<GridPropertyDefinitionSlice>,
    pub service_id: Option<String>,
}

/// The view of a schema in an answer.
pub struct GridSchemaSliceView {
    pub name: Seq<char>,
    pub description: Seq<char>,
    pub owner: Seq<char>,
    pub properties: Seq<GridPropertyDefinitionSliceView>,
    pub service_id: Option<Seq<char>>,
}

impl DeepView for GridSchemaSlice {
    type V = GridSchemaSliceView;

    open spec fn deep_view(&self) -> GridSchemaSliceView {
        GridSchemaSliceView {
            name: self.name.deep_view(),
            description: self.description.deep_view(),
            owner: self.owner.deep_view(),
            properties: self.properties.deep_view(),
            service_id: self.service_id.deep_view(),
        }
    }
}

/// A schema as an answer holds it, with `properties` as the definitions of
/// its properties.
pub open spec fn schema_slice(
    schema: GridSchemaView,
    properties: Seq<GridPropertyDefinitionView>,
) -> GridSchemaSliceView {
    GridSchemaSliceView {
        name: schema.name,
        description: schema.description,
        owner: schema.owner,
        properties: properties.map_values(
            |definition: GridPropertyDefinitionView| definition_slice(definition),
        ),
        service_id: schema.service_id,
    }
}

impl GridSchemaSlice {
    /// The schema as an answer holds it, with `properties`.
    pub fn from_schema(schema: &GridSchema, properties: Vec<GridPropertyDefinition>) -> (slice:
        Self)
        ensures
            slice.deep_view() == schema_slice(schema.deep_view(), properties.deep_view()),
    {
        let mut slices: Vec<GridPropertyDefinitionSlice> = Vec::new();
        let mut i: usize = 0;
        while i < properties.len()
            invariant
                i <= properties.len(),
                slices.len() == i,
                forall|j: int|
                    0 <= j < i ==> (#[trigger] slices[j]).deep_view() == definition_slice(
                        properties[j].deep_view(),
                    ),
            decreases properties.len() - i,
        {
            slices.push(GridPropertyDefinitionSlice::from_definition(&properties[i]));
            i += 1;
        }
        let slice = Self {
            name: schema.name.duplicate(),
            description: schema.description.duplicate(),
            owner: schema.owner.duplicate(),
            properties: slices,
            service_id: schema.service_id.duplicate(),
        };
        assert(slice.deep_view().properties =~= schema_slice(
            schema.deep_view(),
            properties.deep_view(),
        ).properties);
        slice
    }
}

/// The definitions that go with the schema at `index` in a listing: those
/// that name it, unless a schema earlier in the listing has the same name
/// and has taken them.
pub open spec fn properties_for(
    schemas: Seq<GridSchemaView>,
    definitions: Seq<GridPropertyDefinitionView>,
    index: int,
) -> Seq<GridPropertyDefinitionView> {
    if exists|j: int| 0 <= j < index && (#[trigger] schemas[j]).name == schemas[index].name {
        Seq::empty()
    } else {
        definitions.filter(
            |definition: GridPropertyDefinitionView| definition.schema_name == schemas[index].name,
        )
    }
}

/// The schemas of a listing as an answer holds them, each with the
/// definitions that go with it.
pub open spec fn schema_slices(
    schemas: Seq<GridSchemaView>,
    definitions: Seq<GridPropertyDefinitionView>,
) -> Seq<GridSchemaSliceView> {
    Seq::new(
        schemas.len(),
        |i: int| schema_slice(schemas[i], properties_for(schemas, definitions, i)),
    )
}

/// The definitions among `definitions` that name the schema `name`, in
/// their order.
fn definitions_named(definitions: &Vec<GridPropertyDefinition>, name: &String) -> (named: Vec<
    GridPropertyDefinition,
>)
    ensures
        named.deep_view() == definitions.deep_view().filter(
            |definition: GridPropertyDefinitionView| definition.schema_name == name.deep_view(),
        ),
{
    let ghost all = definitions.deep_view();
    let ghost wanted = |definition: GridPropertyDefinitionView|
        definition.schema_name == name.deep_view();
    let mut named: Vec<GridPropertyDefinition> = Vec::new();
    let mut i: usize = 0;
    proof {
        reveal(Seq::filter);
        assert(all.take(0) =~= Seq::<GridPropertyDefinitionView>::empty());
        assert(named.deep_view() =~= all.take(0).filter(wanted));
    }
    while i < definitions.len()
        invariant
            i <= definitions.len(),
            all == definitions.deep_view(),
            wanted == |definition: GridPropertyDefinitionView|
                definition.schema_name == name.deep_view(),
            named.deep_view() == all.take(i as int).filter(wanted),
        decreases definitions.len() - i,
    {
        proof {
            reveal(Seq::filter);
            assert(all.take(i + 1).drop_last() =~= all.take(i as int));
            assert(all.take(i + 1).last() == definitions[i as int].deep_view());
        }
        if definitions[i].schema_name.same(name) {
            let ghost before = named.deep_view();
            let copy = definitions[i].duplicate();
            named.push(copy);
            assert(named.deep_view() =~= before.push(copy.deep_view()));
        }
        i += 1;
    }
    assert(all.take(i as int) =~= all);
    named
}

/// The schemas of a listing as an answer holds them: each schema with the
/// definitions that name it.
pub fn group_schemas(schemas: &Vec<GridSchema>, definitions: &Vec<GridPropertyDefinition>) -> (slices:
    Vec<GridSchemaSlice>)
    ensures
        slices.deep_view() == schema_slices(schemas.deep_view(), definitions.deep_view()),
{
    let ghost target = schema_slices(schemas.deep_view(), definitions.deep_view());
    let mut slices: Vec<GridSchemaSlice> = Vec::new();
    let mut i: usize = 0;
    while i < schemas.len()
        invariant
            i <= schemas.len(),
            slices.len() == i,
            target == schema_slices(schemas.deep_view(), definitions.deep_view()),
            forall|j: int| 0 <= j < i ==> (#[trigger] slices[j]).deep_view() == target[j],
        decreases schemas.len() - i,
    {
        let schema = &schemas[i];
        let mut taken = false;
        let mut j: usize = 0;
        while j < i
            invariant
                j <= i < schemas.len(),
                schema == &schemas[i as int],
                taken <==> exists|k: int|
                    0 <= k < j && (#[trigger] schemas.deep_view()[k]).name
                        == schemas.deep_view()[i as int].name,
            decreases i - j,
        {
            if schemas[j].name.same(&schema.name) {
                assert(schemas.deep_view()[j as int].name == schemas.deep_view()[i as int].name);
                taken = true;
            }
            j += 1;
        }
        let properties = if taken {
            let none: Vec<GridPropertyDefinition> = Vec::new();
            assert(none.deep_view() =~= Seq::<GridPropertyDefinitionView>::empty());
            none
        } else {
            definitions_named(definitions, &schema.name)
        };
        assert(properties.deep_view() == properties_for(
            schemas.deep_view(),
            definitions.deep_view(),
            i as int,
        ));
        slices.push(GridSchemaSlice::from_schema(schema, properties));
        i += 1;
    }
    assert(slices.deep_view() =~= target);
    slices
}

/// What a request for the agent `public_key` is answered with.
pub open spec fn fetched_agent(
    database: DatabaseView,
    endpoint: Endpoint,
    public_key: Seq<char>,
    query: QueryServiceId,
) -> Result<AgentView, ResponseErrorView> {
    match request_scope(endpoint, query) {
        Err(error) => Err(error),
        Ok(tenant) => match agent_at(database.agents, public_key, tenant, None) {
            Ok(agent) => Ok(agent),
            Err(_) => Err(missing("Could not find agent with public key: "@, public_key)),
        },
    }
}

/// What a request for the agents is answered with.
pub open spec fn listed_agents(database: DatabaseView, endpoint: Endpoint, query: QueryServiceId) -> Result<
    Seq<AgentView>,
    ResponseErrorView,
> {
    match request_scope(endpoint, query) {
        Err(error) => Err(error),
        Ok(tenant) => Ok(agents_at(database.agents, tenant, None)),
    }
}

/// What a request for the organization `org_id` is answered with.
pub open spec fn fetched_organization(
    database: DatabaseView,
    endpoint: Endpoint,
    org_id: Seq<char>,
    query: QueryServiceId,
) -> Result<OrganizationView, ResponseErrorView> {
    match request_scope(endpoint, query) {
        Err(error) => Err(error),
        Ok(tenant) => match organization_at(database.organizations, org_id, tenant, None) {
            Ok(organization) => Ok(organization),
            Err(_) => Err(missing("Could not find organization with id: "@, org_id)),
        },
    }
}

/// What a request for the organizations is answered with.
pub open spec fn listed_organizations(
    database: DatabaseView,
    endpoint: Endpoint,
    query: QueryServiceId,
) -> Result<Seq<OrganizationView>, ResponseErrorView> {
    match request_scope(endpoint, query) {
        Err(error) => Err(error),
        Ok(tenant) => Ok(organizations_at(database.organizations, tenant, None)),
    }
}

/// What a request for the location `location_id` is answered with.
pub open spec fn fetched_location(
    database: DatabaseView,
    endpoint: Endpoint,
    location_id: Seq<char>,
    query: QueryServiceId,
) -> Result<LocationView, ResponseErrorView> {
    match request_scope(endpoint, query) {
        Err(error) => Err(error),
        Ok(tenant) => match location_at(database.locations, location_id, tenant, None) {
            Ok(location) => Ok(location),
            Err(_) => Err(missing("Could not find location with id: "@, location_id)),
        },
    }
}

/// What a request for the locations is answered with.
pub open spec fn listed_locations(
    database: DatabaseView,
    endpoint: Endpoint,
    query: QueryServiceId,
) -> Result<Seq<LocationView>, ResponseErrorView> {
    match request_scope(endpoint, query) {
        Err(error) => Err(error),
        Ok(tenant) => Ok(locations_at(database.locations, tenant, None)),
    }
}

/// What a request for the product `product_id` is answered with.
pub open spec fn fetched_product(
    database: DatabaseView,
    endpoint: Endpoint,
    product_id: Seq<char>,
    query: QueryServiceId,
) -> Result<ProductView, ResponseErrorView> {
    match request_scope(endpoint, query) {
        Err(error) => Err(error),
        Ok(tenant) => match product_at(database.products, product_id, tenant, None) {
            Ok(product) => Ok(product),
            Err(_) => Err(missing("Could not find product with id: "@, product_id)),
        },
    }
}

/// What a request for the products is answered with.
pub open spec fn listed_products(
    database: DatabaseView,
    endpoint: Endpoint,
    query: QueryServiceId,
) -> Result<Seq<ProductView>, ResponseErrorView> {
    match request_scope(endpoint, query) {
        Err(error) => Err(error),
        Ok(tenant) => Ok(products_at(database.products, tenant, None)),
    }
}

/// What a request for the schema `name` is answered with.
pub open spec fn fetched_grid_schema(
    database: DatabaseView,
    endpoint: Endpoint,
    name: Seq<char>,
    query: QueryServiceId,
) -> Result<GridSchemaSliceView, ResponseErrorView> {
    match request_scope(endpoint, query) {
        Err(error) => Err(error),
        Ok(tenant) => match schema_at(database.schemas, name, tenant, None) {
            Ok(schema) => Ok(
                schema_slice(
                    schema,
                    definitions_of_schema_at(database.schemas, name, tenant, None),
                ),
            ),
            Err(_) => Err(missing("Could not find schema with name: "@, name)),
        },
    }
}

/// What a request for the schemas is answered with.
pub open spec fn listed_grid_schemas(
    database: DatabaseView,
    endpoint: Endpoint,
    query: QueryServiceId,
) -> Result<Seq<GridSchemaSliceView>, ResponseErrorView> {
    match request_scope(endpoint, query) {
        Err(error) => Err(error),
        Ok(tenant) => Ok(
            schema_slices(
                schemas_at(database.schemas, tenant, None),
                definitions_at(database.schemas, tenant, None),
            ),
        ),
    }
}

/// Answers a request for the current version of one agent.
pub fn fetch_agent(database: &Database, endpoint: &Endpoint, public_key: &str, query: &QueryServiceId) -> (result:
    Result<Agent, RestApiResponseError>)
    requires
        database.well_formed(),
    ensures
        match fetched_agent(database.deep_view(), *endpoint, public_key@, *query) {
            Ok(agent) => result matches Ok(found) && found.deep_view() == agent,
            Err(error) => result matches Err(refusal) && refusal.deep_view() == error,
        },
{
    match accept(endpoint, query) {
        Ok(_) => {},
        Err(refusal) => {
            return Err(refusal);
        },
    }
    match database.pike().fetch_agent(public_key, borrowed_scope(&query.service_id)) {
        Ok(agent) => Ok(agent),
        Err(_) => Err(
            RestApiResponseError::not_found("Could not find agent with public key: ", public_key),
        ),
    }
}

/// Answers a request for the current agents.
pub fn list_agents(database: &Database, endpoint: &Endpoint, query: &QueryServiceId) -> (result:
    Result<Vec<Agent>, RestApiResponseError>)
    requires
        database.well_formed(),
    ensures
        match listed_agents(database.deep_view(), *endpoint, *query) {
            Ok(agents) => result matches Ok(found) && found.deep_view() == agents,
            Err(error) => result matches Err(refusal) && refusal.deep_view() == error,
        },
{
    match accept(endpoint, query) {
        Ok(_) => {},
        Err(refusal) => {
            return Err(refusal);
        },
    }
    Ok(database.pike().list_agents(borrowed_scope(&query.service_id)))
}

/// Answers a request for the current version of one organization.
pub fn fetch_organization(
    database: &Database,
    endpoint: &Endpoint,
    org_id: &str,
    query: &QueryServiceId,
) -> (result: Result<Organization, RestApiResponseError>)
    requires
        database.well_formed(),
    ensures
        match fetched_organization(database.deep_view(), *endpoint, org_id@, *query) {
            Ok(organization) => result matches Ok(found) && found.deep_view() == organization,
            Err(error) => result matches Err(refusal) && refusal.deep_view() == error,
        },
{
    match accept(endpoint, query) {
        Ok(_) => {},
        Err(refusal) => {
            return Err(refusal);
        },
    }
    match database.pike().fetch_organization(org_id, borrowed_scope(&query.service_id)) {
        Ok(organization) => Ok(organization),
        Err(_) => Err(
            RestApiResponseError::not_found("Could not find organization with id: ", org_id),
        ),
    }
}

/// Answers a request for the current organizations.
pub fn list_organizations(database: &Database, endpoint: &Endpoint, query: &QueryServiceId) -> (result:
    Result<Vec<Organization>, RestApiResponseError>)
    requires
        database.well_formed(),
    ensures
        match listed_organizations(database.deep_view(), *endpoint, *query) {
            Ok(organizations) => result matches Ok(found) && found.deep_view() == organizations,
            Err(error) => result matches Err(refusal) && refusal.deep_view() == error,
        },
{
    match accept(endpoint, query) {
        Ok(_) => {},
        Err(refusal) => {
            return Err(refusal);
        },
    }
    Ok(database.pike().list_organizations(borrowed_scope(&query.service_id)))
}

/// Answers a request for the current version of one location.
pub fn fetch_location(
    database: &Database,
    endpoint: &Endpoint,
    location_id: &str,
    query: &QueryServiceId,
) -> (result: Result<Location, RestApiResponseError>)
    requires
        database.well_formed(),
    ensures
        match fetched_location(database.deep_view(), *endpoint, location_id@, *query) {
            Ok(location) => result matches Ok(found) && found.deep_view() == location,
            Err(error) => result matches Err(refusal) && refusal.deep_view() == error,
        },
{
    match accept(endpoint, query) {
        Ok(_) => {},
        Err(refusal) => {
            return Err(refusal);
        },
    }
    match database.locations().fetch_location(location_id, query.service_id.duplicate()) {
        Ok(location) => Ok(location),
        Err(_) => Err(
            RestApiResponseError::not_found("Could not find location with id: ", location_id),
        ),
    }
}

/// Answers a request for the current locations.
pub fn list_locations(database: &Database, endpoint: &Endpoint, query: &QueryServiceId) -> (result:
    Result<Vec<Location>, RestApiResponseError>)
    requires
        database.well_formed(),
    ensures
        match listed_locations(database.deep_view(), *endpoint, *query) {
            Ok(locations) => result matches Ok(found) && found.deep_view() == locations,
            Err(error) => result matches Err(refusal) && refusal.deep_view() == error,
        },
{
    match accept(endpoint, query) {
        Ok(_) => {},
        Err(refusal) => {
            return Err(refusal);
        },
    }
    Ok(database.locations().list_locations(query.service_id.duplicate()))
}

/// Answers a request for the current version of one product.
pub fn fetch_product(
    database: &Database,
    endpoint: &Endpoint,
    product_id: &str,
    query: &QueryServiceId,
) -> (result: Result<Product, RestApiResponseError>)
    requires
        database.well_formed(),
    ensures
        match fetched_product(database.deep_view(), *endpoint, product_id@, *query) {
            Ok(product) => result matches Ok(found) && found.deep_view() == product,
            Err(error) => result matches Err(refusal) && refusal.deep_view() == error,
        },
{
    match accept(endpoint, query) {
        Ok(_) => {},
        Err(refusal) => {
            return Err(refusal);
        },
    }
    match database.products().get_product(product_id, borrowed_scope(&query.service_id)) {
        Ok(product) => Ok(product),
        Err(_) => Err(
            RestApiResponseError::not_found("Could not find product with id: ", product_id),
        ),
    }
}

/// Answers a request for the current products.
pub fn list_products(database: &Database, endpoint: &Endpoint, query: &QueryServiceId) -> (result:
    Result<Vec<Product>, RestApiResponseError>)
    requires
        database.well_formed(),
    ensures
        match listed_products(database.deep_view(), *endpoint, *query) {
            Ok(products) => result matches Ok(found) && found.deep_view() == products,
            Err(error) => result matches Err(refusal) && refusal.deep_view() == error,
        },
{
    match accept(endpoint, query) {
        Ok(_) => {},
        Err(refusal) => {
            return Err(refusal);
        },
    }
    Ok(database.products().all_products(borrowed_scope(&query.service_id)))
}

/// Answers a request for the current version of one schema, with the
/// definitions of its properties.
pub fn fetch_grid_schema(database: &Database, endpoint: &Endpoint, name: &str, query: &QueryServiceId) -> (result:
    Result<GridSchemaSlice, RestApiResponseError>)
    requires
        database.well_formed(),
    ensures
        match fetched_grid_schema(database.deep_view(), *endpoint, name@, *query) {
            Ok(schema) => result matches Ok(found) && found.deep_view() == schema,
            Err(error) => result matches Err(refusal) && refusal.deep_view() == error,
        },
{
    match accept(endpoint, query) {
        Ok(_) => {},
        Err(refusal) => {
            return Err(refusal);
        },
    }
    let tenant = borrowed_scope(&query.service_id);
    let properties = database.schemas().list_grid_property_definitions_with_schema_name(
        name,
        tenant,
    );
    match database.schemas().fetch_grid_schema(name, tenant) {
        Ok(schema) => Ok(GridSchemaSlice::from_schema(&schema, properties)),
        Err(_) => Err(RestApiResponseError::not_found("Could not find schema with name: ", name)),
    }
}

/// Answers a request for the current schemas, each with the definitions of
/// its properties.
pub fn list_grid_schemas(database: &Database, endpoint: &Endpoint, query: &QueryServiceId) -> (result:
    Result<Vec<GridSchemaSlice>, RestApiResponseError>)
    requires
        database.well_formed(),
    ensures
        match listed_grid_schemas(database.deep_view(), *endpoint, *query) {
            Ok(schemas) => result matches Ok(found) && found.deep_view() == schemas,
            Err(error) => result matches Err(refusal) && refusal.deep_view() == error,
        },
{
    match accept(endpoint, query) {
        Ok(_) => {},
        Err(refusal) => {
            return Err(refusal);
        },
    }
    let tenant = borrowed_scope(&query.service_id);
    let definitions = database.schemas().list_grid_property_definitions(tenant);
    let schemas = database.schemas().list_grid_schemas(tenant);
    Ok(group_schemas(&schemas, &definitions))
}

} // verus!
