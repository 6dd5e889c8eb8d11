//! The database: the ledger of commits and the five entity stores, written
//! one batch at a time and rolled back together.

use vstd::prelude::*;
use crate::entity::{
    Fault, Operation, Write, attempted, consistent, no_tables, subject, tables_rolled_back,
    tables_settled, written,
};
use crate::error::{EntityKind, StoreError, StoreErrorView};
use crate::laws::{law_operation_keeps_invariant, law_rollback_forgets_write, law_write_settles};
use crate::ledger::{
    MAX_COMMIT_NUM, VersionError, VersionLedger, chain_height, chain_knows, chain_ordered,
    chain_rolled_back, lemma_rolled_back_height, lemma_rolled_back_is_prefix, record_refusal,
};
use crate::location::{
    Location, LocationAttribute, LocationPayloadView, LocationStore, LocationTables,
    location_children, location_model,
};
use crate::payload::{Payload, borrowed_scope};
use crate::pike::{
    Agent, AgentPayloadView, AgentTables, Organization, OrganizationPayloadView,
    OrganizationTables, PikeStore, agent_children, agent_payload, organization_payload,
};
use crate::product::{
    Product, ProductPayloadView, ProductStore, ProductTables, product_children, product_payload,
};
use crate::property::PropertyDataView;
use crate::schema::{
    DefinitionPayloadView, GridPropertyDefinition, GridSchema, SchemaPayloadView, SchemaStore,
    SchemaTables, definition_children, schema_payload,
};
use crate::table::{lemma_rolled_back_is_settled, lemma_rolled_back_settled, lemma_settled_later};

verus! {

/// One change to one entity, as a batch from the ledger carries it.
#[derive(Debug)]
pub enum Delta {
    AddAgent(Agent),
    UpdateAgent(Agent),
    DeleteAgent { public_key: String, service_id: Option<String> },
    AddOrganization(Organization),
    UpdateOrganization(Organization),
    DeleteOrganization { org_id: String, service_id: Option<String> },
    AddLocation { location: Location, attributes: Vec<LocationAttribute> },
    UpdateLocation { location: Location, attributes: Vec<LocationAttribute> },
    DeleteLocation { location_id: String, service_id: Option<String> },
    AddProduct(Product),
    UpdateProduct(Product),
    DeleteProduct { product_id: String, service_id: Option<String> },
    AddSchema { schema: GridSchema, definitions: Vec<GridPropertyDefinition> },
    UpdateSchema { schema: GridSchema, definitions: Vec<GridPropertyDefinition> },
    DeleteSchema { name: String, service_id: Option<String> },
}

/// The view of a change: a write to one of the five stores.
pub enum DeltaView {
    Agent(Write<AgentPayloadView, ()>),
    Organization(Write<OrganizationPayloadView, ()>),
    Location(Write<LocationPayloadView, PropertyDataView>),
    Product(Write<ProductPayloadView, PropertyDataView>),
    Schema(Write<SchemaPayloadView, DefinitionPayloadView>),
}

impl DeepView for Delta {
    type V = DeltaView;

    open spec fn deep_view(&self) -> DeltaView {
        match self {
            Delta::AddAgent(agent) => DeltaView::Agent(
                Write::Add {
                    key: agent.deep_view().public_key,
                    tenant: agent.deep_view().service_id,
                    payload: agent_payload(agent.deep_view()),
                    children: agent_children(agent.deep_view()),
                },
            ),
            Delta::UpdateAgent(agent) => DeltaView::Agent(
                Write::Update {
                    key: agent.deep_view().public_key,
                    tenant: agent.deep_view().service_id,
                    payload: agent_payload(agent.deep_view()),
                    children: agent_children(agent.deep_view()),
                },
            ),
            Delta::DeleteAgent { public_key, service_id } => DeltaView::Agent(
                Write::Delete { key: public_key.deep_view(), tenant: service_id.deep_view() },
            ),
            Delta::AddOrganization(organization) => DeltaView::Organization(
                Write::Add {
                    key: organization.deep_view().org_id,
                    tenant: organization.deep_view().service_id,
                    payload: organization_payload(organization.deep_view()),
                    children: Seq::empty(),
                },
            ),
            Delta::UpdateOrganization(organization) => DeltaView::Organization(
                Write::Update {
                    key: organization.deep_view().org_id,
                    tenant: organization.deep_view().service_id,
                    payload: organization_payload(organization.deep_view()),
                    children: Seq::empty(),
                },
            ),
            Delta::DeleteOrganization { org_id, service_id } => DeltaView::Organization(
                Write::Delete { key: org_id.deep_view(), tenant: service_id.deep_view() },
            ),
            Delta::AddLocation { location, attributes } => DeltaView::Location(
                Write::Add {
                    key: location.deep_view().location_id,
                    tenant: location.deep_view().service_id,
                    payload: location_model(location.deep_view()).payload,
                    children: location_children(attributes.deep_view()),
                },
            ),
            Delta::UpdateLocation { location, attributes } => DeltaView::Location(
                Write::Update {
                    key: location.deep_view().location_id,
                    tenant: location.deep_view().service_id,
                    payload: location_model(location.deep_view()).payload,
                    children: location_children(attributes.deep_view()),
                },
            ),
            Delta::DeleteLocation { location_id, service_id } => DeltaView::Location(
                Write::Delete { key: location_id.deep_view(), tenant: service_id.deep_view() },
            ),
            Delta::AddProduct(product) => DeltaView::Product(
                Write::Add {
                    key: product.deep_view().product_id,
                    tenant: product.deep_view().service_id,
                    payload: product_payload(product.deep_view()),
                    children: product_children(product.deep_view()),
                },
            ),
            Delta::UpdateProduct(product) => DeltaView::Product(
                Write::Update {
                    key: product.deep_view().product_id,
                    tenant: product.deep_view().service_id,
                    payload: product_payload(product.deep_view()),
                    children: product_children(product.deep_view()),
                },
            ),
            Delta::DeleteProduct { product_id, service_id } => DeltaView::Product(
                Write::Delete { key: product_id.deep_view(), tenant: service_id.deep_view() },
            ),
            Delta::AddSchema { schema, definitions } => DeltaView::Schema(
                Write::Add {
                    key: schema.deep_view().name,
                    tenant: schema.deep_view().service_id,
                    payload: schema_payload(schema.deep_view()),
                    children: definition_children(definitions.deep_view()),
                },
            ),
            Delta::UpdateSchema { schema, definitions } => DeltaView::Schema(
                Write::Update {
                    key: schema.deep_view().name,
                    tenant: schema.deep_view().service_id,
                    payload: schema_payload(schema.deep_view()),
                    children: definition_children(definitions.deep_view()),
                },
            ),
            Delta::DeleteSchema { name, service_id } => DeltaView::Schema(
                Write::Delete { key: name.deep_view(), tenant: service_id.deep_view() },
            ),
        }
    }
}

/// Why a batch was refused.
#[derive(Debug)]
pub enum BatchError {
    /// The ledger refused the commit of the batch.
    Version(VersionError),
    /// A store refused one of the changes of the batch.
    Store(StoreError),
}

/// The view of the refusal of a batch.
pub enum BatchErrorView {
    Version(VersionError),
    Store(StoreErrorView),
}

impl DeepView for BatchError {
    type V = BatchErrorView;

    open spec fn deep_view(&self) -> BatchErrorView {
        match self {
            BatchError::Version(error) => BatchErrorView::Version(*error),
            BatchError::Store(error) => BatchErrorView::Store(error.deep_view()),
        }
    }
}

/// The view of the database: the chain of commits and the tables of the
/// five stores.
pub struct DatabaseView {
    pub ledger: Seq<i64>,
    pub agents: AgentTables,
    pub organizations: OrganizationTables,
    pub locations: LocationTables,
    pub products: ProductTables,
    pub schemas: SchemaTables,
}

/// The database that holds nothing.
pub open spec fn no_database() -> DatabaseView {
    DatabaseView {
        ledger: Seq::empty(),
        agents: no_tables(),
        organizations: no_tables(),
        locations: no_tables(),
        products: no_tables(),
        schemas: no_tables(),
    }
}

/// Every store holds nothing that happened after `commit`.
pub open spec fn database_settled(database: DatabaseView, commit: i64) -> bool {
    &&& tables_settled(database.agents, commit)
    &&& tables_settled(database.organizations, commit)
    &&& tables_settled(database.locations, commit)
    &&& tables_settled(database.products, commit)
    &&& tables_settled(database.schemas, commit)
}

/// Every store keeps its invariant.
pub open spec fn stores_consistent(database: DatabaseView) -> bool {
    &&& consistent(database.agents)
    &&& consistent(database.organizations)
    &&& consistent(database.locations)
    &&& consistent(database.products)
    &&& consistent(database.schemas)
}

/// The invariant of the database: the chain of commits is ordered, every
/// store keeps its invariant, and no store holds anything that happened
/// after the head of the chain.
pub open spec fn database_consistent(database: DatabaseView) -> bool {
    &&& chain_ordered(database.ledger)
    &&& stores_consistent(database)
    &&& database_settled(database, chain_height(database.ledger))
}

/// The error that a store of `entity` reports for `fault` in `operation`.
pub open spec fn refusal<P, C>(entity: EntityKind, fault: Fault, operation: Operation<P, C>) -> StoreErrorView {
    StoreErrorView { fault, entity, key: subject(operation) }
}

/// What one change does when it is made at `commit`: the database that
/// results, or the error with which the database is left as it is.
pub open spec fn delta_step(database: DatabaseView, delta: DeltaView, commit: i64) -> Result<
    DatabaseView,
    StoreErrorView,
> {
    match delta {
        DeltaView::Agent(write) => match attempted(database.agents, written(write, commit)) {
            Ok(agents) => Ok(DatabaseView { agents, ..database }),
            Err(fault) => Err(refusal(EntityKind::Agent, fault, written(write, commit))),
        },
        DeltaView::Organization(write) => match attempted(
            database.organizations,
            written(write, commit),
        ) {
            Ok(organizations) => Ok(DatabaseView { organizations, ..database }),
            Err(fault) => Err(refusal(EntityKind::Organization, fault, written(write, commit))),
        },
        DeltaView::Location(write) => match attempted(
            database.locations,
            written(write, commit),
        ) {
            Ok(locations) => Ok(DatabaseView { locations, ..database }),
            Err(fault) => Err(refusal(EntityKind::Location, fault, written(write, commit))),
        },
        DeltaView::Product(write) => match attempted(database.products, written(write, commit)) {
            Ok(products) => Ok(DatabaseView { products, ..database }),
            Err(fault) => Err(refusal(EntityKind::Product, fault, written(write, commit))),
        },
        DeltaView::Schema(write) => match attempted(database.schemas, written(write, commit)) {
            Ok(schemas) => Ok(DatabaseView { schemas, ..database }),
            Err(fault) => Err(refusal(EntityKind::Schema, fault, written(write, commit))),
        },
    }
}

/// What the changes of a batch do when they are made at `commit`, one after
/// the other.  The first that is refused refuses them all.
pub open spec fn deltas_step(database: DatabaseView, deltas: Seq<DeltaView>, commit: i64) -> Result<
    DatabaseView,
    StoreErrorView,
>
    decreases deltas.len(),
{
    if deltas.len() == 0 {
        Ok(database)
    } else {
        match deltas_step(database, deltas.drop_last(), commit) {
            Ok(between) => delta_step(between, deltas.last(), commit),
            Err(error) => Err(error),
        }
    }
}

/// What a batch does: where its predecessor is the head of the chain and its
/// commit is in order, its changes are made and its commit is recorded, all
/// of it or nothing.
pub open spec fn batch_step(
    database: DatabaseView,
    commit: i64,
    predecessor: i64,
    deltas: Seq<DeltaView>,
) -> Result<DatabaseView, BatchErrorView> {
    if predecessor != chain_height(database.ledger) || !(predecessor < commit < MAX_COMMIT_NUM) {
        Err(BatchErrorView::Version(record_refusal(database.ledger, commit, predecessor)))
    } else {
        match deltas_step(database, deltas, commit) {
            Ok(after) => Ok(DatabaseView { ledger: database.ledger.push(commit), ..after }),
            Err(error) => Err(BatchErrorView::Store(error)),
        }
    }
}

/// What a rollback to `commit` does: where the commit is known, the chain
/// and every store are returned to what they were at it.
pub open spec fn rollback_step(database: DatabaseView, commit: i64) -> Result<
    DatabaseView,
    VersionError,
> {
    if chain_knows(database.ledger, commit) {
        Ok(
            DatabaseView {
                ledger: chain_rolled_back(database.ledger, commit),
                agents: tables_rolled_back(database.agents, commit),
                organizations: tables_rolled_back(database.organizations, commit),
                locations: tables_rolled_back(database.locations, commit),
                products: tables_rolled_back(database.products, commit),
                schemas: tables_rolled_back(database.schemas, commit),
            },
        )
    } else {
        Err(VersionError::UnknownCommit { commit })
    }
}

/// Once a prefix of the changes is refused, all of them are.
pub proof fn lemma_deltas_refused(database: DatabaseView, deltas: Seq<DeltaView>, commit: i64, n: int)
    requires
        0 <= n <= deltas.len(),
        deltas_step(database, deltas.take(n), commit) is Err,
    ensures
        deltas_step(database, deltas, commit) == deltas_step(database, deltas.take(n), commit),
    decreases deltas.len() - n,
{
    if n < deltas.len() {
        assert(deltas.take(n + 1).drop_last() =~= deltas.take(n));
        lemma_deltas_refused(database, deltas, commit, n + 1);
    } else {
        assert(deltas.take(n) =~= deltas);
    }
}

/// A change made at `commit` leaves stores in which nothing happened after
/// `commit`, and leaves the chain as it is.
pub proof fn lemma_delta_settles(database: DatabaseView, delta: DeltaView, before: i64, commit: i64)
    requires
        database_settled(database, before),
        before <= commit,
    ensures
        delta_step(database, delta, commit) matches Ok(after) ==> database_settled(after, commit)
            && after.ledger == database.ledger,
        database_settled(database, commit),
{
    lemma_settled_later(database.agents.roots, before, commit);
    lemma_settled_later(database.agents.children, before, commit);
    lemma_settled_later(database.organizations.roots, before, commit);
    lemma_settled_later(database.organizations.children, before, commit);
    lemma_settled_later(database.locations.roots, before, commit);
    lemma_settled_later(database.locations.children, before, commit);
    lemma_settled_later(database.products.roots, before, commit);
    lemma_settled_later(database.products.children, before, commit);
    lemma_settled_later(database.schemas.roots, before, commit);
    lemma_settled_later(database.schemas.children, before, commit);
    match delta {
        DeltaView::Agent(write) => {
            law_write_settles(database.agents, written(write, commit), before, commit);
        },
        DeltaView::Organization(write) => {
            law_write_settles(database.organizations, written(write, commit), before, commit);
        },
        DeltaView::Location(write) => {
            law_write_settles(database.locations, written(write, commit), before, commit);
        },
        DeltaView::Product(write) => {
            law_write_settles(database.products, written(write, commit), before, commit);
        },
        DeltaView::Schema(write) => {
            law_write_settles(database.schemas, written(write, commit), before, commit);
        },
    }
}

/// The database.
#[derive(Debug, PartialEq)]
pub struct Database {
    ledger: VersionLedger,
    pike: PikeStore,
    locations: LocationStore,
    products: ProductStore,
    schemas: SchemaStore,
}

impl DeepView for Database {
    type V = DatabaseView;

    closed spec fn deep_view(&self) -> DatabaseView {
        DatabaseView {
            ledger: self.ledger@,
            agents: self.pike.deep_view().agents,
            organizations: self.pike.deep_view().organizations,
            locations: self.locations.deep_view(),
            products: self.products.deep_view(),
            schemas: self.schemas.deep_view(),
        }
    }
}

impl Payload for Database {
    fn duplicate(&self) -> (copy: Self) {
        Database {
            ledger: self.ledger.duplicate(),
            pike: self.pike.duplicate(),
            locations: self.locations.duplicate(),
            products: self.products.duplicate(),
            schemas: self.schemas.duplicate(),
        }
    }
}

impl Database {
    /// The invariant of the database.
    pub open spec fn well_formed(&self) -> bool {
        database_consistent(self.deep_view())
    }

    /// A database that holds nothing.
    pub fn new() -> (database: Self)
        ensures
            database.well_formed(),
            database.deep_view() == no_database(),
    {
        Database {
            ledger: VersionLedger::new(),
            pike: PikeStore::new(),
            locations: LocationStore::new(),
            products: ProductStore::new(),
            schemas: SchemaStore::new(),
        }
    }

    /// The highest commit applied.
    pub fn current_height(&self) -> (height: i64)
        ensures
            height == chain_height(self.deep_view().ledger),
    {
        self.ledger.current_height()
    }

    /// The ledger of the commits applied.
    pub fn ledger(&self) -> (ledger: &VersionLedger)
        requires
            self.well_formed(),
        ensures
            ledger@ == self.deep_view().ledger,
            ledger.well_formed(),
    {
        &self.ledger
    }

    /// The store of agents and organizations, to read from.
    pub fn pike(&self) -> (store: &PikeStore)
        requires
            self.well_formed(),
        ensures
            store.deep_view().agents == self.deep_view().agents,
            store.deep_view().organizations == self.deep_view().organizations,
            store.well_formed(),
    {
        &self.pike
    }

    /// The store of locations, to read from.
    pub fn locations(&self) -> (store: &LocationStore)
        requires
            self.well_formed(),
        ensures
            store.deep_view() == self.deep_view().locations,
            store.well_formed(),
    {
        &self.locations
    }

    /// The store of products, to read from.
    pub fn products(&self) -> (store: &ProductStore)
        requires
            self.well_formed(),
        ensures
            store.deep_view() == self.deep_view().products,
            store.well_formed(),
    {
        &self.products
    }

    /// The store of schemas, to read from.
    pub fn schemas(&self) -> (store: &SchemaStore)
        requires
            self.well_formed(),
        ensures
            store.deep_view() == self.deep_view().schemas,
            store.well_formed(),
    {
        &self.schemas
    }

    /// Makes one change at `commit`.
    fn apply(&mut self, delta: &Delta, commit: i64) -> (result: Result<(), StoreError>)
        requires
            stores_consistent(old(self).deep_view()),
        ensures
            stores_consistent(final(self).deep_view()),
            match delta_step(old(self).deep_view(), delta.deep_view(), commit) {
                Ok(after) => result is Ok && final(self).deep_view() == after,
                Err(error) => {
                    &&& result matches Err(refusal) && refusal.deep_view() == error
                    &&& final(self).deep_view() == old(self).deep_view()
                },
            },
    {
        match delta {
            Delta::AddAgent(agent) => self.pike.add_agent(agent.duplicate(), commit),
            Delta::UpdateAgent(agent) => self.pike.update_agent(agent.duplicate(), commit),
            Delta::DeleteAgent { public_key, service_id } => self.pike.delete_agent(
                public_key.as_str(),
                borrowed_scope(service_id),
                commit,
            ),
            Delta::AddOrganization(organization) => self.pike.add_organization(
                organization.duplicate(),
                commit,
            ),
            Delta::UpdateOrganization(organization) => self.pike.update_organization(
                organization.duplicate(),
                commit,
            ),
            Delta::DeleteOrganization { org_id, service_id } => self.pike.delete_organization(
                org_id.as_str(),
                borrowed_scope(service_id),
                commit,
            ),
            Delta::AddLocation { location, attributes } => self.locations.add_location(
                location.duplicate(),
                attributes.duplicate(),
                commit,
            ),
            Delta::UpdateLocation { location, attributes } => self.locations.update_location(
                location.duplicate(),
                attributes.duplicate(),
                commit,
            ),
            Delta::DeleteLocation { location_id, service_id } => self.locations.delete_location(
                location_id.as_str(),
                service_id.duplicate(),
                commit,
            ),
            Delta::AddProduct(product) => self.products.add_product(product.duplicate(), commit),
            Delta::UpdateProduct(product) => self.products.update_product(
                product.duplicate(),
                commit,
            ),
            Delta::DeleteProduct { product_id, service_id } => self.products.delete_product(
                product_id.as_str(),
                borrowed_scope(service_id),
                commit,
            ),
            Delta::AddSchema { schema, definitions } => self.schemas.add_schema(
                schema.duplicate(),
                definitions.duplicate(),
                commit,
            ),
            Delta::UpdateSchema { schema, definitions } => self.schemas.update_schema(
                schema.duplicate(),
                definitions.duplicate(),
                commit,
            ),
            Delta::DeleteSchema { name, service_id } => self.schemas.delete_schema(
                name.as_str(),
                borrowed_scope(service_id),
                commit,
            ),
        }
    }

    /// Applies a batch from the ledger: makes its changes at `commit` and
    /// records the commit, all of it or nothing.  A batch whose predecessor
    /// is not the head of the ledger is a fork: the caller rolls back to the
    /// predecessor and applies the batch again.
    pub fn apply_batch(&mut self, commit: i64, predecessor: i64, deltas: &Vec<Delta>) -> (result:
        Result<(), BatchError>)
        requires
            old(self).well_formed(),
        ensures
            final(self).well_formed(),
            match batch_step(old(self).deep_view(), commit, predecessor, deltas.deep_view()) {
                Ok(after) => result is Ok && final(self).deep_view() == after,
                Err(error) => {
                    &&& result matches Err(refusal) && refusal.deep_view() == error
                    &&& final(self).deep_view() == old(self).deep_view()
                },
            },
    {
        let ghost before = self.deep_view();
        let ghost all = deltas.deep_view();
        let mut work = self.duplicate();
        match work.ledger.record_commit(commit, predecessor) {
            Ok(()) => {},
            Err(error) => {
                return Err(BatchError::Version(error));
            },
        }
        proof {
            lemma_delta_settles(
                before,
                DeltaView::Agent(Write::Delete { key: Seq::empty(), tenant: None }),
                chain_height(before.ledger),
                commit,
            );
        }
        let mut i: usize = 0;
        assert(all.take(0) =~= Seq::<DeltaView>::empty());
        while i < deltas.len()
            invariant
                *self == *old(self),
                self.well_formed(),
                before == self.deep_view(),
                all == deltas.deep_view(),
                i <= deltas.len(),
                predecessor == chain_height(before.ledger),
                predecessor < commit < MAX_COMMIT_NUM,
                work.ledger.well_formed(),
                work.ledger@ == before.ledger.push(commit),
                stores_consistent(work.deep_view()),
                database_settled(work.deep_view(), commit),
                deltas_step(before, all.take(i as int), commit) == Ok::<
                    DatabaseView,
                    StoreErrorView,
                >(DatabaseView { ledger: before.ledger, ..work.deep_view() }),
            decreases deltas.len() - i,
        {
            let ghost between = DatabaseView { ledger: before.ledger, ..work.deep_view() };
            proof {
                assert(all.take(i + 1).drop_last() =~= all.take(i as int));
                assert(all.take(i + 1).last() == deltas[i as int].deep_view());
                lemma_delta_settles(between, deltas[i as int].deep_view(), commit, commit);
                lemma_delta_ignores_ledger(
                    work.deep_view(),
                    before.ledger,
                    deltas[i as int].deep_view(),
                    commit,
                );
            }
            match work.apply(&deltas[i], commit) {
                Ok(()) => {},
                Err(refusal) => {
                    proof {
                        lemma_deltas_refused(before, all, commit, i + 1);
                    }
                    return Err(BatchError::Store(refusal));
                },
            }
            i += 1;
        }
        assert(all.take(i as int) =~= all);
        *self = work;
        Ok(())
    }

    /// Returns the database to what it was at `commit`: the ledger forgets
    /// every later commit, and every store loses the rows stored later and
    /// has the rows closed later current again.  A commit that was never
    /// applied is refused and nothing changes.
    pub fn rollback_to(&mut self, commit: i64) -> (result: Result<(), VersionError>)
        requires
            old(self).well_formed(),
        ensures
            final(self).well_formed(),
            match rollback_step(old(self).deep_view(), commit) {
                Ok(after) => result is Ok && final(self).deep_view() == after,
                Err(error) => result == Err::<(), VersionError>(error) && final(self).deep_view()
                    == old(self).deep_view(),
            },
    {
        let ghost before = self.deep_view();
        match self.ledger.rollback_to(commit) {
            Ok(()) => {},
            Err(error) => {
                return Err(error);
            },
        }
        self.pike.rollback_to(commit);
        self.locations.rollback_to(commit);
        self.products.rollback_to(commit);
        self.schemas.rollback_to(commit);
        proof {
            lemma_rolled_back_is_settled(before.agents.roots, commit);
            lemma_rolled_back_is_settled(before.agents.children, commit);
            lemma_rolled_back_is_settled(before.organizations.roots, commit);
            lemma_rolled_back_is_settled(before.organizations.children, commit);
            lemma_rolled_back_is_settled(before.locations.roots, commit);
            lemma_rolled_back_is_settled(before.locations.children, commit);
            lemma_rolled_back_is_settled(before.products.roots, commit);
            lemma_rolled_back_is_settled(before.products.children, commit);
            lemma_rolled_back_is_settled(before.schemas.roots, commit);
            lemma_rolled_back_is_settled(before.schemas.children, commit);
        }
        Ok(())
    }
}

/// A change does not read the chain of commits.
pub proof fn lemma_delta_ignores_ledger(
    database: DatabaseView,
    ledger: Seq<i64>,
    delta: DeltaView,
    commit: i64,
)
    ensures
        delta_step(DatabaseView { ledger, ..database }, delta, commit) == match delta_step(
            database,
            delta,
            commit,
        ) {
            Ok(after) => Ok(DatabaseView { ledger, ..after }),
            Err(error) => Err(error),
        },
{
}

/// Removes every row of every table, and every commit of the ledger.
pub fn clear_database(conn: &mut Database)
    ensures
        final(conn).well_formed(),
        final(conn).deep_view() == no_database(),
{
    conn.pike.clear();
    conn.locations.clear();
    conn.products.clear();
    conn.schemas.clear();
    conn.ledger.clear();
}

/// One batch from the ledger.
pub struct BatchView {
    pub commit: i64,
    pub predecessor: i64,
    pub deltas: Seq<DeltaView>,
}

/// The database after a batch.  A batch that is refused leaves it as it is.
pub open spec fn applied(database: DatabaseView, batch: BatchView) -> DatabaseView {
    match batch_step(database, batch.commit, batch.predecessor, batch.deltas) {
        Ok(after) => after,
        Err(_) => database,
    }
}

/// The database after a sequence of batches.
pub open spec fn replayed(database: DatabaseView, batches: Seq<BatchView>) -> DatabaseView
    decreases batches.len(),
{
    if batches.len() == 0 {
        database
    } else {
        applied(replayed(database, batches.drop_last()), batches.last())
    }
}

/// The stores as they were at `commit`.
pub open spec fn stores_rolled_back(database: DatabaseView, commit: i64) -> DatabaseView {
    DatabaseView {
        ledger: database.ledger,
        agents: tables_rolled_back(database.agents, commit),
        organizations: tables_rolled_back(database.organizations, commit),
        locations: tables_rolled_back(database.locations, commit),
        products: tables_rolled_back(database.products, commit),
        schemas: tables_rolled_back(database.schemas, commit),
    }
}

/// A change keeps the invariants of the stores, and does not show in the
/// stores as they were at an earlier commit.
pub proof fn lemma_delta_keeps(database: DatabaseView, delta: DeltaView, commit: i64, earlier: i64)
    requires
        stores_consistent(database),
        earlier < commit,
    ensures
        delta_step(database, delta, commit) matches Ok(after) ==> {
            &&& stores_consistent(after)
            &&& stores_rolled_back(after, earlier) == stores_rolled_back(database, earlier)
        },
{
    match delta {
        DeltaView::Agent(write) => {
            law_operation_keeps_invariant(database.agents, written(write, commit));
            law_rollback_forgets_write(database.agents, written(write, commit), earlier);
        },
        DeltaView::Organization(write) => {
            law_operation_keeps_invariant(database.organizations, written(write, commit));
            law_rollback_forgets_write(database.organizations, written(write, commit), earlier);
        },
        DeltaView::Location(write) => {
            law_operation_keeps_invariant(database.locations, written(write, commit));
            law_rollback_forgets_write(database.locations, written(write, commit), earlier);
        },
        DeltaView::Product(write) => {
            law_operation_keeps_invariant(database.products, written(write, commit));
            law_rollback_forgets_write(database.products, written(write, commit), earlier);
        },
        DeltaView::Schema(write) => {
            law_operation_keeps_invariant(database.schemas, written(write, commit));
            law_rollback_forgets_write(database.schemas, written(write, commit), earlier);
        },
    }
}

/// The changes of a batch keep the invariants of the stores, leave nothing
/// that happened after the commit of the batch, and do not show in the
/// stores as they were at an earlier commit.
pub proof fn lemma_deltas_keep(
    database: DatabaseView,
    deltas: Seq<DeltaView>,
    commit: i64,
    earlier: i64,
)
    requires
        stores_consistent(database),
        database_settled(database, earlier),
        earlier < commit,
    ensures
        deltas_step(database, deltas, commit) matches Ok(after) ==> {
            &&& stores_consistent(after)
            &&& database_settled(after, commit)
            &&& after.ledger == database.ledger
            &&& stores_rolled_back(after, earlier) == stores_rolled_back(database, earlier)
        },
    decreases deltas.len(),
{
    if deltas.len() == 0 {
        lemma_delta_settles(
            database,
            DeltaView::Agent(Write::Delete { key: Seq::empty(), tenant: None }),
            earlier,
            commit,
        );
    } else {
        lemma_deltas_keep(database, deltas.drop_last(), commit, earlier);
        match deltas_step(database, deltas.drop_last(), commit) {
            Ok(between) => {
                lemma_delta_keeps(between, deltas.last(), commit, earlier);
                lemma_delta_settles(between, deltas.last(), commit, commit);
            },
            Err(_) => {},
        }
    }
}

/// A batch keeps the invariant of the database.
pub proof fn law_batch_keeps_invariant(
    database: DatabaseView,
    commit: i64,
    predecessor: i64,
    deltas: Seq<DeltaView>,
)
    requires
        database_consistent(database),
    ensures
        batch_step(database, commit, predecessor, deltas) matches Ok(after) ==> database_consistent(
            after,
        ),
{
    if batch_step(database, commit, predecessor, deltas) is Ok {
        lemma_deltas_keep(database, deltas, commit, predecessor);
    }
}

/// After any sequence of batches on an empty database, the invariant of
/// the database holds: in every store every fact has at most one current
/// version and no two versions of a fact overlap.
pub proof fn law_invariant_after_any_batches(batches: Seq<BatchView>)
    ensures
        database_consistent(replayed(no_database(), batches)),
    decreases batches.len(),
{
    if batches.len() > 0 {
        law_invariant_after_any_batches(batches.drop_last());
        let before = replayed(no_database(), batches.drop_last());
        let batch = batches.last();
        law_batch_keeps_invariant(before, batch.commit, batch.predecessor, batch.deltas);
    }
}

/// What replaying batches on a consistent database keeps: the invariant,
/// the chain that was there as a prefix of the chain, and the stores as
/// they were at the head of that chain.
proof fn lemma_replayed_extends(database: DatabaseView, batches: Seq<BatchView>)
    requires
        database_consistent(database),
    ensures
        database_consistent(replayed(database, batches)),
        database.ledger.len() <= replayed(database, batches).ledger.len(),
        replayed(database, batches).ledger.subrange(0, database.ledger.len() as int)
            == database.ledger,
        chain_height(database.ledger) <= chain_height(replayed(database, batches).ledger),
        stores_rolled_back(replayed(database, batches), chain_height(database.ledger)).agents
            == stores_rolled_back(database, chain_height(database.ledger)).agents,
        stores_rolled_back(
            replayed(database, batches),
            chain_height(database.ledger),
        ).organizations == stores_rolled_back(
            database,
            chain_height(database.ledger),
        ).organizations,
        stores_rolled_back(replayed(database, batches), chain_height(database.ledger)).locations
            == stores_rolled_back(database, chain_height(database.ledger)).locations,
        stores_rolled_back(replayed(database, batches), chain_height(database.ledger)).products
            == stores_rolled_back(database, chain_height(database.ledger)).products,
        stores_rolled_back(replayed(database, batches), chain_height(database.ledger)).schemas
            == stores_rolled_back(database, chain_height(database.ledger)).schemas,
    decreases batches.len(),
{
    let head = chain_height(database.ledger);
    if batches.len() == 0 {
        assert(database.ledger.subrange(0, database.ledger.len() as int) =~= database.ledger);
    } else {
        lemma_replayed_extends(database, batches.drop_last());
        let before = replayed(database, batches.drop_last());
        let batch = batches.last();
        match batch_step(before, batch.commit, batch.predecessor, batch.deltas) {
            Ok(after) => {
                law_batch_keeps_invariant(before, batch.commit, batch.predecessor, batch.deltas);
                lemma_deltas_keep(before, batch.deltas, batch.commit, batch.predecessor);
                lemma_deltas_unseen(before, batch.deltas, batch.commit, head);
                assert(after.ledger.subrange(0, database.ledger.len() as int)
                    =~= before.ledger.subrange(0, database.ledger.len() as int));
            },
            Err(_) => {},
        }
    }
}

/// The changes of a batch do not show in the stores as they were at an
/// earlier commit.
proof fn lemma_deltas_unseen(
    database: DatabaseView,
    deltas: Seq<DeltaView>,
    commit: i64,
    earlier: i64,
)
    requires
        stores_consistent(database),
        earlier < commit,
    ensures
        deltas_step(database, deltas, commit) matches Ok(after) ==> {
            &&& stores_consistent(after)
            &&& stores_rolled_back(after, earlier) == stores_rolled_back(database, earlier)
        },
    decreases deltas.len(),
{
    if deltas.len() > 0 {
        lemma_deltas_unseen(database, deltas.drop_last(), commit, earlier);
        match deltas_step(database, deltas.drop_last(), commit) {
            Ok(between) => {
                lemma_delta_keeps(between, deltas.last(), commit, earlier);
            },
            Err(_) => {},
        }
    }
}

/// Fork rollback: whatever batches were applied to a database, or refused,
/// a rollback to the commit that was its head then gives that database
/// back: the same chain of commits and, row for row, the same tables.
pub proof fn law_fork_rollback(database: DatabaseView, batches: Seq<BatchView>)
    requires
        database_consistent(database),
    ensures
        rollback_step(replayed(database, batches), chain_height(database.ledger)) == Ok::<
            DatabaseView,
            VersionError,
        >(database),
{
    let head = chain_height(database.ledger);
    let later = replayed(database, batches);
    let kept = database.ledger.len() as int;
    lemma_replayed_extends(database, batches);
    assert forall|j: int| 0 <= j < kept implies later.ledger[j] <= head by {
        assert(later.ledger[j] == later.ledger.subrange(0, kept)[j]);
    }
    if kept < later.ledger.len() {
        if kept > 0 {
            assert(later.ledger[kept - 1] == later.ledger.subrange(0, kept)[kept - 1]);
        }
    }
    lemma_rolled_back_is_prefix(later.ledger, head, kept);
    if kept > 0 {
        assert(later.ledger[kept - 1] == later.ledger.subrange(0, kept)[kept - 1]);
        assert(later.ledger.contains(head));
    }
    lemma_rolled_back_settled(database.agents.roots, head);
    lemma_rolled_back_settled(database.agents.children, head);
    lemma_rolled_back_settled(database.organizations.roots, head);
    lemma_rolled_back_settled(database.organizations.children, head);
    lemma_rolled_back_settled(database.locations.roots, head);
    lemma_rolled_back_settled(database.locations.children, head);
    lemma_rolled_back_settled(database.products.roots, head);
    lemma_rolled_back_settled(database.products.children, head);
    lemma_rolled_back_settled(database.schemas.roots, head);
    lemma_rolled_back_settled(database.schemas.children, head);
}

/// After a fork is detected and the database is rolled back to the
/// predecessor of the refused batch, the ledger accepts the commit of that
/// batch.
pub proof fn law_rollback_then_retry(
    database: DatabaseView,
    commit: i64,
    predecessor: i64,
    deltas: Seq<DeltaView>,
)
    requires
        database_consistent(database),
        predecessor < commit < MAX_COMMIT_NUM,
        rollback_step(database, predecessor) is Ok,
    ensures
        rollback_step(database, predecessor) matches Ok(after) && !(batch_step(
            after,
            commit,
            predecessor,
            deltas,
        ) matches Err(BatchErrorView::Version(_))),
{
    lemma_rolled_back_height(database.ledger, predecessor);
}

} // verus!
