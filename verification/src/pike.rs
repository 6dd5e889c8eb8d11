//! Agents and organizations, and the store that keeps their versions.

use vstd::prelude::*;
use crate::entity::{
    Child, ChildKey, ChildKeyView, ChildView, EntityStore, Fault, Tables, Version, add_step,
    consistent, fetched, listing, no_tables, remove_step, tables_rolled_back, update_step,
    version_views,
};
use crate::error::{EntityKind, StoreError, StoreErrorView};
use crate::laws::{
    law_add_then_fetch, law_delete_then_fetch, law_tenant_isolation,
    law_update_preserves_history, stored_version,
};
use crate::ledger::MAX_COMMIT_NUM;
use crate::payload::{Payload, owned_scope, scope_view};
use crate::table::{Row, RowView};

verus! {

/// An agent: a key that acts for an organization, in some roles.
#[derive(Clone, Debug, PartialEq)]
pub struct Agent {
    pub public_key: String,
    pub org_id: String,
    pub active: bool,
    pub metadata: Vec<u8>,
    pub roles: Vec<String>,
    // The commits between which this version is valid.
    pub start_commit_num: i64,
    pub end_commit_num: i64,
    pub service_id: Option<String>,
}

/// The view of an agent.
pub struct AgentView {
    pub public_key: Seq<char>,
    pub org_id: Seq<char>,
    pub active: bool,
    pub metadata: Seq<u8>,
    pub roles: Seq<Seq<char>>,
    pub start_commit_num: i64,
    pub end_commit_num: i64,
    pub service_id: Option<Seq<char>>,
}

impl DeepView for Agent {
    type V = AgentView;

    open spec fn deep_view(&self) -> AgentView {
        AgentView {
            public_key: self.public_key.deep_view(),
            org_id: self.org_id.deep_view(),
            active: self.active,
            metadata: self.metadata.deep_view(),
            roles: self.roles.deep_view(),
            start_commit_num: self.start_commit_num,
            end_commit_num: self.end_commit_num,
            service_id: self.service_id.deep_view(),
        }
    }
}

impl Payload for Agent {
    fn duplicate(&self) -> (copy: Self) {
        Agent {
            public_key: self.public_key.duplicate(),
            org_id: self.org_id.duplicate(),
            active: self.active,
            metadata: self.metadata.duplicate(),
            roles: self.roles.duplicate(),
            start_commit_num: self.start_commit_num,
            end_commit_num: self.end_commit_num,
            service_id: self.service_id.duplicate(),
        }
    }
}

/// One role of one agent, as a versioned fact of its own.
#[derive(Clone, Debug, PartialEq)]
pub struct Role {
    pub public_key: String,
    pub role_name: String,
    // The commits between which this version is valid.
    pub start_commit_num: i64,
    pub end_commit_num: i64,
    pub service_id: Option<String>,
}

/// The view of a role.
pub struct RoleView {
    pub public_key: Seq<char>,
    pub role_name: Seq<char>,
    pub start_commit_num: i64,
    pub end_commit_num: i64,
    pub service_id: Option<Seq<char>>,
}

impl DeepView for Role {
    type V = RoleView;

    open spec fn deep_view(&self) -> RoleView {
        RoleView {
            public_key: self.public_key.deep_view(),
            role_name: self.role_name.deep_view(),
            start_commit_num: self.start_commit_num,
            end_commit_num: self.end_commit_num,
            service_id: self.service_id.deep_view(),
        }
    }
}

/// An organization.
#[derive(Clone, Debug, PartialEq)]
pub struct Organization {
    pub org_id: String,
    pub name: String,
    pub address: String,
    pub metadata: Vec<u8>,
    // The commits between which this version is valid.
    pub start_commit_num: i64,
    pub end_commit_num: i64,
    pub service_id: Option<String>,
}

/// The view of an organization.
pub struct OrganizationView {
    pub org_id: Seq<char>,
    pub name: Seq<char>,
    pub address: Seq<char>,
    pub metadata: Seq<u8>,
    pub start_commit_num: i64,
    pub end_commit_num: i64,
    pub service_id: Option<Seq<char>>,
}

impl DeepView for Organization {
    type V = OrganizationView;

    open spec fn deep_view(&self) -> OrganizationView {
        OrganizationView {
            org_id: self.org_id.deep_view(),
            name: self.name.deep_view(),
            address: self.address.deep_view(),
            metadata: self.metadata.deep_view(),
            start_commit_num: self.start_commit_num,
            end_commit_num: self.end_commit_num,
            service_id: self.service_id.deep_view(),
        }
    }
}

impl Payload for Organization {
    fn duplicate(&self) -> (copy: Self) {
        Organization {
            org_id: self.org_id.duplicate(),
            name: self.name.duplicate(),
            address: self.address.duplicate(),
            metadata: self.metadata.duplicate(),
            start_commit_num: self.start_commit_num,
            end_commit_num: self.end_commit_num,
            service_id: self.service_id.duplicate(),
        }
    }
}

/// What the root row of an agent holds.
#[derive(Debug, PartialEq)]
pub struct AgentPayload {
    pub org_id: String,
    pub active: bool,
    pub metadata: Vec<u8>,
}

/// The view of the root row of an agent.
pub struct AgentPayloadView {
    pub org_id: Seq<char>,
    pub active: bool,
    pub metadata: Seq<u8>,
}

impl DeepView for AgentPayload {
    type V = AgentPayloadView;

    open spec fn deep_view(&self) -> AgentPayloadView {
        AgentPayloadView {
            org_id: self.org_id.deep_view(),
            active: self.active,
            metadata: self.metadata.deep_view(),
        }
    }
}

impl Payload for AgentPayload {
    fn duplicate(&self) -> (copy: Self) {
        AgentPayload {
            org_id: self.org_id.duplicate(),
            active: self.active,
            metadata: self.metadata.duplicate(),
        }
    }
}

/// What the row of an organization holds.
#[derive(Debug, PartialEq)]
pub struct OrganizationPayload {
    pub name: String,
    pub address: String,
    pub metadata: Vec<u8>,
}

/// The view of the row of an organization.
pub struct OrganizationPayloadView {
    pub name: Seq<char>,
    pub address: Seq<char>,
    pub metadata: Seq<u8>,
}

impl DeepView for OrganizationPayload {
    type V = OrganizationPayloadView;

    open spec fn deep_view(&self) -> OrganizationPayloadView {
        OrganizationPayloadView {
            name: self.name.deep_view(),
            address: self.address.deep_view(),
            metadata: self.metadata.deep_view(),
        }
    }
}

impl Payload for OrganizationPayload {
    fn duplicate(&self) -> (copy: Self) {
        OrganizationPayload {
            name: self.name.duplicate(),
            address: self.address.duplicate(),
            metadata: self.metadata.duplicate(),
        }
    }
}

/// The tables of agents: a root row for each agent, a child row for each role.
pub type AgentTables = Tables<AgentPayloadView, ()>;

/// The tables of organizations: a root row for each, and no child rows.
pub type OrganizationTables = Tables<OrganizationPayloadView, ()>;

/// The root payload that stands for an agent.
pub open spec fn agent_payload(agent: AgentView) -> AgentPayloadView {
    AgentPayloadView { org_id: agent.org_id, active: agent.active, metadata: agent.metadata }
}

/// The children that stand for the roles of an agent, in their order.
pub open spec fn agent_children(agent: AgentView) -> Seq<ChildView<()>> {
    Seq::new(
        agent.roles.len(),
        |i: int| ChildView { parent: None, name: agent.roles[i], payload: () },
    )
}

/// The agent that a stored version stands for.
pub open spec fn agent_of(version: Version<AgentPayloadView, ()>) -> AgentView {
    AgentView {
        public_key: version.0.key,
        org_id: version.0.payload.org_id,
        active: version.0.payload.active,
        metadata: version.0.payload.metadata,
        roles: version.1.map_values(|role: RowView<ChildKeyView, ()>| role.key.name),
        start_commit_num: version.0.start_commit_num,
        end_commit_num: version.0.end_commit_num,
        service_id: version.0.service_id,
    }
}

/// The role that a stored child row of an agent stands for.
pub open spec fn role_of(row: RowView<ChildKeyView, ()>) -> RoleView {
    RoleView {
        public_key: row.key.owner,
        role_name: row.key.name,
        start_commit_num: row.start_commit_num,
        end_commit_num: row.end_commit_num,
        service_id: row.service_id,
    }
}

/// The row payload that stands for an organization.
pub open spec fn organization_payload(organization: OrganizationView) -> OrganizationPayloadView {
    OrganizationPayloadView {
        name: organization.name,
        address: organization.address,
        metadata: organization.metadata,
    }
}

/// The organization that a stored version stands for.
pub open spec fn organization_of(version: Version<OrganizationPayloadView, ()>) -> OrganizationView {
    OrganizationView {
        org_id: version.0.key,
        name: version.0.payload.name,
        address: version.0.payload.address,
        metadata: version.0.payload.metadata,
        start_commit_num: version.0.start_commit_num,
        end_commit_num: version.0.end_commit_num,
        service_id: version.0.service_id,
    }
}

/// The error of an operation on the agent `key`.
pub open spec fn agent_error(fault: Fault, key: Seq<char>) -> StoreErrorView {
    StoreErrorView { fault, entity: EntityKind::Agent, key }
}

/// The error of an operation on the organization `key`.
pub open spec fn organization_error(fault: Fault, key: Seq<char>) -> StoreErrorView {
    StoreErrorView { fault, entity: EntityKind::Organization, key }
}

impl Agent {
    /// The children that stand for the roles of the agent.
    fn role_rows(&self) -> (rows: Vec<Child<()>>)
        ensures
            rows.deep_view() == agent_children(self.deep_view()),
    {
        let mut rows: Vec<Child<()>> = Vec::new();
        let mut i: usize = 0;
        while i < self.roles.len()
            invariant
                i <= self.roles.len(),
                rows.len() == i,
                forall|j: int|
                    0 <= j < i ==> (#[trigger] rows[j]).deep_view() == agent_children(
                        self.deep_view(),
                    )[j],
            decreases self.roles.len() - i,
        {
            rows.push(Child { parent: None, name: self.roles[i].duplicate(), payload: () });
            i += 1;
        }
        assert(rows.deep_view() =~= agent_children(self.deep_view()));
        rows
    }

    /// The agent that a root row and the rows of its roles stand for.
    pub fn from_models(agent: &Row<String, AgentPayload>, roles: &Vec<Row<ChildKey, ()>>) -> (result:
        Agent)
        ensures
            result.deep_view() == agent_of((agent.deep_view(), roles.deep_view())),
    {
        let mut names: Vec<String> = Vec::new();
        let mut i: usize = 0;
        while i < roles.len()
            invariant
                i <= roles.len(),
                names.len() == i,
                forall|j: int|
                    0 <= j < i ==> (#[trigger] names[j]).deep_view() == roles[j].key.name.deep_view(),
            decreases roles.len() - i,
        {
            names.push(roles[i].key.name.duplicate());
            i += 1;
        }
        let result = Agent {
            public_key: agent.key.duplicate(),
            org_id: agent.payload.org_id.duplicate(),
            active: agent.payload.active,
            metadata: agent.payload.metadata.duplicate(),
            roles: names,
            start_commit_num: agent.start_commit_num,
            end_commit_num: agent.end_commit_num,
            service_id: agent.service_id.duplicate(),
        };
        assert(result.deep_view().roles =~= agent_of((agent.deep_view(), roles.deep_view())).roles);
        result
    }
}

impl Role {
    /// The role that a child row of an agent stands for.
    pub fn from_model(role: &Row<ChildKey, ()>) -> (result: Role)
        ensures
            result.deep_view() == role_of(role.deep_view()),
    {
        Role {
            public_key: role.key.owner.duplicate(),
            role_name: role.key.name.duplicate(),
            start_commit_num: role.start_commit_num,
            end_commit_num: role.end_commit_num,
            service_id: role.service_id.duplicate(),
        }
    }
}

impl Organization {
    /// The organization that a row stands for.
    pub fn from_model(organization: &Row<String, OrganizationPayload>) -> (result: Organization)
        ensures
            forall|children: Seq<RowView<ChildKeyView, ()>>|
                result.deep_view() == #[trigger] organization_of(
                    (organization.deep_view(), children),
                ),
    {
        Organization {
            org_id: organization.key.duplicate(),
            name: organization.payload.name.duplicate(),
            address: organization.payload.address.duplicate(),
            metadata: organization.payload.metadata.duplicate(),
            start_commit_num: organization.start_commit_num,
            end_commit_num: organization.end_commit_num,
            service_id: organization.service_id.duplicate(),
        }
    }
}

/// The view of the store of agents and organizations.
pub struct PikeView {
    pub agents: AgentTables,
    pub organizations: OrganizationTables,
}

/// What adding an agent at `commit` does to the tables of agents.
pub open spec fn add_agent_step(tables: AgentTables, agent: AgentView, commit: i64) -> Result<
    AgentTables,
    StoreErrorView,
> {
    match add_step(
        tables,
        agent.public_key,
        agent.service_id,
        commit,
        agent_payload(agent),
        agent_children(agent),
    ) {
        Ok(after) => Ok(after),
        Err(fault) => Err(agent_error(fault, agent.public_key)),
    }
}

/// What replacing an agent at `commit` does to the tables of agents.
pub open spec fn update_agent_step(tables: AgentTables, agent: AgentView, commit: i64) -> Result<
    AgentTables,
    StoreErrorView,
> {
    match update_step(
        tables,
        agent.public_key,
        agent.service_id,
        commit,
        agent_payload(agent),
        agent_children(agent),
    ) {
        Ok(after) => Ok(after),
        Err(fault) => Err(agent_error(fault, agent.public_key)),
    }
}

/// What deleting an agent at `commit` does to the tables of agents.
pub open spec fn delete_agent_step(
    tables: AgentTables,
    public_key: Seq<char>,
    tenant: Option<Seq<char>>,
    commit: i64,
) -> Result<AgentTables, StoreErrorView> {
    match remove_step(tables, public_key, tenant, commit) {
        Ok(after) => Ok(after),
        Err(fault) => Err(agent_error(fault, public_key)),
    }
}

/// The agent that a read of `public_key` in `tenant` at `at` gives.
pub open spec fn agent_at(
    tables: AgentTables,
    public_key: Seq<char>,
    tenant: Option<Seq<char>>,
    at: Option<i64>,
) -> Result<AgentView, StoreErrorView> {
    match fetched(tables, public_key, tenant, at) {
        Some(version) => Ok(agent_of(version)),
        None => Err(agent_error(Fault::NotFound, public_key)),
    }
}

/// The agents of `tenant` at `at`.
pub open spec fn agents_at(tables: AgentTables, tenant: Option<Seq<char>>, at: Option<i64>) -> Seq<
    AgentView,
> {
    listing(tables, tenant, at).map_values(|version: Version<AgentPayloadView, ()>| agent_of(version))
}

/// What adding an organization at `commit` does to the tables of organizations.
pub open spec fn add_organization_step(
    tables: OrganizationTables,
    organization: OrganizationView,
    commit: i64,
) -> Result<OrganizationTables, StoreErrorView> {
    match add_step(
        tables,
        organization.org_id,
        organization.service_id,
        commit,
        organization_payload(organization),
        Seq::<ChildView<()>>::empty(),
    ) {
        Ok(after) => Ok(after),
        Err(fault) => Err(organization_error(fault, organization.org_id)),
    }
}

/// What adding organizations at `commit`, one after the other, does.  The
/// first that cannot be added refuses them all.
pub open spec fn add_organizations_step(
    tables: OrganizationTables,
    organizations: Seq<OrganizationView>,
    commit: i64,
) -> Result<OrganizationTables, StoreErrorView>
    decreases organizations.len(),
{
    if organizations.len() == 0 {
        Ok(tables)
    } else {
        match add_organizations_step(tables, organizations.drop_last(), commit) {
            Ok(between) => add_organization_step(between, organizations.last(), commit),
            Err(error) => Err(error),
        }
    }
}

/// What replacing an organization at `commit` does.
pub open spec fn update_organization_step(
    tables: OrganizationTables,
    organization: OrganizationView,
    commit: i64,
) -> Result<OrganizationTables, StoreErrorView> {
    match update_step(
        tables,
        organization.org_id,
        organization.service_id,
        commit,
        organization_payload(organization),
        Seq::<ChildView<()>>::empty(),
    ) {
        Ok(after) => Ok(after),
        Err(fault) => Err(organization_error(fault, organization.org_id)),
    }
}

/// What deleting an organization at `commit` does.
pub open spec fn delete_organization_step(
    tables: OrganizationTables,
    org_id: Seq<char>,
    tenant: Option<Seq<char>>,
    commit: i64,
) -> Result<OrganizationTables, StoreErrorView> {
    match remove_step(tables, org_id, tenant, commit) {
        Ok(after) => Ok(after),
        Err(fault) => Err(organization_error(fault, org_id)),
    }
}

/// The organization that a read of `org_id` in `tenant` at `at` gives.
pub open spec fn organization_at(
    tables: OrganizationTables,
    org_id: Seq<char>,
    tenant: Option<Seq<char>>,
    at: Option<i64>,
) -> Result<OrganizationView, StoreErrorView> {
    match fetched(tables, org_id, tenant, at) {
        Some(version) => Ok(organization_of(version)),
        None => Err(organization_error(Fault::NotFound, org_id)),
    }
}

/// The organizations of `tenant` at `at`.
pub open spec fn organizations_at(
    tables: OrganizationTables,
    tenant: Option<Seq<char>>,
    at: Option<i64>,
) -> Seq<OrganizationView> {
    listing(tables, tenant, at).map_values(
        |version: Version<OrganizationPayloadView, ()>| organization_of(version),
    )
}

/// Once a prefix of the organizations is refused, all of them are.
pub proof fn lemma_add_organizations_refused(
    tables: OrganizationTables,
    organizations: Seq<OrganizationView>,
    commit: i64,
    n: int,
)
    requires
        0 <= n <= organizations.len(),
        add_organizations_step(tables, organizations.take(n), commit) is Err,
    ensures
        add_organizations_step(tables, organizations, commit) == add_organizations_step(
            tables,
            organizations.take(n),
            commit,
        ),
    decreases organizations.len() - n,
{
    if n < organizations.len() {
        assert(organizations.take(n + 1).drop_last() =~= organizations.take(n));
        lemma_add_organizations_refused(tables, organizations, commit, n + 1);
    } else {
        assert(organizations.take(n) =~= organizations);
    }
}

/// The store of agents and organizations.
#[derive(Debug, PartialEq)]
pub struct PikeStore {
    agents: EntityStore<AgentPayload, ()>,
    organizations: EntityStore<OrganizationPayload, ()>,
}

impl DeepView for PikeStore {
    type V = PikeView;

    closed spec fn deep_view(&self) -> PikeView {
        PikeView {
            agents: self.agents.deep_view(),
            organizations: self.organizations.deep_view(),
        }
    }
}

impl PikeStore {
    /// The invariant of the store.
    pub open spec fn well_formed(&self) -> bool {
        consistent(self.deep_view().agents) && consistent(self.deep_view().organizations)
    }

    /// A store that holds nothing.
    pub fn new() -> (store: Self)
        ensures
            store.well_formed(),
            store.deep_view().agents == no_tables::<AgentPayloadView, ()>(),
            store.deep_view().organizations == no_tables::<OrganizationPayloadView, ()>(),
    {
        PikeStore { agents: EntityStore::new(), organizations: EntityStore::new() }
    }

    /// Adds an agent, with its roles, as the version that starts at `commit`.
    /// The commit numbers that `agent` carries are not read.
    pub fn add_agent(&mut self, agent: Agent, commit: i64) -> (result: Result<(), StoreError>)
        requires
            old(self).well_formed(),
        ensures
            final(self).well_formed(),
            final(self).deep_view().organizations == old(self).deep_view().organizations,
            match add_agent_step(old(self).deep_view().agents, agent.deep_view(), commit) {
                Ok(tables) => result is Ok && final(self).deep_view().agents == tables,
                Err(error) => {
                    &&& result matches Err(refusal) && refusal.deep_view() == error
                    &&& final(self).deep_view().agents == old(self).deep_view().agents
                },
            },
    {
        let roles = agent.role_rows();
        let key = agent.public_key.duplicate();
        let payload = AgentPayload {
            org_id: agent.org_id,
            active: agent.active,
            metadata: agent.metadata,
        };
        match self.agents.add(agent.public_key, agent.service_id, commit, payload, roles) {
            Ok(()) => Ok(()),
            Err(fault) => Err(StoreError::new(fault, EntityKind::Agent, &key)),
        }
    }

    /// Replaces an agent, with its roles, by the version that starts at
    /// `commit`.
    pub fn update_agent(&mut self, agent: Agent, commit: i64) -> (result: Result<(), StoreError>)
        requires
            old(self).well_formed(),
        ensures
            final(self).well_formed(),
            final(self).deep_view().organizations == old(self).deep_view().organizations,
            match update_agent_step(old(self).deep_view().agents, agent.deep_view(), commit) {
                Ok(tables) => result is Ok && final(self).deep_view().agents == tables,
                Err(error) => {
                    &&& result matches Err(refusal) && refusal.deep_view() == error
                    &&& final(self).deep_view().agents == old(self).deep_view().agents
                },
            },
    {
        let roles = agent.role_rows();
        let key = agent.public_key.duplicate();
        let payload = AgentPayload {
            org_id: agent.org_id,
            active: agent.active,
            metadata: agent.metadata,
        };
        match self.agents.update(agent.public_key, agent.service_id, commit, payload, roles) {
            Ok(()) => Ok(()),
            Err(fault) => Err(StoreError::new(fault, EntityKind::Agent, &key)),
        }
    }

    /// Closes the current version of an agent, and of its roles, at `commit`.
    pub fn delete_agent(&mut self, public_key: &str, service_id: Option<&str>, commit: i64) -> (result:
        Result<(), StoreError>)
        requires
            old(self).well_formed(),
        ensures
            final(self).well_formed(),
            final(self).deep_view().organizations == old(self).deep_view().organizations,
            match delete_agent_step(
                old(self).deep_view().agents,
                public_key@,
                scope_view(service_id),
                commit,
            ) {
                Ok(tables) => result is Ok && final(self).deep_view().agents == tables,
                Err(error) => {
                    &&& result matches Err(refusal) && refusal.deep_view() == error
                    &&& final(self).deep_view().agents == old(self).deep_view().agents
                },
            },
    {
        let key = public_key.to_owned();
        let tenant = owned_scope(service_id);
        match self.agents.remove(&key, &tenant, commit) {
            Ok(()) => Ok(()),
            Err(fault) => Err(StoreError::new(fault, EntityKind::Agent, &key)),
        }
    }

    /// The current version of an agent, with its current roles.
    pub fn fetch_agent(&self, public_key: &str, service_id: Option<&str>) -> (result: Result<
        Agent,
        StoreError,
    >)
        requires
            self.well_formed(),
        ensures
            match agent_at(self.deep_view().agents, public_key@, scope_view(service_id), None) {
                Ok(agent) => result matches Ok(found) && found.deep_view() == agent,
                Err(error) => result matches Err(refusal) && refusal.deep_view() == error,
            },
    {
        self.read_agent(public_key, service_id, None)
    }

    /// The version of an agent that was valid at `commit`, with the roles it
    /// had then.
    pub fn fetch_agent_as_of(&self, public_key: &str, service_id: Option<&str>, commit: i64) -> (result:
        Result<Agent, StoreError>)
        requires
            self.well_formed(),
        ensures
            match agent_at(
                self.deep_view().agents,
                public_key@,
                scope_view(service_id),
                Some(commit),
            ) {
                Ok(agent) => result matches Ok(found) && found.deep_view() == agent,
                Err(error) => result matches Err(refusal) && refusal.deep_view() == error,
            },
    {
        self.read_agent(public_key, service_id, Some(commit))
    }

    fn read_agent(&self, public_key: &str, service_id: Option<&str>, at: Option<i64>) -> (result:
        Result<Agent, StoreError>)
        requires
            self.well_formed(),
        ensures
            match agent_at(self.deep_view().agents, public_key@, scope_view(service_id), at) {
                Ok(agent) => result matches Ok(found) && found.deep_view() == agent,
                Err(error) => result matches Err(refusal) && refusal.deep_view() == error,
            },
    {
        let key = public_key.to_owned();
        let tenant = owned_scope(service_id);
        match self.agents.fetch(&key, &tenant, at) {
            Ok(version) => Ok(Agent::from_models(&version.0, &version.1)),
            Err(fault) => Err(StoreError::new(fault, EntityKind::Agent, &key)),
        }
    }

    /// The current agents of `service_id`, in the order in which they were
    /// stored.
    pub fn list_agents(&self, service_id: Option<&str>) -> (agents: Vec<Agent>)
        ensures
            agents.deep_view() == agents_at(self.deep_view().agents, scope_view(service_id), None),
    {
        let tenant = owned_scope(service_id);
        let versions = self.agents.list(&tenant, None);
        let ghost target = agents_at(self.deep_view().agents, scope_view(service_id), None);
        let mut agents: Vec<Agent> = Vec::new();
        let mut i: usize = 0;
        while i < versions.len()
            invariant
                i <= versions.len(),
                agents.len() == i,
                version_views(versions@) == listing(
                    self.deep_view().agents,
                    scope_view(service_id),
                    None,
                ),
                target == agents_at(self.deep_view().agents, scope_view(service_id), None),
                forall|j: int| 0 <= j < i ==> (#[trigger] agents[j]).deep_view() == target[j],
            decreases versions.len() - i,
        {
            assert(version_views(versions@)[i as int] == (
                versions[i as int].0.deep_view(),
                versions[i as int].1.deep_view(),
            ));
            agents.push(Agent::from_models(&versions[i].0, &versions[i].1));
            i += 1;
        }
        assert(agents.deep_view() =~= target);
        agents
    }

    /// The current roles of an agent, as the facts that they are.
    pub fn list_roles(&self, public_key: &str, service_id: Option<&str>) -> (result: Result<
        Vec<Role>,
        StoreError,
    >)
        requires
            self.well_formed(),
        ensures
            match fetched(self.deep_view().agents, public_key@, scope_view(service_id), None) {
                Some(version) => result matches Ok(roles) && roles.deep_view()
                    == version.1.map_values(|row: RowView<ChildKeyView, ()>| role_of(row)),
                None => result matches Err(refusal) && refusal.deep_view() == agent_error(
                    Fault::NotFound,
                    public_key@,
                ),
            },
    {
        let key = public_key.to_owned();
        let tenant = owned_scope(service_id);
        match self.agents.fetch(&key, &tenant, None) {
            Ok(version) => {
                let rows = version.1;
                let mut roles: Vec<Role> = Vec::new();
                let mut i: usize = 0;
                while i < rows.len()
                    invariant
                        i <= rows.len(),
                        roles.len() == i,
                        forall|j: int|
                            0 <= j < i ==> (#[trigger] roles[j]).deep_view() == role_of(
                                rows[j].deep_view(),
                            ),
                    decreases rows.len() - i,
                {
                    roles.push(Role::from_model(&rows[i]));
                    i += 1;
                }
                assert(roles.deep_view() =~= rows.deep_view().map_values(
                    |row: RowView<ChildKeyView, ()>| role_of(row),
                ));
                Ok(roles)
            },
            Err(fault) => Err(StoreError::new(fault, EntityKind::Agent, &key)),
        }
    }

    /// Adds an organization as the version that starts at `commit`.
    pub fn add_organization(&mut self, organization: Organization, commit: i64) -> (result: Result<
        (),
        StoreError,
    >)
        requires
            old(self).well_formed(),
        ensures
            final(self).well_formed(),
            final(self).deep_view().agents == old(self).deep_view().agents,
            match add_organization_step(
                old(self).deep_view().organizations,
                organization.deep_view(),
                commit,
            ) {
                Ok(tables) => result is Ok && final(self).deep_view().organizations == tables,
                Err(error) => {
                    &&& result matches Err(refusal) && refusal.deep_view() == error
                    &&& final(self).deep_view().organizations == old(
                        self,
                    ).deep_view().organizations
                },
            },
    {
        Self::store_organization(&mut self.organizations, organization, commit)
    }

    fn store_organization(
        organizations: &mut EntityStore<OrganizationPayload, ()>,
        organization: Organization,
        commit: i64,
    ) -> (result: Result<(), StoreError>)
        requires
            old(organizations).well_formed(),
        ensures
            final(organizations).well_formed(),
            match add_organization_step(
                old(organizations).deep_view(),
                organization.deep_view(),
                commit,
            ) {
                Ok(tables) => result is Ok && final(organizations).deep_view() == tables,
                Err(error) => {
                    &&& result matches Err(refusal) && refusal.deep_view() == error
                    &&& final(organizations).deep_view() == old(organizations).deep_view()
                },
            },
    {
        let key = organization.org_id.duplicate();
        let payload = OrganizationPayload {
            name: organization.name,
            address: organization.address,
            metadata: organization.metadata,
        };
        let children: Vec<Child<()>> = Vec::new();
        assert(children.deep_view() =~= Seq::<ChildView<()>>::empty());
        match organizations.add(organization.org_id, organization.service_id, commit, payload, children) {
            Ok(()) => Ok(()),
            Err(fault) => Err(StoreError::new(fault, EntityKind::Organization, &key)),
        }
    }

    /// Adds organizations as versions that start at `commit`: all of them
    /// or, where one cannot be added, none.
    pub fn add_organizations(&mut self, organizations: Vec<Organization>, commit: i64) -> (result:
        Result<(), StoreError>)
        requires
            old(self).well_formed(),
        ensures
            final(self).well_formed(),
            final(self).deep_view().agents == old(self).deep_view().agents,
            match add_organizations_step(
                old(self).deep_view().organizations,
                organizations.deep_view(),
                commit,
            ) {
                Ok(tables) => result is Ok && final(self).deep_view().organizations == tables,
                Err(error) => {
                    &&& result matches Err(refusal) && refusal.deep_view() == error
                    &&& final(self).deep_view().organizations == old(
                        self,
                    ).deep_view().organizations
                },
            },
    {
        let ghost before = self.deep_view().organizations;
        let ghost all = organizations.deep_view();
        let mut work = self.organizations.duplicate();
        let mut i: usize = 0;
        assert(all.take(0) =~= Seq::<OrganizationView>::empty());
        while i < organizations.len()
            invariant
                *self == *old(self),
                self.well_formed(),
                before == self.deep_view().organizations,
                all == organizations.deep_view(),
                i <= organizations.len(),
                work.well_formed(),
                add_organizations_step(before, all.take(i as int), commit) == Ok::<
                    OrganizationTables,
                    StoreErrorView,
                >(work.deep_view()),
            decreases organizations.len() - i,
        {
            let organization = organizations[i].duplicate();
            assert(all.take(i + 1).drop_last() =~= all.take(i as int));
            assert(all.take(i + 1).last() == organization.deep_view());
            match Self::store_organization(&mut work, organization, commit) {
                Ok(()) => {},
                Err(refusal) => {
                    proof {
                        lemma_add_organizations_refused(before, all, commit, i + 1);
                    }
                    return Err(refusal);
                },
            }
            i += 1;
        }
        assert(all.take(i as int) =~= all);
        self.organizations = work;
        Ok(())
    }

    /// Replaces an organization by the version that starts at `commit`.
    pub fn update_organization(&mut self, organization: Organization, commit: i64) -> (result:
        Result<(), StoreError>)
        requires
            old(self).well_formed(),
        ensures
            final(self).well_formed(),
            final(self).deep_view().agents == old(self).deep_view().agents,
            match update_organization_step(
                old(self).deep_view().organizations,
                organization.deep_view(),
                commit,
            ) {
                Ok(tables) => result is Ok && final(self).deep_view().organizations == tables,
                Err(error) => {
                    &&& result matches Err(refusal) && refusal.deep_view() == error
                    &&& final(self).deep_view().organizations == old(
                        self,
                    ).deep_view().organizations
                },
            },
    {
        let key = organization.org_id.duplicate();
        let payload = OrganizationPayload {
            name: organization.name,
            address: organization.address,
            metadata: organization.metadata,
        };
        let children: Vec<Child<()>> = Vec::new();
        assert(children.deep_view() =~= Seq::<ChildView<()>>::empty());
        match self.organizations.update(
            organization.org_id,
            organization.service_id,
            commit,
            payload,
            children,
        ) {
            Ok(()) => Ok(()),
            Err(fault) => Err(StoreError::new(fault, EntityKind::Organization, &key)),
        }
    }

    /// Closes the current version of an organization at `commit`.
    pub fn delete_organization(&mut self, org_id: &str, service_id: Option<&str>, commit: i64) -> (result:
        Result<(), StoreError>)
        requires
            old(self).well_formed(),
        ensures
            final(self).well_formed(),
            final(self).deep_view().agents == old(self).deep_view().agents,
            match delete_organization_step(
                old(self).deep_view().organizations,
                org_id@,
                scope_view(service_id),
                commit,
            ) {
                Ok(tables) => result is Ok && final(self).deep_view().organizations == tables,
                Err(error) => {
                    &&& result matches Err(refusal) && refusal.deep_view() == error
                    &&& final(self).deep_view().organizations == old(
                        self,
                    ).deep_view().organizations
                },
            },
    {
        let key = org_id.to_owned();
        let tenant = owned_scope(service_id);
        match self.organizations.remove(&key, &tenant, commit) {
            Ok(()) => Ok(()),
            Err(fault) => Err(StoreError::new(fault, EntityKind::Organization, &key)),
        }
    }

    /// The current version of an organization.
    pub fn fetch_organization(&self, org_id: &str, service_id: Option<&str>) -> (result: Result<
        Organization,
        StoreError,
    >)
        requires
            self.well_formed(),
        ensures
            match organization_at(
                self.deep_view().organizations,
                org_id@,
                scope_view(service_id),
                None,
            ) {
                Ok(organization) => result matches Ok(found) && found.deep_view() == organization,
                Err(error) => result matches Err(refusal) && refusal.deep_view() == error,
            },
    {
        self.read_organization(org_id, service_id, None)
    }

    /// The version of an organization that was valid at `commit`.
    pub fn fetch_organization_as_of(&self, org_id: &str, service_id: Option<&str>, commit: i64) -> (result:
        Result<Organization, StoreError>)
        requires
            self.well_formed(),
        ensures
            match organization_at(
                self.deep_view().organizations,
                org_id@,
                scope_view(service_id),
                Some(commit),
            ) {
                Ok(organization) => result matches Ok(found) && found.deep_view() == organization,
                Err(error) => result matches Err(refusal) && refusal.deep_view() == error,
            },
    {
        self.read_organization(org_id, service_id, Some(commit))
    }

    fn read_organization(&self, org_id: &str, service_id: Option<&str>, at: Option<i64>) -> (result:
        Result<Organization, StoreError>)
        requires
            self.well_formed(),
        ensures
            match organization_at(
                self.deep_view().organizations,
                org_id@,
                scope_view(service_id),
                at,
            ) {
                Ok(organization) => result matches Ok(found) && found.deep_view() == organization,
                Err(error) => result matches Err(refusal) && refusal.deep_view() == error,
            },
    {
        let key = org_id.to_owned();
        let tenant = owned_scope(service_id);
        match self.organizations.fetch(&key, &tenant, at) {
            Ok(version) => Ok(Organization::from_model(&version.0)),
            Err(fault) => Err(StoreError::new(fault, EntityKind::Organization, &key)),
        }
    }

    /// The current organizations of `service_id`, in the order in which they
    /// were stored.
    pub fn list_organizations(&self, service_id: Option<&str>) -> (organizations: Vec<Organization>)
        ensures
            organizations.deep_view() == organizations_at(
                self.deep_view().organizations,
                scope_view(service_id),
                None,
            ),
    {
        let tenant = owned_scope(service_id);
        let versions = self.organizations.list(&tenant, None);
        let ghost target = organizations_at(
            self.deep_view().organizations,
            scope_view(service_id),
            None,
        );
        let mut organizations: Vec<Organization> = Vec::new();
        let mut i: usize = 0;
        while i < versions.len()
            invariant
                i <= versions.len(),
                organizations.len() == i,
                version_views(versions@) == listing(
                    self.deep_view().organizations,
                    scope_view(service_id),
                    None,
                ),
                target == organizations_at(
                    self.deep_view().organizations,
                    scope_view(service_id),
                    None,
                ),
                forall|j: int|
                    0 <= j < i ==> (#[trigger] organizations[j]).deep_view() == target[j],
            decreases versions.len() - i,
        {
            assert(version_views(versions@)[i as int] == (
                versions[i as int].0.deep_view(),
                versions[i as int].1.deep_view(),
            ));
            organizations.push(Organization::from_model(&versions[i].0));
            i += 1;
        }
        assert(organizations.deep_view() =~= target);
        organizations
    }

    /// Returns the store to what it was at `commit`.
    pub fn rollback_to(&mut self, commit: i64)
        requires
            old(self).well_formed(),
        ensures
            final(self).well_formed(),
            final(self).deep_view().agents == tables_rolled_back(
                old(self).deep_view().agents,
                commit,
            ),
            final(self).deep_view().organizations == tables_rolled_back(
                old(self).deep_view().organizations,
                commit,
            ),
    {
        self.agents.rollback_to(commit);
        self.organizations.rollback_to(commit);
    }

    /// Removes every row.
    pub fn clear(&mut self)
        ensures
            final(self).well_formed(),
            final(self).deep_view().agents == no_tables::<AgentPayloadView, ()>(),
            final(self).deep_view().organizations == no_tables::<OrganizationPayloadView, ()>(),
    {
        self.agents.clear();
        self.organizations.clear();
    }
}

impl Payload for PikeStore {
    fn duplicate(&self) -> (copy: Self) {
        PikeStore {
            agents: self.agents.duplicate(),
            organizations: self.organizations.duplicate(),
        }
    }
}

/// Round trip: once an agent is added, a read of it gives the agent, with
/// its roles, as the version that starts at the commit.
pub proof fn law_agent_round_trip(tables: AgentTables, agent: AgentView, commit: i64)
    requires
        consistent(tables),
        add_agent_step(tables, agent, commit) is Ok,
    ensures
        agent_at(
            add_agent_step(tables, agent, commit)->Ok_0,
            agent.public_key,
            agent.service_id,
            None,
        ) == Ok::<AgentView, StoreErrorView>(
            AgentView { start_commit_num: commit, end_commit_num: MAX_COMMIT_NUM, ..agent },
        ),
{
    law_add_then_fetch(
        tables,
        agent.public_key,
        agent.service_id,
        commit,
        agent_payload(agent),
        agent_children(agent),
    );
    let version = stored_version(
        agent.public_key,
        agent.service_id,
        commit,
        agent_payload(agent),
        agent_children(agent),
    );
    assert(agent_of(version).roles =~= agent.roles);
}

/// Round trip: once an organization is added, a read of it gives the
/// organization as the version that starts at the commit.
pub proof fn law_organization_round_trip(
    tables: OrganizationTables,
    organization: OrganizationView,
    commit: i64,
)
    requires
        consistent(tables),
        add_organization_step(tables, organization, commit) is Ok,
    ensures
        organization_at(
            add_organization_step(tables, organization, commit)->Ok_0,
            organization.org_id,
            organization.service_id,
            None,
        ) == Ok::<OrganizationView, StoreErrorView>(
            OrganizationView {
                start_commit_num: commit,
                end_commit_num: MAX_COMMIT_NUM,
                ..organization
            },
        ),
{
    law_add_then_fetch(
        tables,
        organization.org_id,
        organization.service_id,
        commit,
        organization_payload(organization),
        Seq::<ChildView<()>>::empty(),
    );
}

/// Update history preserved: once an organization is replaced at `commit`,
/// a current read gives the new version, and a read as of any commit from
/// the start of the old version up to the replacement gives the old version
/// with `commit` as its end.
pub proof fn law_organization_history(
    tables: OrganizationTables,
    old: OrganizationView,
    new: OrganizationView,
    commit: i64,
    at: i64,
)
    requires
        consistent(tables),
        new.org_id == old.org_id,
        new.service_id == old.service_id,
        organization_at(tables, old.org_id, old.service_id, None) == Ok::<
            OrganizationView,
            StoreErrorView,
        >(old),
        update_organization_step(tables, new, commit) is Ok,
        old.start_commit_num <= at < commit,
    ensures
        organization_at(
            update_organization_step(tables, new, commit)->Ok_0,
            old.org_id,
            old.service_id,
            None,
        ) == Ok::<OrganizationView, StoreErrorView>(
            OrganizationView { start_commit_num: commit, end_commit_num: MAX_COMMIT_NUM, ..new },
        ),
        organization_at(
            update_organization_step(tables, new, commit)->Ok_0,
            old.org_id,
            old.service_id,
            Some(at),
        ) == Ok::<OrganizationView, StoreErrorView>(
            OrganizationView { end_commit_num: commit, ..old },
        ),
{
    law_update_preserves_history(
        tables,
        new.org_id,
        new.service_id,
        commit,
        organization_payload(new),
        Seq::<ChildView<()>>::empty(),
        at,
    );
}

/// Delete then fetch: once an organization is deleted at `commit`, a
/// current read does not find it, and a read as of any commit from the
/// start of the deleted version up to the deletion gives that version with
/// `commit` as its end.
pub proof fn law_organization_deleted(
    tables: OrganizationTables,
    old: OrganizationView,
    commit: i64,
    at: i64,
)
    requires
        consistent(tables),
        organization_at(tables, old.org_id, old.service_id, None) == Ok::<
            OrganizationView,
            StoreErrorView,
        >(old),
        delete_organization_step(tables, old.org_id, old.service_id, commit) is Ok,
        old.start_commit_num <= at < commit,
    ensures
        organization_at(
            delete_organization_step(tables, old.org_id, old.service_id, commit)->Ok_0,
            old.org_id,
            old.service_id,
            None,
        ) == Err::<OrganizationView, StoreErrorView>(
            organization_error(Fault::NotFound, old.org_id),
        ),
        organization_at(
            delete_organization_step(tables, old.org_id, old.service_id, commit)->Ok_0,
            old.org_id,
            old.service_id,
            Some(at),
        ) == Ok::<OrganizationView, StoreErrorView>(
            OrganizationView { end_commit_num: commit, ..old },
        ),
{
    law_delete_then_fetch(tables, old.org_id, old.service_id, commit, at);
}

/// Tenant isolation: an agent added in one scope does not show in the
/// listing of another scope, be that another tenant or none.
pub proof fn law_agent_isolation(
    tables: AgentTables,
    agent: AgentView,
    commit: i64,
    other: Option<Seq<char>>,
)
    requires
        consistent(tables),
        add_agent_step(tables, agent, commit) is Ok,
        other != agent.service_id,
    ensures
        agents_at(add_agent_step(tables, agent, commit)->Ok_0, other, None) == agents_at(
            tables,
            other,
            None,
        ),
{
    law_tenant_isolation(
        tables,
        agent.public_key,
        agent.service_id,
        commit,
        agent_payload(agent),
        agent_children(agent),
        other,
        None,
    );
}

} // verus!
