//! Schemas and the definitions of their properties, and the store that
//! keeps their versions.

use vstd::prelude::*;
use crate::entity::{
    Child, ChildKey, ChildKeyView, ChildView, EntityStore, Fault, Tables, add_step, any_row,
    consistent, find_root, no_tables, owned_by, remove_step, tables_rolled_back, update_step,
};
use crate::error::{EntityKind, StoreError, StoreErrorView};
use crate::laws::law_add_then_fetch;
use crate::ledger::MAX_COMMIT_NUM;
use crate::payload::{Payload, owned_scope, scope_view};
use crate::table::{Row, RowView, listed};

verus! {

/// A schema: a named set of property definitions.
#[derive(Clone, Debug, PartialEq)]
pub struct GridSchema {
    pub name: String,
    pub description: String,
    pub owner: String,
    // The commits between which this version is valid.
    pub start_commit_num: i64,
    pub end_commit_num: i64,
    pub service_id: Option<String>,
}

/// The view of a schema.
pub struct GridSchemaView {
    pub name: Seq<char>,
    pub description: Seq<char>,
    pub owner: Seq<char>,
    pub start_commit_num: i64,
    pub end_commit_num: i64,
    pub service_id: Option<Seq<char>>,
}

impl DeepView for GridSchema {
    type V = GridSchemaView;

    open spec fn deep_view(&self) -> GridSchemaView {
        GridSchemaView {
            name: self.name.deep_view(),
            description: self.description.deep_view(),
            owner: self.owner.deep_view(),
            start_commit_num: self.start_commit_num,
            end_commit_num: self.end_commit_num,
            service_id: self.service_id.deep_view(),
        }
    }
}

impl Payload for GridSchema {
    fn duplicate(&self) -> (copy: Self) {
        GridSchema {
            name: self.name.duplicate(),
            description: self.description.duplicate(),
            owner: self.owner.duplicate(),
            start_commit_num: self.start_commit_num,
            end_commit_num: self.end_commit_num,
            service_id: self.service_id.duplicate(),
        }
    }
}

/// The definition of one property of a schema.
#[derive(Clone, Debug, PartialEq)]
pub struct GridPropertyDefinition {
    pub name: String,
    pub schema_name: String,
    pub data_type: String,
    pub required: bool,
    pub description: String,
    pub number_exponent: i64,
    pub enum_options: Vec<String>,
    pub struct_properties: Vec<String>,
    // The commits between which this version is valid.
    pub start_commit_num: i64,
    pub end_commit_num: i64,
    pub service_id: Option<String>,
}

/// The view of the definition of a property.
pub struct GridPropertyDefinitionView {
    pub name: Seq<char>,
    pub schema_name: Seq<char>,
    pub data_type: Seq<char>,
    pub required: bool,
    pub description: Seq<char>,
    pub number_exponent: i64,
    pub enum_options: Seq<Seq<char>>,
    pub struct_properties: Seq<Seq<char>>,
    pub start_commit_num: i64,
    pub end_commit_num: i64,
    pub service_id: Option<Seq<char>>,
}

impl DeepView for GridPropertyDefinition {
    type V = GridPropertyDefinitionView;

    open spec fn deep_view(&self) -> GridPropertyDefinitionView {
        GridPropertyDefinitionView {
            name: self.name.deep_view(),
            schema_name: self.schema_name.deep_view(),
            data_type: self.data_type.deep_view(),
            required: self.required,
            description: self.description.deep_view(),
            number_exponent: self.number_exponent,
            enum_options: self.enum_options.deep_view(),
            struct_properties: self.struct_properties.deep_view(),
            start_commit_num: self.start_commit_num,
            end_commit_num: self.end_commit_num,
            service_id: self.service_id.deep_view(),
        }
    }
}

impl Payload for GridPropertyDefinition {
    fn duplicate(&self) -> (copy: Self) {
        GridPropertyDefinition {
            name: self.name.duplicate(),
            schema_name: self.schema_name.duplicate(),
            data_type: self.data_type.duplicate(),
            required: self.required,
            description: self.description.duplicate(),
            number_exponent: self.number_exponent,
            enum_options: self.enum_options.duplicate(),
            struct_properties: self.struct_properties.duplicate(),
            start_commit_num: self.start_commit_num,
            end_commit_num: self.end_commit_num,
            service_id: self.service_id.duplicate(),
        }
    }
}

/// What the root row of a schema holds.
#[derive(Debug, PartialEq)]
pub struct SchemaPayload {
    pub description: String,
    pub owner: String,
}

/// The view of the root row of a schema.
pub struct SchemaPayloadView {
    pub description: Seq<char>,
    pub owner: Seq<char>,
}

impl DeepView for SchemaPayload {
    type V = SchemaPayloadView;

    open spec fn deep_view(&self) -> SchemaPayloadView {
        SchemaPayloadView {
            description: self.description.deep_view(),
            owner: self.owner.deep_view(),
        }
    }
}

impl Payload for SchemaPayload {
    fn duplicate(&self) -> (copy: Self) {
        SchemaPayload { description: self.description.duplicate(), owner: self.owner.duplicate() }
    }
}

/// What the row of a property definition holds.
#[derive(Debug, PartialEq)]
pub struct DefinitionPayload {
    pub data_type: String,
    pub required: bool,
    pub description: String,
    pub number_exponent: i64,
    pub enum_options: Vec<String>,
    pub struct_properties: Vec<String>,
}

/// The view of the row of a property definition.
pub struct DefinitionPayloadView {
    pub data_type: Seq<char>,
    pub required: bool,
    pub description: Seq<char>,
    pub number_exponent: i64,
    pub enum_options: Seq<Seq<char>>,
    pub struct_properties: Seq<Seq<char>>,
}

impl DeepView for DefinitionPayload {
    type V = DefinitionPayloadView;

    open spec fn deep_view(&self) -> DefinitionPayloadView {
        DefinitionPayloadView {
            data_type: self.data_type.deep_view(),
            required: self.required,
            description: self.description.deep_view(),
            number_exponent: self.number_exponent,
            enum_options: self.enum_options.deep_view(),
            struct_properties: self.struct_properties.deep_view(),
        }
    }
}

impl Payload for DefinitionPayload {
    fn duplicate(&self) -> (copy: Self) {
        DefinitionPayload {
            data_type: self.data_type.duplicate(),
            required: self.required,
            description: self.description.duplicate(),
            number_exponent: self.number_exponent,
            enum_options: self.enum_options.duplicate(),
            struct_properties: self.struct_properties.duplicate(),
        }
    }
}

/// The tables of schemas: a root row for each schema, a child row for each
/// property definition.
pub type SchemaTables = Tables<SchemaPayloadView, DefinitionPayloadView>;

/// The view of the row of a schema.
pub type SchemaRowView = RowView<Seq<char>, SchemaPayloadView>;

/// The view of the row of a property definition.
pub type DefinitionRowView = RowView<ChildKeyView, DefinitionPayloadView>;

/// The root payload that stands for a schema.
pub open spec fn schema_payload(schema: GridSchemaView) -> SchemaPayloadView {
    SchemaPayloadView { description: schema.description, owner: schema.owner }
}

/// The child that stands for a property definition.
pub open spec fn definition_child(definition: GridPropertyDefinitionView) -> ChildView<
    DefinitionPayloadView,
> {
    ChildView {
        parent: None,
        name: definition.name,
        payload: DefinitionPayloadView {
            data_type: definition.data_type,
            required: definition.required,
            description: definition.description,
            number_exponent: definition.number_exponent,
            enum_options: definition.enum_options,
            struct_properties: definition.struct_properties,
        },
    }
}

/// The children that stand for property definitions, in their order.
pub open spec fn definition_children(definitions: Seq<GridPropertyDefinitionView>) -> Seq<
    ChildView<DefinitionPayloadView>,
> {
    definitions.map_values(|definition: GridPropertyDefinitionView| definition_child(definition))
}

/// The schema that a row stands for.
pub open spec fn schema_of(row: SchemaRowView) -> GridSchemaView {
    GridSchemaView {
        name: row.key,
        description: row.payload.description,
        owner: row.payload.owner,
        start_commit_num: row.start_commit_num,
        end_commit_num: row.end_commit_num,
        service_id: row.service_id,
    }
}

/// The property definition that a row stands for.
pub open spec fn definition_of(row: DefinitionRowView) -> GridPropertyDefinitionView {
    GridPropertyDefinitionView {
        name: row.key.name,
        schema_name: row.key.owner,
        data_type: row.payload.data_type,
        required: row.payload.required,
        description: row.payload.description,
        number_exponent: row.payload.number_exponent,
        enum_options: row.payload.enum_options,
        struct_properties: row.payload.struct_properties,
        start_commit_num: row.start_commit_num,
        end_commit_num: row.end_commit_num,
        service_id: row.service_id,
    }
}

/// The error of an operation on the schema `key`.
pub open spec fn schema_error(fault: Fault, key: Seq<char>) -> StoreErrorView {
    StoreErrorView { fault, entity: EntityKind::Schema, key }
}

/// What adding a schema with `definitions` at `commit` does.
pub open spec fn add_schema_step(
    tables: SchemaTables,
    schema: GridSchemaView,
    definitions: Seq<GridPropertyDefinitionView>,
    commit: i64,
) -> Result<SchemaTables, StoreErrorView> {
    match add_step(
        tables,
        schema.name,
        schema.service_id,
        commit,
        schema_payload(schema),
        definition_children(definitions),
    ) {
        Ok(after) => Ok(after),
        Err(fault) => Err(schema_error(fault, schema.name)),
    }
}

/// What replacing a schema and its definitions at `commit` does.
pub open spec fn update_schema_step(
    tables: SchemaTables,
    schema: GridSchemaView,
    definitions: Seq<GridPropertyDefinitionView>,
    commit: i64,
) -> Result<SchemaTables, StoreErrorView> {
    match update_step(
        tables,
        schema.name,
        schema.service_id,
        commit,
        schema_payload(schema),
        definition_children(definitions),
    ) {
        Ok(after) => Ok(after),
        Err(fault) => Err(schema_error(fault, schema.name)),
    }
}

/// What deleting a schema at `commit` does.
pub open spec fn delete_schema_step(
    tables: SchemaTables,
    name: Seq<char>,
    tenant: Option<Seq<char>>,
    commit: i64,
) -> Result<SchemaTables, StoreErrorView> {
    match remove_step(tables, name, tenant, commit) {
        Ok(after) => Ok(after),
        Err(fault) => Err(schema_error(fault, name)),
    }
}

/// The schema that a read of `name` in `tenant` at `at` gives.
pub open spec fn schema_at(
    tables: SchemaTables,
    name: Seq<char>,
    tenant: Option<Seq<char>>,
    at: Option<i64>,
) -> Result<GridSchemaView, StoreErrorView> {
    match find_root(tables, name, tenant, at) {
        Some(row) => Ok(schema_of(row)),
        None => Err(schema_error(Fault::NotFound, name)),
    }
}

/// The schemas of `tenant` at `at`.
pub open spec fn schemas_at(tables: SchemaTables, tenant: Option<Seq<char>>, at: Option<i64>) -> Seq<
    GridSchemaView,
> {
    listed(tables.roots, tenant, at, any_row()).map_values(|row: SchemaRowView| schema_of(row))
}

/// The property definitions of `tenant` at `at`, of every schema.
pub open spec fn definitions_at(
    tables: SchemaTables,
    tenant: Option<Seq<char>>,
    at: Option<i64>,
) -> Seq<GridPropertyDefinitionView> {
    listed(tables.children, tenant, at, any_row()).map_values(
        |row: DefinitionRowView| definition_of(row),
    )
}

/// The property definitions of the schema `name` of `tenant` at `at`.
pub open spec fn definitions_of_schema_at(
    tables: SchemaTables,
    name: Seq<char>,
    tenant: Option<Seq<char>>,
    at: Option<i64>,
) -> Seq<GridPropertyDefinitionView> {
    listed(tables.children, tenant, at, owned_by(name)).map_values(
        |row: DefinitionRowView| definition_of(row),
    )
}

impl GridSchema {
    /// The schema that a row stands for.
    pub fn from_model(row: &Row<String, SchemaPayload>) -> (schema: GridSchema)
        ensures
            schema.deep_view() == schema_of(row.deep_view()),
    {
        GridSchema {
            name: row.key.duplicate(),
            description: row.payload.description.duplicate(),
            owner: row.payload.owner.duplicate(),
            start_commit_num: row.start_commit_num,
            end_commit_num: row.end_commit_num,
            service_id: row.service_id.duplicate(),
        }
    }
}

impl GridPropertyDefinition {
    /// The property definition that a row stands for.
    pub fn from_model(row: &Row<ChildKey, DefinitionPayload>) -> (definition: GridPropertyDefinition)
        ensures
            definition.deep_view() == definition_of(row.deep_view()),
    {
        GridPropertyDefinition {
            name: row.key.name.duplicate(),
            schema_name: row.key.owner.duplicate(),
            data_type: row.payload.data_type.duplicate(),
            required: row.payload.required,
            description: row.payload.description.duplicate(),
            number_exponent: row.payload.number_exponent,
            enum_options: row.payload.enum_options.duplicate(),
            struct_properties: row.payload.struct_properties.duplicate(),
            start_commit_num: row.start_commit_num,
            end_commit_num: row.end_commit_num,
            service_id: row.service_id.duplicate(),
        }
    }

    /// The child that stands for the definition.
    fn into_child(self) -> (child: Child<DefinitionPayload>)
        ensures
            child.deep_view() == definition_child(self.deep_view()),
    {
        Child {
            parent: None,
            name: self.name,
            payload: DefinitionPayload {
                data_type: self.data_type,
                required: self.required,
                description: self.description,
                number_exponent: self.number_exponent,
                enum_options: self.enum_options,
                struct_properties: self.struct_properties,
            },
        }
    }
}

/// The children that stand for `definitions`.
fn definition_rows(definitions: &Vec<GridPropertyDefinition>) -> (children: Vec<
    Child<DefinitionPayload>,
>)
    ensures
        children.deep_view() == definition_children(definitions.deep_view()),
{
    let mut children: Vec<Child<DefinitionPayload>> = Vec::new();
    let mut i: usize = 0;
    while i < definitions.len()
        invariant
            i <= definitions.len(),
            children.len() == i,
            forall|j: int|
                0 <= j < i ==> (#[trigger] children[j]).deep_view() == definition_child(
                    definitions[j].deep_view(),
                ),
        decreases definitions.len() - i,
    {
        children.push(definitions[i].duplicate().into_child());
        i += 1;
    }
    assert(children.deep_view() =~= definition_children(definitions.deep_view()));
    children
}

/// The property definitions that `rows` stand for.
fn definitions_from(rows: &Vec<Row<ChildKey, DefinitionPayload>>) -> (definitions: Vec<
    GridPropertyDefinition,
>)
    ensures
        definitions.deep_view() == rows.deep_view().map_values(
            |row: DefinitionRowView| definition_of(row),
        ),
{
    let mut definitions: Vec<GridPropertyDefinition> = Vec::new();
    let mut i: usize = 0;
    while i < rows.len()
        invariant
            i <= rows.len(),
            definitions.len() == i,
            forall|j: int|
                0 <= j < i ==> (#[trigger] definitions[j]).deep_view() == definition_of(
                    rows[j].deep_view(),
                ),
        decreases rows.len() - i,
    {
        definitions.push(GridPropertyDefinition::from_model(&rows[i]));
        i += 1;
    }
    assert(definitions.deep_view() =~= rows.deep_view().map_values(
        |row: DefinitionRowView| definition_of(row),
    ));
    definitions
}

/// The store of schemas.
#[derive(Debug, PartialEq)]
pub struct SchemaStore {
    schemas: EntityStore<SchemaPayload, DefinitionPayload>,
}

impl DeepView for SchemaStore {
    type V = SchemaTables;

    closed spec fn deep_view(&self) -> SchemaTables {
        self.schemas.deep_view()
    }
}

impl SchemaStore {
    /// The invariant of the store.
    pub open spec fn well_formed(&self) -> bool {
        consistent(self.deep_view())
    }

    /// A store that holds nothing.
    pub fn new() -> (store: Self)
        ensures
            store.well_formed(),
            store.deep_view() == no_tables::<SchemaPayloadView, DefinitionPayloadView>(),
    {
        SchemaStore { schemas: EntityStore::new() }
    }

    /// Adds a schema, with `definitions`, as the version that starts at
    /// `commit`.  The commit numbers that the schema and the definitions
    /// carry are not read, nor the schema that the definitions name.
    pub fn add_schema(
        &mut self,
        schema: GridSchema,
        definitions: Vec<GridPropertyDefinition>,
        commit: i64,
    ) -> (result: Result<(), StoreError>)
        requires
            old(self).well_formed(),
        ensures
            final(self).well_formed(),
            match add_schema_step(
                old(self).deep_view(),
                schema.deep_view(),
                definitions.deep_view(),
                commit,
            ) {
                Ok(tables) => result is Ok && final(self).deep_view() == tables,
                Err(error) => {
                    &&& result matches Err(refusal) && refusal.deep_view() == error
                    &&& final(self).deep_view() == old(self).deep_view()
                },
            },
    {
        let children = definition_rows(&definitions);
        let key = schema.name.duplicate();
        let payload = SchemaPayload { description: schema.description, owner: schema.owner };
        match self.schemas.add(schema.name, schema.service_id, commit, payload, children) {
            Ok(()) => Ok(()),
            Err(fault) => Err(StoreError::new(fault, EntityKind::Schema, &key)),
        }
    }

    /// Replaces a schema and its definitions by the version that starts at
    /// `commit`.
    pub fn update_schema(
        &mut self,
        schema: GridSchema,
        definitions: Vec<GridPropertyDefinition>,
        commit: i64,
    ) -> (result: Result<(), StoreError>)
        requires
            old(self).well_formed(),
        ensures
            final(self).well_formed(),
            match update_schema_step(
                old(self).deep_view(),
                schema.deep_view(),
                definitions.deep_view(),
                commit,
            ) {
                Ok(tables) => result is Ok && final(self).deep_view() == tables,
                Err(error) => {
                    &&& result matches Err(refusal) && refusal.deep_view() == error
                    &&& final(self).deep_view() == old(self).deep_view()
                },
            },
    {
        let children = definition_rows(&definitions);
        let key = schema.name.duplicate();
        let payload = SchemaPayload { description: schema.description, owner: schema.owner };
        match self.schemas.update(schema.name, schema.service_id, commit, payload, children) {
            Ok(()) => Ok(()),
            Err(fault) => Err(StoreError::new(fault, EntityKind::Schema, &key)),
        }
    }

    /// Closes the current version of a schema, and of its definitions, at
    /// `commit`.
    pub fn delete_schema(&mut self, name: &str, service_id: Option<&str>, commit: i64) -> (result:
        Result<(), StoreError>)
        requires
            old(self).well_formed(),
        ensures
            final(self).well_formed(),
            match delete_schema_step(old(self).deep_view(), name@, scope_view(service_id), commit) {
                Ok(tables) => result is Ok && final(self).deep_view() == tables,
                Err(error) => {
                    &&& result matches Err(refusal) && refusal.deep_view() == error
                    &&& final(self).deep_view() == old(self).deep_view()
                },
            },
    {
        let key = name.to_owned();
        let tenant = owned_scope(service_id);
        match self.schemas.remove(&key, &tenant, commit) {
            Ok(()) => Ok(()),
            Err(fault) => Err(StoreError::new(fault, EntityKind::Schema, &key)),
        }
    }

    /// The current version of a schema.
    pub fn fetch_grid_schema(&self, name: &str, service_id: Option<&str>) -> (result: Result<
        GridSchema,
        StoreError,
    >)
        requires
            self.well_formed(),
        ensures
            match schema_at(self.deep_view(), name@, scope_view(service_id), None) {
                Ok(schema) => result matches Ok(found) && found.deep_view() == schema,
                Err(error) => result matches Err(refusal) && refusal.deep_view() == error,
            },
    {
        self.read_schema(name, service_id, None)
    }

    /// The version of a schema that was valid at `commit`.
    pub fn fetch_grid_schema_as_of(&self, name: &str, service_id: Option<&str>, commit: i64) -> (result:
        Result<GridSchema, StoreError>)
        requires
            self.well_formed(),
        ensures
            match schema_at(self.deep_view(), name@, scope_view(service_id), Some(commit)) {
                Ok(schema) => result matches Ok(found) && found.deep_view() == schema,
                Err(error) => result matches Err(refusal) && refusal.deep_view() == error,
            },
    {
        self.read_schema(name, service_id, Some(commit))
    }

    fn read_schema(&self, name: &str, service_id: Option<&str>, at: Option<i64>) -> (result: Result<
        GridSchema,
        StoreError,
    >)
        requires
            self.well_formed(),
        ensures
            match schema_at(self.deep_view(), name@, scope_view(service_id), at) {
                Ok(schema) => result matches Ok(found) && found.deep_view() == schema,
                Err(error) => result matches Err(refusal) && refusal.deep_view() == error,
            },
    {
        let key = name.to_owned();
        let tenant = owned_scope(service_id);
        match self.schemas.fetch_root(&key, &tenant, at) {
            Some(row) => Ok(GridSchema::from_model(&row)),
            None => Err(StoreError::new(Fault::NotFound, EntityKind::Schema, &key)),
        }
    }

    /// The current schemas of `service_id`, in the order in which they were
    /// stored.
    pub fn list_grid_schemas(&self, service_id: Option<&str>) -> (schemas: Vec<GridSchema>)
        ensures
            schemas.deep_view() == schemas_at(self.deep_view(), scope_view(service_id), None),
    {
        let tenant = owned_scope(service_id);
        let rows = self.schemas.list_roots(&tenant, None);
        let mut schemas: Vec<GridSchema> = Vec::new();
        let mut i: usize = 0;
        while i < rows.len()
            invariant
                i <= rows.len(),
                schemas.len() == i,
                forall|j: int|
                    0 <= j < i ==> (#[trigger] schemas[j]).deep_view() == schema_of(
                        rows[j].deep_view(),
                    ),
            decreases rows.len() - i,
        {
            schemas.push(GridSchema::from_model(&rows[i]));
            i += 1;
        }
        assert(schemas.deep_view() =~= schemas_at(self.deep_view(), scope_view(service_id), None));
        schemas
    }

    /// The current property definitions of `service_id`, of every schema,
    /// in the order in which they were stored.
    pub fn list_grid_property_definitions(&self, service_id: Option<&str>) -> (definitions: Vec<
        GridPropertyDefinition,
    >)
        ensures
            definitions.deep_view() == definitions_at(
                self.deep_view(),
                scope_view(service_id),
                None,
            ),
    {
        let tenant = owned_scope(service_id);
        let rows = self.schemas.list_children(&tenant, None);
        definitions_from(&rows)
    }

    /// The current property definitions of the schema `schema_name` of
    /// `service_id`, in the order in which they were stored.
    pub fn list_grid_property_definitions_with_schema_name(
        &self,
        schema_name: &str,
        service_id: Option<&str>,
    ) -> (definitions: Vec<GridPropertyDefinition>)
        ensures
            definitions.deep_view() == definitions_of_schema_at(
                self.deep_view(),
                schema_name@,
                scope_view(service_id),
                None,
            ),
    {
        let owner = schema_name.to_owned();
        let tenant = owned_scope(service_id);
        let rows = self.schemas.list_owned(&owner, &tenant, None);
        definitions_from(&rows)
    }

    /// The property definitions that the schema `schema_name` of
    /// `service_id` had at `commit`.
    pub fn list_grid_property_definitions_as_of(
        &self,
        schema_name: &str,
        service_id: Option<&str>,
        commit: i64,
    ) -> (definitions: Vec<GridPropertyDefinition>)
        ensures
            definitions.deep_view() == definitions_of_schema_at(
                self.deep_view(),
                schema_name@,
                scope_view(service_id),
                Some(commit),
            ),
    {
        let owner = schema_name.to_owned();
        let tenant = owned_scope(service_id);
        let rows = self.schemas.list_owned(&owner, &tenant, Some(commit));
        definitions_from(&rows)
    }

    /// Returns the store to what it was at `commit`.
    pub fn rollback_to(&mut self, commit: i64)
        requires
            old(self).well_formed(),
        ensures
            final(self).well_formed(),
            final(self).deep_view() == tables_rolled_back(old(self).deep_view(), commit),
    {
        self.schemas.rollback_to(commit);
    }

    /// Removes every row.
    pub fn clear(&mut self)
        ensures
            final(self).well_formed(),
            final(self).deep_view() == no_tables::<SchemaPayloadView, DefinitionPayloadView>(),
    {
        self.schemas.clear();
    }
}

impl Payload for SchemaStore {
    fn duplicate(&self) -> (copy: Self) {
        SchemaStore { schemas: self.schemas.duplicate() }
    }
}

/// The definition as a read gives it once it was stored with the schema
/// `name` of `tenant` at `commit`.
pub open spec fn stored_definition(
    definition: GridPropertyDefinitionView,
    name: Seq<char>,
    tenant: Option<Seq<char>>,
    commit: i64,
) -> GridPropertyDefinitionView {
    GridPropertyDefinitionView {
        schema_name: name,
        service_id: tenant,
        start_commit_num: commit,
        end_commit_num: MAX_COMMIT_NUM,
        ..definition
    }
}

/// Round trip: once a schema is added, a read of it gives the schema as
/// the version that starts at the commit, and a read of its definitions
/// gives the definitions that it was added with, as definitions of that
/// schema and that tenant which are current from that commit on.
pub proof fn law_schema_round_trip(
    tables: SchemaTables,
    schema: GridSchemaView,
    definitions: Seq<GridPropertyDefinitionView>,
    commit: i64,
)
    requires
        consistent(tables),
        add_schema_step(tables, schema, definitions, commit) is Ok,
    ensures
        schema_at(
            add_schema_step(tables, schema, definitions, commit)->Ok_0,
            schema.name,
            schema.service_id,
            None,
        ) == Ok::<GridSchemaView, StoreErrorView>(
            GridSchemaView { start_commit_num: commit, end_commit_num: MAX_COMMIT_NUM, ..schema },
        ),
        definitions_of_schema_at(
            add_schema_step(tables, schema, definitions, commit)->Ok_0,
            schema.name,
            schema.service_id,
            None,
        ) == definitions.map_values(
            |definition: GridPropertyDefinitionView|
                stored_definition(definition, schema.name, schema.service_id, commit),
        ),
{
    law_add_then_fetch(
        tables,
        schema.name,
        schema.service_id,
        commit,
        schema_payload(schema),
        definition_children(definitions),
    );
    let after = add_schema_step(tables, schema, definitions, commit)->Ok_0;
    assert(definitions_of_schema_at(after, schema.name, schema.service_id, None)
        =~= definitions.map_values(
        |definition: GridPropertyDefinitionView|
            stored_definition(definition, schema.name, schema.service_id, commit),
    ));
}

} // verus!
