//! Products and their properties, and the store that keeps their versions.

use vstd::prelude::*;
use crate::entity::{
    ChildKey, ChildKeyView, ChildView, EntityStore, Fault, Tables, Version, add_step, child_rows,
    consistent,
    fetched, listing, no_tables, remove_step, tables_rolled_back, update_step, version_views,
};
use crate::error::{EntityKind, StoreError, StoreErrorView};
use crate::ledger::MAX_COMMIT_NUM;
use crate::payload::{Key, Payload, owned_scope, scope_view};
use crate::property::{
    PropertyData, PropertyDataView, PropertyRow, PropertyRowView, children_of, kept, to_children,
};
use crate::laws::{law_add_then_fetch, stored_version};
use crate::table::{Row, RowView, fresh_all};
use crate::tree::{
    Node, below_of, changed, grouped_upto, law_grouped_changed_rows, lemma_changed_below,
    linked_upto, rows_upto, unique,
};

verus! {

/// A latitude and a longitude, in millionths of a degree.
#[derive(Clone, Debug, PartialEq)]
pub struct LatLongValue {
    pub latitude: i64,
    pub longitude: i64,
}

impl DeepView for LatLongValue {
    type V = (i64, i64);

    open spec fn deep_view(&self) -> (i64, i64) {
        (self.latitude, self.longitude)
    }
}

impl Payload for LatLongValue {
    fn duplicate(&self) -> (copy: Self) {
        LatLongValue { latitude: self.latitude, longitude: self.longitude }
    }
}

/// One property of a product.  A property of a structured type owns the
/// properties that make it up.
#[derive(Debug)]
pub struct PropertyValue {
    pub product_id: String,
    pub product_address: String,
    pub property_name: String,
    pub data_type: String,
    pub bytes_value: Option<Vec<u8>>,
    pub boolean_value: Option<bool>,
    pub number_value: Option<i64>,
    pub string_value: Option<String>,
    pub enum_value: Option<i32>,
    pub struct_values: Vec<PropertyValue>,
    pub lat_long_value: Option<LatLongValue>,
    // The commits between which this version is valid.
    pub start_commit_num: i64,
    pub end_commit_num: i64,
    pub service_id: Option<String>,
}

/// The view of a property of a product.
pub struct PropertyValueView {
    pub product_id: Seq<char>,
    pub product_address: Seq<char>,
    pub property_name: Seq<char>,
    pub data_type: Seq<char>,
    pub bytes_value: Option<Seq<u8>>,
    pub boolean_value: Option<bool>,
    pub number_value: Option<i64>,
    pub string_value: Option<Seq<char>>,
    pub enum_value: Option<i32>,
    pub struct_values: Seq<PropertyValueView>,
    pub lat_long_value: Option<(i64, i64)>,
    pub start_commit_num: i64,
    pub end_commit_num: i64,
    pub service_id: Option<Seq<char>>,
}

/// The view of a property, with the views of the properties that it owns.
pub open spec fn property_view(property: PropertyValue) -> PropertyValueView
    decreases property,
{
    PropertyValueView {
        product_id: property.product_id.deep_view(),
        product_address: property.product_address.deep_view(),
        property_name: property.property_name.deep_view(),
        data_type: property.data_type.deep_view(),
        bytes_value: property.bytes_value.deep_view(),
        boolean_value: property.boolean_value,
        number_value: property.number_value,
        string_value: property.string_value.deep_view(),
        enum_value: property.enum_value,
        struct_values: Seq::new(
            property.struct_values.len() as nat,
            |i: int|
                if 0 <= i < property.struct_values.len() {
                    property_view(property.struct_values[i])
                } else {
                    arbitrary()
                },
        ),
        lat_long_value: property.lat_long_value.deep_view(),
        start_commit_num: property.start_commit_num,
        end_commit_num: property.end_commit_num,
        service_id: property.service_id.deep_view(),
    }
}

impl DeepView for PropertyValue {
    type V = PropertyValueView;

    open spec fn deep_view(&self) -> PropertyValueView {
        property_view(*self)
    }
}

/// The view of the properties that a property owns is the views of them.
pub proof fn lemma_struct_values_view(property: PropertyValue)
    ensures
        property.deep_view().struct_values == property.struct_values.deep_view(),
{
    assert(property.deep_view().struct_values =~= property.struct_values.deep_view());
}

impl Payload for PropertyValue {
    fn duplicate(&self) -> (copy: Self)
        decreases self,
    {
        let mut struct_values: Vec<PropertyValue> = Vec::new();
        let mut i: usize = 0;
        while i < self.struct_values.len()
            invariant
                i <= self.struct_values.len(),
                struct_values.len() == i,
                forall|j: int|
                    0 <= j < i ==> (#[trigger] struct_values[j]).deep_view()
                        == self.struct_values[j].deep_view(),
            decreases self.struct_values.len() - i,
        {
            proof {
                vstd::std_specs::vec::axiom_vec_index_decreases(self.struct_values, i as int);
            }
            struct_values.push(self.struct_values[i].duplicate());
            i += 1;
        }
        let copy = PropertyValue {
            product_id: self.product_id.duplicate(),
            product_address: self.product_address.duplicate(),
            property_name: self.property_name.duplicate(),
            data_type: self.data_type.duplicate(),
            bytes_value: self.bytes_value.duplicate(),
            boolean_value: self.boolean_value,
            number_value: self.number_value,
            string_value: self.string_value.duplicate(),
            enum_value: self.enum_value,
            struct_values,
            lat_long_value: self.lat_long_value.duplicate(),
            start_commit_num: self.start_commit_num,
            end_commit_num: self.end_commit_num,
            service_id: self.service_id.duplicate(),
        };
        proof {
            lemma_struct_values_view(copy);
            lemma_struct_values_view(*self);
            assert(copy.struct_values.deep_view() =~= self.struct_values.deep_view());
        }
        copy
    }
}

impl Clone for PropertyValue {
    fn clone(&self) -> (copy: Self)
        ensures
            copy.deep_view() == self.deep_view(),
    {
        self.duplicate()
    }
}

/// A product, with the properties that describe it.
#[derive(Debug)]
pub struct Product {
    pub product_id: String,
    pub product_address: String,
    pub product_namespace: String,
    pub owner: String,
    pub start_commit_num: i64,
    pub end_commit_num: i64,
    pub service_id: Option<String>,
    pub properties: Vec<PropertyValue>,
}

/// The view of a product.
pub struct ProductView {
    pub product_id: Seq<char>,
    pub product_address: Seq<char>,
    pub product_namespace: Seq<char>,
    pub owner: Seq<char>,
    pub start_commit_num: i64,
    pub end_commit_num: i64,
    pub service_id: Option<Seq<char>>,
    pub properties: Seq<PropertyValueView>,
}

impl DeepView for Product {
    type V = ProductView;

    open spec fn deep_view(&self) -> ProductView {
        ProductView {
            product_id: self.product_id.deep_view(),
            product_address: self.product_address.deep_view(),
            product_namespace: self.product_namespace.deep_view(),
            owner: self.owner.deep_view(),
            start_commit_num: self.start_commit_num,
            end_commit_num: self.end_commit_num,
            service_id: self.service_id.deep_view(),
            properties: self.properties.deep_view(),
        }
    }
}

impl Payload for Product {
    fn duplicate(&self) -> (copy: Self) {
        Product {
            product_id: self.product_id.duplicate(),
            product_address: self.product_address.duplicate(),
            product_namespace: self.product_namespace.duplicate(),
            owner: self.owner.duplicate(),
            start_commit_num: self.start_commit_num,
            end_commit_num: self.end_commit_num,
            service_id: self.service_id.duplicate(),
            properties: self.properties.duplicate(),
        }
    }
}

impl Clone for Product {
    fn clone(&self) -> (copy: Self)
        ensures
            copy.deep_view() == self.deep_view(),
    {
        self.duplicate()
    }
}

/// Where a page lies in a listing.
#[derive(Clone, Copy, Debug, PartialEq, Eq, Structural)]
pub struct Paging {
    /// The number of items that were skipped, as it was asked for.
    pub offset: i64,
    /// The greatest number of items on the page, as it was asked for.
    pub limit: i64,
    /// The number of items in the whole listing.
    pub total: i64,
}

impl Paging {
    pub fn new(offset: i64, limit: i64, total: i64) -> (paging: Self)
        ensures
            paging == (Paging { offset, limit, total }),
    {
        Paging { offset, limit, total }
    }
}

/// One page of a listing of products.
#[derive(Debug)]
pub struct ProductList {
    pub data: Vec<Product>,
    pub paging: Paging,
}

impl ProductList {
    pub fn new(data: Vec<Product>, paging: Paging) -> (list: Self)
        ensures
            list.data == data,
            list.paging == paging,
    {
        Self { data, paging }
    }
}

/// What the root row of a product holds.
#[derive(Debug, PartialEq)]
pub struct ProductPayload {
    pub product_address: String,
    pub product_namespace: String,
    pub owner: String,
}

/// The view of the root row of a product.
pub struct ProductPayloadView {
    pub product_address: Seq<char>,
    pub product_namespace: Seq<char>,
    pub owner: Seq<char>,
}

impl DeepView for ProductPayload {
    type V = ProductPayloadView;

    open spec fn deep_view(&self) -> ProductPayloadView {
        ProductPayloadView {
            product_address: self.product_address.deep_view(),
            product_namespace: self.product_namespace.deep_view(),
            owner: self.owner.deep_view(),
        }
    }
}

impl Payload for ProductPayload {
    fn duplicate(&self) -> (copy: Self) {
        ProductPayload {
            product_address: self.product_address.duplicate(),
            product_namespace: self.product_namespace.duplicate(),
            owner: self.owner.duplicate(),
        }
    }
}

/// The root row of a product.
pub type ProductModel = Row<String, ProductPayload>;

/// The row of a property of a product.
pub type ProductPropertyValue = PropertyRow;

/// The pair that a latitude and a longitude make, where both are there.
pub open spec fn lat_long_of(lat: Option<i64>, long: Option<i64>) -> Option<(i64, i64)> {
    match (lat, long) {
        (Some(latitude), Some(longitude)) => Some((latitude, longitude)),
        _ => None,
    }
}

/// The property that a row stands for, with the properties below it.
pub open spec fn property_of(model: PropertyRowView, struct_values: Seq<PropertyValueView>) -> PropertyValueView {
    PropertyValueView {
        product_id: model.key.owner,
        product_address: model.payload.address,
        property_name: model.key.name,
        data_type: model.payload.data_type,
        bytes_value: model.payload.bytes_value,
        boolean_value: model.payload.boolean_value,
        number_value: model.payload.number_value,
        string_value: model.payload.string_value,
        enum_value: model.payload.enum_value,
        struct_values,
        lat_long_value: lat_long_of(model.payload.latitude_value, model.payload.longitude_value),
        start_commit_num: model.start_commit_num,
        end_commit_num: model.end_commit_num,
        service_id: model.service_id,
    }
}

/// The row that stands for a property below `parent`.  The row is current,
/// whatever end the property carries.
pub open spec fn model_of(property: PropertyValueView, parent: Option<Seq<char>>) -> PropertyRowView {
    RowView {
        key: ChildKeyView { owner: property.product_id, parent, name: property.property_name },
        service_id: property.service_id,
        start_commit_num: property.start_commit_num,
        end_commit_num: MAX_COMMIT_NUM,
        payload: PropertyDataView {
            address: property.product_address,
            data_type: property.data_type,
            bytes_value: property.bytes_value,
            boolean_value: property.boolean_value,
            number_value: property.number_value,
            string_value: property.string_value,
            enum_value: property.enum_value,
            latitude_value: match property.lat_long_value {
                Some(pair) => Some(pair.0),
                None => None,
            },
            longitude_value: match property.lat_long_value {
                Some(pair) => Some(pair.1),
                None => None,
            },
        },
    }
}

/// The rows that stand for the first `upto` of `properties` below `parent`:
/// each property is followed by the rows of the properties that it owns,
/// which name it as their parent.
pub open spec fn models_upto(
    properties: Seq<PropertyValueView>,
    parent: Option<Seq<char>>,
    upto: int,
) -> Seq<PropertyRowView>
    decreases properties, upto,
{
    if upto <= 0 || upto > properties.len() {
        Seq::empty()
    } else {
        let property = properties[upto - 1];
        models_upto(properties, parent, upto - 1).push(model_of(property, parent)) + models_upto(
            property.struct_values,
            Some(property.property_name),
            property.struct_values.len() as int,
        )
    }
}

/// The rows that stand for `properties` below `parent`.
pub open spec fn property_models(properties: Seq<PropertyValueView>, parent: Option<Seq<char>>) -> Seq<
    PropertyRowView,
> {
    models_upto(properties, parent, properties.len() as int)
}

/// The properties that the first `upto` of `models` make below `parent`: a
/// row belongs there if it names `parent`, and it owns what the rows that
/// name it make in turn.  `depth` bounds how far down the rows are followed.
pub open spec fn assembled_upto(
    models: Seq<PropertyRowView>,
    parent: Option<Seq<char>>,
    depth: nat,
    upto: int,
) -> Seq<PropertyValueView>
    decreases depth, upto,
{
    if upto <= 0 || upto > models.len() {
        Seq::empty()
    } else {
        let before = assembled_upto(models, parent, depth, upto - 1);
        let model = models[upto - 1];
        if model.key.parent == parent {
            let below = if depth == 0 {
                Seq::empty()
            } else {
                assembled_upto(
                    models,
                    Some(model.key.name),
                    (depth - 1) as nat,
                    models.len() as int,
                )
            };
            before.push(property_of(model, below))
        } else {
            before
        }
    }
}

/// The properties that the rows of one product make: those without a
/// parent, each with what it owns.
pub open spec fn assembled(models: Seq<PropertyRowView>) -> Seq<PropertyValueView> {
    assembled_upto(models, None, models.len(), models.len() as int)
}

impl PropertyValue {
    /// The property that a row stands for, with `children` below it.
    pub fn from_model(model: ProductPropertyValue, children: Vec<PropertyValue>) -> (property:
        PropertyValue)
        ensures
            property.deep_view() == property_of(model.deep_view(), children.deep_view()),
    {
        let lat_long_value = match (model.payload.latitude_value, model.payload.longitude_value) {
            (Some(latitude), Some(longitude)) => Some(LatLongValue { latitude, longitude }),
            _ => None,
        };
        let property = PropertyValue {
            product_id: model.key.owner,
            product_address: model.payload.address,
            property_name: model.key.name,
            data_type: model.payload.data_type,
            bytes_value: model.payload.bytes_value,
            boolean_value: model.payload.boolean_value,
            number_value: model.payload.number_value,
            string_value: model.payload.string_value,
            enum_value: model.payload.enum_value,
            struct_values: children,
            lat_long_value,
            start_commit_num: model.start_commit_num,
            end_commit_num: model.end_commit_num,
            service_id: model.service_id,
        };
        proof {
            lemma_struct_values_view(property);
        }
        property
    }

    /// The row that stands for the property below `parent`.
    fn to_model(&self, parent: &Option<String>) -> (model: ProductPropertyValue)
        ensures
            model.deep_view() == model_of(self.deep_view(), parent.deep_view()),
    {
        let latitude_value = match &self.lat_long_value {
            Some(lat_long) => Some(lat_long.latitude),
            None => None,
        };
        let longitude_value = match &self.lat_long_value {
            Some(lat_long) => Some(lat_long.longitude),
            None => None,
        };
        Row {
            key: ChildKey {
                owner: self.product_id.duplicate(),
                parent: parent.duplicate(),
                name: self.property_name.duplicate(),
            },
            service_id: self.service_id.duplicate(),
            start_commit_num: self.start_commit_num,
            end_commit_num: MAX_COMMIT_NUM,
            payload: PropertyData {
                address: self.product_address.duplicate(),
                data_type: self.data_type.duplicate(),
                bytes_value: self.bytes_value.duplicate(),
                boolean_value: self.boolean_value,
                number_value: self.number_value,
                string_value: self.string_value.duplicate(),
                enum_value: self.enum_value,
                latitude_value,
                longitude_value,
            },
        }
    }
}

/// The rows that stand for `properties` below `parent`: each property is
/// followed by the rows of the properties that it owns.
pub fn make_property_value_models(properties: &Vec<PropertyValue>, parent: Option<String>) -> (models:
    Vec<ProductPropertyValue>)
    ensures
        models.deep_view() == property_models(properties.deep_view(), parent.deep_view()),
    decreases properties,
{
    let ghost all = properties.deep_view();
    let ghost above = parent.deep_view();
    let mut models: Vec<ProductPropertyValue> = Vec::new();
    let mut i: usize = 0;
    assert(models.deep_view() =~= models_upto(all, above, 0));
    while i < properties.len()
        invariant
            i <= properties.len(),
            all == properties.deep_view(),
            above == parent.deep_view(),
            models.deep_view() == models_upto(all, above, i as int),
        decreases properties.len() - i,
    {
        let property = &properties[i];
        let ghost before = models.deep_view();
        models.push(property.to_model(&parent));
        let ghost pushed = models.deep_view();
        proof {
            assert(all[i as int] == property.deep_view());
            assert(pushed =~= before.push(model_of(all[i as int], above)));
            lemma_struct_values_view(*property);
            vstd::std_specs::vec::axiom_vec_index_decreases(*properties, i as int);
        }
        let mut below = make_property_value_models(
            &property.struct_values,
            Some(property.property_name.duplicate()),
        );
        let ghost tail = below.deep_view();
        models.append(&mut below);
        assert(models.deep_view() =~= pushed + tail);
        i += 1;
    }
    models
}

/// The properties that `models` make below `parent`, following the rows
/// `depth` levels down.
fn assemble(models: &Vec<ProductPropertyValue>, parent: &Option<String>, depth: usize) -> (properties:
    Vec<PropertyValue>)
    ensures
        properties.deep_view() == assembled_upto(
            models.deep_view(),
            parent.deep_view(),
            depth as nat,
            models.len() as int,
        ),
    decreases depth,
{
    let ghost all = models.deep_view();
    let ghost above = parent.deep_view();
    let mut properties: Vec<PropertyValue> = Vec::new();
    let mut i: usize = 0;
    assert(properties.deep_view() =~= assembled_upto(all, above, depth as nat, 0));
    while i < models.len()
        invariant
            i <= models.len(),
            all == models.deep_view(),
            above == parent.deep_view(),
            properties.deep_view() == assembled_upto(all, above, depth as nat, i as int),
        decreases models.len() - i,
    {
        let model = &models[i];
        if model.key.parent.same(parent) {
            let below = if depth == 0 {
                let none: Vec<PropertyValue> = Vec::new();
                assert(none.deep_view() =~= Seq::<PropertyValueView>::empty());
                none
            } else {
                assemble(models, &Some(model.key.name.duplicate()), depth - 1)
            };
            let ghost before = properties.deep_view();
            let property = PropertyValue::from_model(model.duplicate(), below);
            properties.push(property);
            assert(properties.deep_view() =~= before.push(property.deep_view()));
        }
        i += 1;
    }
    properties
}

/// The properties that the rows of one product make.
pub fn get_property_values(models: &Vec<ProductPropertyValue>) -> (properties: Vec<PropertyValue>)
    ensures
        properties.deep_view() == assembled(models.deep_view()),
{
    assemble(models, &None, models.len())
}

/// The tables of products: a root row for each product, a child row for
/// each property.
pub type ProductTables = Tables<ProductPayloadView, PropertyDataView>;

/// The root payload that stands for a product.
pub open spec fn product_payload(product: ProductView) -> ProductPayloadView {
    ProductPayloadView {
        product_address: product.product_address,
        product_namespace: product.product_namespace,
        owner: product.owner,
    }
}

/// The children that stand for the properties of a product.
pub open spec fn product_children(product: ProductView) -> Seq<ChildView<PropertyDataView>> {
    children_of(property_models(product.properties, None))
}

/// The product that a stored version stands for.
pub open spec fn product_of(version: Version<ProductPayloadView, PropertyDataView>) -> ProductView {
    ProductView {
        product_id: version.0.key,
        product_address: version.0.payload.product_address,
        product_namespace: version.0.payload.product_namespace,
        owner: version.0.payload.owner,
        start_commit_num: version.0.start_commit_num,
        end_commit_num: version.0.end_commit_num,
        service_id: version.0.service_id,
        properties: assembled(version.1),
    }
}

/// The error of an operation on the product `key`.
pub open spec fn product_error(fault: Fault, key: Seq<char>) -> StoreErrorView {
    StoreErrorView { fault, entity: EntityKind::Product, key }
}

/// What adding a product at `commit` does.
pub open spec fn add_product_step(tables: ProductTables, product: ProductView, commit: i64) -> Result<
    ProductTables,
    StoreErrorView,
> {
    match add_step(
        tables,
        product.product_id,
        product.service_id,
        commit,
        product_payload(product),
        product_children(product),
    ) {
        Ok(after) => Ok(after),
        Err(fault) => Err(product_error(fault, product.product_id)),
    }
}

/// What replacing a product at `commit` does.
pub open spec fn update_product_step(
    tables: ProductTables,
    product: ProductView,
    commit: i64,
) -> Result<ProductTables, StoreErrorView> {
    match update_step(
        tables,
        product.product_id,
        product.service_id,
        commit,
        product_payload(product),
        product_children(product),
    ) {
        Ok(after) => Ok(after),
        Err(fault) => Err(product_error(fault, product.product_id)),
    }
}

/// What deleting a product at `commit` does.
pub open spec fn delete_product_step(
    tables: ProductTables,
    product_id: Seq<char>,
    tenant: Option<Seq<char>>,
    commit: i64,
) -> Result<ProductTables, StoreErrorView> {
    match remove_step(tables, product_id, tenant, commit) {
        Ok(after) => Ok(after),
        Err(fault) => Err(product_error(fault, product_id)),
    }
}

/// The product that a read of `product_id` in `tenant` at `at` gives.
pub open spec fn product_at(
    tables: ProductTables,
    product_id: Seq<char>,
    tenant: Option<Seq<char>>,
    at: Option<i64>,
) -> Result<ProductView, StoreErrorView> {
    match fetched(tables, product_id, tenant, at) {
        Some(version) => Ok(product_of(version)),
        None => Err(product_error(Fault::NotFound, product_id)),
    }
}

/// The products of `tenant` at `at`.
pub open spec fn products_at(tables: ProductTables, tenant: Option<Seq<char>>, at: Option<i64>) -> Seq<
    ProductView,
> {
    listing(tables, tenant, at).map_values(
        |version: Version<ProductPayloadView, PropertyDataView>| product_of(version),
    )
}

/// The index at which a page starts: `offset`, held between 0 and `total`.
pub open spec fn page_start(total: int, offset: i64) -> int {
    if offset <= 0 {
        0
    } else if offset >= total {
        total
    } else {
        offset as int
    }
}

/// The index before which a page ends: `limit` items after its start, but
/// not before the start and not after `total`.
pub open spec fn page_end(total: int, offset: i64, limit: i64) -> int {
    let start = page_start(total, offset);
    if limit <= 0 {
        start
    } else if start + limit >= total {
        total
    } else {
        start + limit
    }
}

/// The page of `items` that `offset` and `limit` cut out.
pub open spec fn page_of<T>(items: Seq<T>, offset: i64, limit: i64) -> Seq<T> {
    items.subrange(
        page_start(items.len() as int, offset),
        page_end(items.len() as int, offset, limit),
    )
}

/// The number of items in a listing, as a page reports it.
pub open spec fn page_total(total: int) -> i64 {
    if total > MAX_COMMIT_NUM {
        MAX_COMMIT_NUM
    } else {
        total as i64
    }
}

/// The store of products.
#[derive(Debug, PartialEq)]
pub struct ProductStore {
    products: EntityStore<ProductPayload, PropertyData>,
}

impl DeepView for ProductStore {
    type V = ProductTables;

    closed spec fn deep_view(&self) -> ProductTables {
        self.products.deep_view()
    }
}

impl ProductStore {
    /// The invariant of the store.
    pub open spec fn well_formed(&self) -> bool {
        consistent(self.deep_view())
    }

    /// A store that holds nothing.
    pub fn new() -> (store: Self)
        ensures
            store.well_formed(),
            store.deep_view() == no_tables::<ProductPayloadView, PropertyDataView>(),
    {
        ProductStore { products: EntityStore::new() }
    }

    /// The product that a stored version stands for.
    fn from_version(root: ProductModel, models: &Vec<ProductPropertyValue>) -> (product: Product)
        ensures
            product.deep_view() == product_of((root.deep_view(), models.deep_view())),
    {
        let properties = get_property_values(models);
        Product {
            product_id: root.key,
            product_address: root.payload.product_address,
            product_namespace: root.payload.product_namespace,
            owner: root.payload.owner,
            start_commit_num: root.start_commit_num,
            end_commit_num: root.end_commit_num,
            service_id: root.service_id,
            properties,
        }
    }

    /// Adds a product, with its properties, as the version that starts at
    /// `commit`.  The commit numbers that `product` and its properties
    /// carry are not read, nor the product that the properties name.
    pub fn add_product(&mut self, product: Product, commit: i64) -> (result: Result<(), StoreError>)
        requires
            old(self).well_formed(),
        ensures
            final(self).well_formed(),
            match add_product_step(old(self).deep_view(), product.deep_view(), commit) {
                Ok(tables) => result is Ok && final(self).deep_view() == tables,
                Err(error) => {
                    &&& result matches Err(refusal) && refusal.deep_view() == error
                    &&& final(self).deep_view() == old(self).deep_view()
                },
            },
    {
        let children = to_children(make_property_value_models(&product.properties, None));
        let key = product.product_id.duplicate();
        let payload = ProductPayload {
            product_address: product.product_address,
            product_namespace: product.product_namespace,
            owner: product.owner,
        };
        match self.products.add(product.product_id, product.service_id, commit, payload, children) {
            Ok(()) => Ok(()),
            Err(fault) => Err(StoreError::new(fault, EntityKind::Product, &key)),
        }
    }

    /// Replaces a product and its properties by the version that starts at
    /// `commit`.
    pub fn update_product(&mut self, product: Product, commit: i64) -> (result: Result<
        (),
        StoreError,
    >)
        requires
            old(self).well_formed(),
        ensures
            final(self).well_formed(),
            match update_product_step(old(self).deep_view(), product.deep_view(), commit) {
                Ok(tables) => result is Ok && final(self).deep_view() == tables,
                Err(error) => {
                    &&& result matches Err(refusal) && refusal.deep_view() == error
                    &&& final(self).deep_view() == old(self).deep_view()
                },
            },
    {
        let children = to_children(make_property_value_models(&product.properties, None));
        let key = product.product_id.duplicate();
        let payload = ProductPayload {
            product_address: product.product_address,
            product_namespace: product.product_namespace,
            owner: product.owner,
        };
        match self.products.update(
            product.product_id,
            product.service_id,
            commit,
            payload,
            children,
        ) {
            Ok(()) => Ok(()),
            Err(fault) => Err(StoreError::new(fault, EntityKind::Product, &key)),
        }
    }

    /// Closes the current version of a product, and of its properties, at
    /// `commit`.
    pub fn delete_product(&mut self, product_id: &str, service_id: Option<&str>, commit: i64) -> (result:
        Result<(), StoreError>)
        requires
            old(self).well_formed(),
        ensures
            final(self).well_formed(),
            match delete_product_step(
                old(self).deep_view(),
                product_id@,
                scope_view(service_id),
                commit,
            ) {
                Ok(tables) => result is Ok && final(self).deep_view() == tables,
                Err(error) => {
                    &&& result matches Err(refusal) && refusal.deep_view() == error
                    &&& final(self).deep_view() == old(self).deep_view()
                },
            },
    {
        let key = product_id.to_owned();
        let tenant = owned_scope(service_id);
        match self.products.remove(&key, &tenant, commit) {
            Ok(()) => Ok(()),
            Err(fault) => Err(StoreError::new(fault, EntityKind::Product, &key)),
        }
    }

    /// The current version of a product, with its properties as a tree.
    pub fn get_product(&self, product_id: &str, service_id: Option<&str>) -> (result: Result<
        Product,
        StoreError,
    >)
        requires
            self.well_formed(),
        ensures
            match product_at(self.deep_view(), product_id@, scope_view(service_id), None) {
                Ok(product) => result matches Ok(found) && found.deep_view() == product,
                Err(error) => result matches Err(refusal) && refusal.deep_view() == error,
            },
    {
        self.read_product(product_id, service_id, None)
    }

    /// The version of a product that was valid at `commit`, with the
    /// properties that it had then.
    pub fn get_product_as_of(&self, product_id: &str, service_id: Option<&str>, commit: i64) -> (result:
        Result<Product, StoreError>)
        requires
            self.well_formed(),
        ensures
            match product_at(self.deep_view(), product_id@, scope_view(service_id), Some(commit)) {
                Ok(product) => result matches Ok(found) && found.deep_view() == product,
                Err(error) => result matches Err(refusal) && refusal.deep_view() == error,
            },
    {
        self.read_product(product_id, service_id, Some(commit))
    }

    fn read_product(&self, product_id: &str, service_id: Option<&str>, at: Option<i64>) -> (result:
        Result<Product, StoreError>)
        requires
            self.well_formed(),
        ensures
            match product_at(self.deep_view(), product_id@, scope_view(service_id), at) {
                Ok(product) => result matches Ok(found) && found.deep_view() == product,
                Err(error) => result matches Err(refusal) && refusal.deep_view() == error,
            },
    {
        let key = product_id.to_owned();
        let tenant = owned_scope(service_id);
        match self.products.fetch(&key, &tenant, at) {
            Ok(version) => Ok(Self::from_version(version.0, &version.1)),
            Err(fault) => Err(StoreError::new(fault, EntityKind::Product, &key)),
        }
    }

    /// The current products of `service_id`, in the order in which they were
    /// stored.
    pub fn all_products(&self, service_id: Option<&str>) -> (products: Vec<Product>)
        ensures
            products.deep_view() == products_at(self.deep_view(), scope_view(service_id), None),
    {
        let tenant = owned_scope(service_id);
        let versions = self.products.list(&tenant, None);
        let ghost target = products_at(self.deep_view(), scope_view(service_id), None);
        let ghost listed = version_views(versions@);
        let mut products: Vec<Product> = Vec::new();
        let mut i: usize = 0;
        while i < versions.len()
            invariant
                i <= versions.len(),
                products.len() == i,
                listed == version_views(versions@),
                listed == listing(self.deep_view(), scope_view(service_id), None),
                target == products_at(self.deep_view(), scope_view(service_id), None),
                forall|j: int| 0 <= j < i ==> (#[trigger] products[j]).deep_view() == target[j],
            decreases versions.len() - i,
        {
            assert(listed[i as int] == (
                versions[i as int].0.deep_view(),
                versions[i as int].1.deep_view(),
            ));
            products.push(Self::from_version(versions[i].0.duplicate(), &versions[i].1));
            i += 1;
        }
        assert(products.deep_view() =~= target);
        products
    }

    /// One page of the current products of `service_id`: `limit` of them at
    /// most, after the first `offset`.  An offset or a limit below zero
    /// counts as zero.
    pub fn list_products(&self, service_id: Option<&str>, offset: i64, limit: i64) -> (list:
        ProductList)
        ensures
            list.data.deep_view() == page_of(
                products_at(self.deep_view(), scope_view(service_id), None),
                offset,
                limit,
            ),
            list.paging == (Paging {
                offset,
                limit,
                total: page_total(
                    products_at(self.deep_view(), scope_view(service_id), None).len() as int,
                ),
            }),
    {
        let all = self.all_products(service_id);
        let ghost target = page_of(all.deep_view(), offset, limit);
        let total: usize = all.len();
        let start: usize = if offset <= 0 {
            0
        } else if offset as u64 >= total as u64 {
            total
        } else {
            offset as usize
        };
        let end: usize = if limit <= 0 {
            start
        } else if limit as u64 >= (total - start) as u64 {
            total
        } else {
            start + limit as usize
        };
        let mut data: Vec<Product> = Vec::new();
        let mut i: usize = start;
        while i < end
            invariant
                start <= i <= end <= all.len(),
                data.len() == i - start,
                forall|j: int|
                    0 <= j < i - start ==> (#[trigger] data[j]).deep_view() == all[start + j].deep_view(),
            decreases end - i,
        {
            data.push(all[i].duplicate());
            i += 1;
        }
        assert(data.deep_view() =~= target);
        let reported: i64 = if total as u64 > MAX_COMMIT_NUM as u64 {
            MAX_COMMIT_NUM
        } else {
            total as i64
        };
        ProductList::new(data, Paging::new(offset, limit, reported))
    }

    /// Returns the store to what it was at `commit`.
    pub fn rollback_to(&mut self, commit: i64)
        requires
            old(self).well_formed(),
        ensures
            final(self).well_formed(),
            final(self).deep_view() == tables_rolled_back(old(self).deep_view(), commit),
    {
        self.products.rollback_to(commit);
    }

    /// Removes every row.
    pub fn clear(&mut self)
        ensures
            final(self).well_formed(),
            final(self).deep_view() == no_tables::<ProductPayloadView, PropertyDataView>(),
    {
        self.products.clear();
    }
}

impl Payload for ProductStore {
    fn duplicate(&self) -> (copy: Self) {
        ProductStore { products: self.products.duplicate() }
    }
}

/// The node that stands for a property below `parent`, with the nodes of
/// the properties that it owns below it.
pub open spec fn property_node(property: PropertyValueView, parent: Option<Seq<char>>) -> Node
    decreases property,
{
    Node {
        row: model_of(property, parent),
        below: Seq::new(
            property.struct_values.len(),
            |i: int|
                if 0 <= i < property.struct_values.len() {
                    property_node(property.struct_values[i], Some(property.property_name))
                } else {
                    arbitrary()
                },
        ),
    }
}

/// The nodes that stand for `properties` below `parent`.
pub open spec fn property_nodes(properties: Seq<PropertyValueView>, parent: Option<Seq<char>>) -> Seq<
    Node,
> {
    Seq::new(properties.len(), |i: int| property_node(properties[i], parent))
}

/// No two properties of the trees have one name.
pub open spec fn distinctly_named(properties: Seq<PropertyValueView>) -> bool {
    unique(property_nodes(properties, None))
}

/// The property that a node stands for, with the properties of the nodes
/// below it.
pub open spec fn property_from(node: Node) -> PropertyValueView
    decreases node,
{
    property_of(
        node.row,
        Seq::new(
            node.below.len(),
            |i: int|
                if 0 <= i < node.below.len() {
                    property_from(node.below[i])
                } else {
                    arbitrary()
                },
        ),
    )
}

/// The property as a read gives it once it was stored with the product `id`
/// of `tenant` at `commit`: it belongs to that product and that tenant and
/// is current from that commit on, and so is every property that it owns.
pub open spec fn stored_property(
    property: PropertyValueView,
    id: Seq<char>,
    tenant: Option<Seq<char>>,
    commit: i64,
) -> PropertyValueView
    decreases property,
{
    PropertyValueView {
        product_id: id,
        service_id: tenant,
        start_commit_num: commit,
        end_commit_num: MAX_COMMIT_NUM,
        struct_values: Seq::new(
            property.struct_values.len(),
            |i: int|
                if 0 <= i < property.struct_values.len() {
                    stored_property(property.struct_values[i], id, tenant, commit)
                } else {
                    arbitrary()
                },
        ),
        ..property
    }
}

/// The product as a read gives it once it was stored at `commit`.
pub open spec fn stored_product(product: ProductView, commit: i64) -> ProductView {
    ProductView {
        start_commit_num: commit,
        end_commit_num: MAX_COMMIT_NUM,
        properties: product.properties.map_values(
            |property: PropertyValueView|
                stored_property(property, product.product_id, product.service_id, commit),
        ),
        ..product
    }
}

/// The rows of properties are the rows of their nodes.
pub proof fn lemma_models_are_rows(
    properties: Seq<PropertyValueView>,
    parent: Option<Seq<char>>,
    upto: int,
)
    requires
        0 <= upto <= properties.len(),
    ensures
        models_upto(properties, parent, upto) == rows_upto(
            property_nodes(properties, parent),
            upto,
        ),
        linked_upto(property_nodes(properties, parent), parent, upto),
    decreases properties, upto,
{
    if upto > 0 {
        let property = properties[upto - 1];
        let node = property_node(property, parent);
        lemma_models_are_rows(properties, parent, upto - 1);
        lemma_models_are_rows(
            property.struct_values,
            Some(property.property_name),
            property.struct_values.len() as int,
        );
        assert(node.below =~= property_nodes(
            property.struct_values,
            Some(property.property_name),
        ));
    }
}

/// Assembling rows is grouping them and reading each node as a property.
pub proof fn lemma_assembled_is_grouped(
    models: Seq<PropertyRowView>,
    parent: Option<Seq<char>>,
    depth: nat,
    upto: int,
)
    requires
        0 <= upto <= models.len(),
    ensures
        assembled_upto(models, parent, depth, upto) == grouped_upto(
            models,
            parent,
            depth,
            upto,
        ).map_values(|node: Node| property_from(node)),
    decreases depth, upto,
{
    let read = |node: Node| property_from(node);
    if upto == 0 {
        assert(assembled_upto(models, parent, depth, upto) =~= grouped_upto(
            models,
            parent,
            depth,
            upto,
        ).map_values(read));
    } else {
        lemma_assembled_is_grouped(models, parent, depth, upto - 1);
        let model = models[upto - 1];
        if model.key.parent == parent {
            let before = grouped_upto(models, parent, depth, upto - 1);
            let node = Node { row: model, below: below_of(models, model, depth) };
            if depth > 0 {
                lemma_assembled_is_grouped(
                    models,
                    Some(model.key.name),
                    (depth - 1) as nat,
                    models.len() as int,
                );
            }
            let below = if depth == 0 {
                Seq::<PropertyValueView>::empty()
            } else {
                assembled_upto(
                    models,
                    Some(model.key.name),
                    (depth - 1) as nat,
                    models.len() as int,
                )
            };
            assert(property_from(node).struct_values =~= below);
            assert(before.push(node).map_values(read) =~= before.map_values(read).push(
                property_from(node),
            ));
        }
    }
}

/// A node whose rows were kept by the store reads as the stored property.
pub proof fn lemma_kept_node(
    property: PropertyValueView,
    parent: Option<Seq<char>>,
    id: Seq<char>,
    tenant: Option<Seq<char>>,
    commit: i64,
)
    ensures
        property_from(changed(property_node(property, parent), kept(id, tenant, commit)))
            == stored_property(property, id, tenant, commit),
    decreases property,
{
    let node = property_node(property, parent);
    let read = property_from(changed(node, kept(id, tenant, commit)));
    let stored = stored_property(property, id, tenant, commit);
    lemma_changed_below(node, kept(id, tenant, commit));
    assert(read.struct_values.len() == stored.struct_values.len());
    assert forall|i: int| 0 <= i < property.struct_values.len() implies read.struct_values[i]
        == stored.struct_values[i] by {
        lemma_kept_node(
            property.struct_values[i],
            Some(property.property_name),
            id,
            tenant,
            commit,
        );
    }
    assert(read.struct_values =~= stored.struct_values);
    assert(read.lat_long_value == stored.lat_long_value);
}

/// Reading back: the rows of properties with distinct names, as the store
/// keeps them, are assembled into the properties as they were stored.
pub proof fn lemma_read_back(
    properties: Seq<PropertyValueView>,
    id: Seq<char>,
    tenant: Option<Seq<char>>,
    commit: i64,
)
    requires
        distinctly_named(properties),
    ensures
        assembled(property_models(properties, None).map_values(kept(id, tenant, commit)))
            == properties.map_values(
            |property: PropertyValueView| stored_property(property, id, tenant, commit),
        ),
{
    let nodes = property_nodes(properties, None);
    let keep = kept(id, tenant, commit);
    let rows = property_models(properties, None).map_values(keep);
    lemma_models_are_rows(properties, None, properties.len() as int);
    law_grouped_changed_rows(nodes, keep);
    lemma_assembled_is_grouped(rows, None, rows.len(), rows.len() as int);
    let read = assembled(rows);
    let stored = properties.map_values(
        |property: PropertyValueView| stored_property(property, id, tenant, commit),
    );
    assert(read.len() == stored.len());
    assert forall|i: int| 0 <= i < stored.len() implies read[i] == stored[i] by {
        lemma_kept_node(properties[i], None, id, tenant, commit);
    }
    assert(read =~= stored);
}

/// The child rows that adding a product stores are the rows of its
/// properties, as the store keeps them.
pub proof fn lemma_stored_rows(product: ProductView, commit: i64)
    ensures
        fresh_all(child_rows(product.product_id, product_children(product)), product.service_id, commit)
            == property_models(product.properties, None).map_values(
            kept(product.product_id, product.service_id, commit),
        ),
{
    assert(fresh_all(
        child_rows(product.product_id, product_children(product)),
        product.service_id,
        commit,
    ) =~= property_models(product.properties, None).map_values(
        kept(product.product_id, product.service_id, commit),
    ));
}

/// Round trip: once a product is added whose properties have distinct
/// names, a read of it gives the product, with its properties as the tree
/// that they were, as the version that starts at the commit.
pub proof fn law_product_round_trip(tables: ProductTables, product: ProductView, commit: i64)
    requires
        consistent(tables),
        add_product_step(tables, product, commit) is Ok,
        distinctly_named(product.properties),
    ensures
        product_at(
            add_product_step(tables, product, commit)->Ok_0,
            product.product_id,
            product.service_id,
            None,
        ) == Ok::<ProductView, StoreErrorView>(stored_product(product, commit)),
{
    law_add_then_fetch(
        tables,
        product.product_id,
        product.service_id,
        commit,
        product_payload(product),
        product_children(product),
    );
    lemma_stored_rows(product, commit);
    lemma_read_back(product.properties, product.product_id, product.service_id, commit);
}

} // verus!
