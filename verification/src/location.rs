//! Locations and their attributes, and the store that keeps their versions.

use vstd::prelude::*;
use vstd::std_specs::convert::FromSpecImpl;
use crate::entity::{
    ChildKey, ChildKeyView, ChildView, EntityStore, Fault, Tables, Version, add_step, child_rows,
    consistent,
    fetched, listing, no_tables, remove_step, tables_rolled_back, update_step, version_views,
};
use crate::error::{EntityKind, StoreError, StoreErrorView};
use crate::ledger::MAX_COMMIT_NUM;
use crate::payload::{Key, Payload};
use crate::property::{
    PropertyData, PropertyDataView, PropertyRow, PropertyRowView, children_of, kept, to_children,
};
use crate::laws::{law_add_then_fetch, stored_version};
use crate::table::{Row, RowView, fresh_all};
use crate::tree::{
    Node, below_of, changed, grouped_upto, law_grouped_changed_rows, lemma_changed_below,
    linked_upto, rows_upto, unique,
};

verus! {

/// The marker of the data type of a latitude and longitude pair.
#[derive(Clone, Copy, Debug)]
pub struct LatLong;

/// A latitude and a longitude, in millionths of a degree.
#[derive(Clone, Debug, PartialEq)]
pub struct LatLongValue(pub i64, pub i64);

impl DeepView for LatLongValue {
    type V = (i64, i64);

    open spec fn deep_view(&self) -> (i64, i64) {
        (self.0, self.1)
    }
}

impl Payload for LatLongValue {
    fn duplicate(&self) -> (copy: Self) {
        LatLongValue(self.0, self.1)
    }
}

impl From<(i64, i64)> for LatLongValue {
    fn from(pair: (i64, i64)) -> (value: Self) {
        LatLongValue(pair.0, pair.1)
    }
}

impl FromSpecImpl<(i64, i64)> for LatLongValue {
    open spec fn obeys_from_spec() -> bool {
        true
    }

    open spec fn from_spec(pair: (i64, i64)) -> Self {
        LatLongValue(pair.0, pair.1)
    }
}

/// The pair that a latitude and a longitude make, where both are there.
pub open spec fn lat_long_of(lat: Option<i64>, long: Option<i64>) -> Option<(i64, i64)> {
    match (lat, long) {
        (Some(latitude), Some(longitude)) => Some((latitude, longitude)),
        _ => None,
    }
}

/// The latitude and longitude value of a row, where the row holds both.
pub fn create_lat_long_value(lat: Option<i64>, long: Option<i64>) -> (value: Option<LatLongValue>)
    ensures
        value.deep_view() == lat_long_of(lat, long),
{
    if let Some(latitude) = lat {
        if let Some(longitude) = long {
            Some(LatLongValue::from((latitude, longitude)))
        } else {
            None
        }
    } else {
        None
    }
}

/// One attribute of a location.  An attribute of a structured type owns the
/// attributes that make it up.
#[derive(Debug)]
pub struct LocationAttribute {
    pub location_id: String,
    pub location_address: String,
    pub property_name: String,
    pub parent_property_name: Option<String>,
    pub data_type: String,
    pub bytes_value: Option<Vec<u8>>,
    pub boolean_value: Option<bool>,
    pub number_value: Option<i64>,
    pub string_value: Option<String>,
    pub enum_value: Option<i32>,
    pub struct_values: Option<Vec<LocationAttribute>>,
    pub lat_long_value: Option<LatLongValue>,
    // The commits between which this version is valid.
    pub start_commit_num: i64,
    pub end_commit_num: i64,
    pub service_id: Option<String>,
}

/// The view of an attribute of a location.
pub struct LocationAttributeView {
    pub location_id: Seq<char>,
    pub location_address: Seq<char>,
    pub property_name: Seq<char>,
    pub parent_property_name: Option<Seq<char>>,
    pub data_type: Seq<char>,
    pub bytes_value: Option<Seq<u8>>,
    pub boolean_value: Option<bool>,
    pub number_value: Option<i64>,
    pub string_value: Option<Seq<char>>,
    pub enum_value: Option<i32>,
    pub struct_values: Option<Seq<LocationAttributeView>>,
    pub lat_long_value: Option<(i64, i64)>,
    pub start_commit_num: i64,
    pub end_commit_num: i64,
    pub service_id: Option<Seq<char>>,
}

/// The view of an attribute, with the views of the attributes that it owns.
pub open spec fn attribute_view(attribute: LocationAttribute) -> LocationAttributeView
    decreases attribute,
{
    LocationAttributeView {
        location_id: attribute.location_id.deep_view(),
        location_address: attribute.location_address.deep_view(),
        property_name: attribute.property_name.deep_view(),
        parent_property_name: attribute.parent_property_name.deep_view(),
        data_type: attribute.data_type.deep_view(),
        bytes_value: attribute.bytes_value.deep_view(),
        boolean_value: attribute.boolean_value,
        number_value: attribute.number_value,
        string_value: attribute.string_value.deep_view(),
        enum_value: attribute.enum_value,
        struct_values: match attribute.struct_values {
            Some(values) => Some(
                Seq::new(
                    values.len() as nat,
                    |i: int|
                        if 0 <= i < values.len() {
                            attribute_view(values[i])
                        } else {
                            arbitrary()
                        },
                ),
            ),
            None => None,
        },
        lat_long_value: attribute.lat_long_value.deep_view(),
        start_commit_num: attribute.start_commit_num,
        end_commit_num: attribute.end_commit_num,
        service_id: attribute.service_id.deep_view(),
    }
}

impl DeepView for LocationAttribute {
    type V = LocationAttributeView;

    open spec fn deep_view(&self) -> LocationAttributeView {
        attribute_view(*self)
    }
}

impl Clone for LocationAttribute {
    fn clone(&self) -> (copy: Self)
        ensures
            copy.deep_view() == self.deep_view(),
    {
        self.duplicate()
    }
}

impl Payload for LocationAttribute {
    fn duplicate(&self) -> (copy: Self)
        decreases self,
    {
        let struct_values = match &self.struct_values {
            Some(values) => {
                let mut copies: Vec<LocationAttribute> = Vec::new();
                let mut i: usize = 0;
                while i < values.len()
                    invariant
                        i <= values.len(),
                        copies.len() == i,
                        self.struct_values == Some(*values),
                        forall|j: int|
                            0 <= j < i ==> (#[trigger] copies[j]).deep_view()
                                == values[j].deep_view(),
                    decreases values.len() - i,
                {
                    proof {
                        assert(self.struct_values->0 == *values);
                        vstd::std_specs::vec::axiom_vec_index_decreases(*values, i as int);
                    }
                    copies.push(values[i].duplicate());
                    i += 1;
                }
                Some(copies)
            },
            None => None,
        };
        let copy = LocationAttribute {
            location_id: self.location_id.duplicate(),
            location_address: self.location_address.duplicate(),
            property_name: self.property_name.duplicate(),
            parent_property_name: self.parent_property_name.duplicate(),
            data_type: self.data_type.duplicate(),
            bytes_value: self.bytes_value.duplicate(),
            boolean_value: self.boolean_value,
            number_value: self.number_value,
            string_value: self.string_value.duplicate(),
            enum_value: self.enum_value,
            struct_values,
            lat_long_value: self.lat_long_value.duplicate(),
            start_commit_num: self.start_commit_num,
            end_commit_num: self.end_commit_num,
            service_id: self.service_id.duplicate(),
        };
        proof {
            if self.struct_values is Some {
                let values = self.struct_values->0;
                let copies = copy.struct_values->0;
                assert(copies.len() == values.len());
                assert forall|j: int| 0 <= j < values.len() implies copy.deep_view().struct_values->0[j]
                    == self.deep_view().struct_values->0[j] by {
                    assert(copies[j].deep_view() == values[j].deep_view());
                }
                assert(copy.deep_view().struct_values->0 =~= self.deep_view().struct_values->0);
            }
        }
        copy
    }
}

/// The row of an attribute of a location, as it is read from the table.
pub type LocationAttributeModel = PropertyRow;

/// The row of an attribute of a location, as it is written to the table.
pub type NewLocationAttributeModel = PropertyRow;

/// What the root row of a location holds.
#[derive(Debug, PartialEq)]
pub struct LocationPayload {
    pub location_namespace: String,
    pub owner: String,
}

/// The view of the root row of a location.
pub struct LocationPayloadView {
    pub location_namespace: Seq<char>,
    pub owner: Seq<char>,
}

impl DeepView for LocationPayload {
    type V = LocationPayloadView;

    open spec fn deep_view(&self) -> LocationPayloadView {
        LocationPayloadView {
            location_namespace: self.location_namespace.deep_view(),
            owner: self.owner.deep_view(),
        }
    }
}

impl Payload for LocationPayload {
    fn duplicate(&self) -> (copy: Self) {
        LocationPayload {
            location_namespace: self.location_namespace.duplicate(),
            owner: self.owner.duplicate(),
        }
    }
}

/// The root row of a location, as it is read from the table.
pub type LocationModel = Row<String, LocationPayload>;

/// The root row of a location, as it is written to the table.
pub type NewLocationModel = Row<String, LocationPayload>;

/// The attribute that a row stands for, with the attributes below it.
pub open spec fn attribute_of(
    model: PropertyRowView,
    struct_values: Option<Seq<LocationAttributeView>>,
) -> LocationAttributeView {
    LocationAttributeView {
        location_id: model.key.owner,
        location_address: model.payload.address,
        property_name: model.key.name,
        parent_property_name: model.key.parent,
        data_type: model.payload.data_type,
        bytes_value: model.payload.bytes_value,
        boolean_value: model.payload.boolean_value,
        number_value: model.payload.number_value,
        string_value: model.payload.string_value,
        enum_value: model.payload.enum_value,
        struct_values,
        lat_long_value: lat_long_of(model.payload.latitude_value, model.payload.longitude_value),
        start_commit_num: model.start_commit_num,
        end_commit_num: model.end_commit_num,
        service_id: model.service_id,
    }
}

/// The row that stands for an attribute below `parent`.  The row is current,
/// whatever end the attribute carries.
pub open spec fn model_of(attribute: LocationAttributeView, parent: Option<Seq<char>>) -> PropertyRowView {
    RowView {
        key: ChildKeyView {
            owner: attribute.location_id,
            parent,
            name: attribute.property_name,
        },
        service_id: attribute.service_id,
        start_commit_num: attribute.start_commit_num,
        end_commit_num: MAX_COMMIT_NUM,
        payload: PropertyDataView {
            address: attribute.location_address,
            data_type: attribute.data_type,
            bytes_value: attribute.bytes_value,
            boolean_value: attribute.boolean_value,
            number_value: attribute.number_value,
            string_value: attribute.string_value,
            enum_value: attribute.enum_value,
            latitude_value: match attribute.lat_long_value {
                Some(pair) => Some(pair.0),
                None => None,
            },
            longitude_value: match attribute.lat_long_value {
                Some(pair) => Some(pair.1),
                None => None,
            },
        },
    }
}

/// The rows that stand for the first `upto` of `attributes` below `parent`:
/// each attribute is followed by the rows of the attributes that it owns,
/// which name it as their parent.
pub open spec fn models_upto(
    attributes: Seq<LocationAttributeView>,
    parent: Option<Seq<char>>,
    upto: int,
) -> Seq<PropertyRowView>
    decreases attributes, upto,
{
    if upto <= 0 || upto > attributes.len() {
        Seq::empty()
    } else {
        let attribute = attributes[upto - 1];
        let below = match attribute.struct_values {
            Some(values) => models_upto(values, Some(attribute.property_name), values.len() as int),
            None => Seq::empty(),
        };
        models_upto(attributes, parent, upto - 1).push(model_of(attribute, parent)) + below
    }
}

/// The rows that stand for `attributes` below `parent`.
pub open spec fn attribute_models(
    attributes: Seq<LocationAttributeView>,
    parent: Option<Seq<char>>,
) -> Seq<PropertyRowView> {
    models_upto(attributes, parent, attributes.len() as int)
}

/// The attributes that the first `upto` of `models` make below `parent`: a
/// row belongs there if it names `parent`, and it owns what the rows that
/// name it make in turn.  `depth` bounds how far down the rows are followed.
pub open spec fn assembled_upto(
    models: Seq<PropertyRowView>,
    parent: Option<Seq<char>>,
    depth: nat,
    upto: int,
) -> Seq<LocationAttributeView>
    decreases depth, upto,
{
    if upto <= 0 || upto > models.len() {
        Seq::empty()
    } else {
        let before = assembled_upto(models, parent, depth, upto - 1);
        let model = models[upto - 1];
        if model.key.parent == parent {
            let below = if depth == 0 {
                Seq::empty()
            } else {
                assembled_upto(
                    models,
                    Some(model.key.name),
                    (depth - 1) as nat,
                    models.len() as int,
                )
            };
            before.push(
                attribute_of(
                    model,
                    if below.len() == 0 {
                        None
                    } else {
                        Some(below)
                    },
                ),
            )
        } else {
            before
        }
    }
}

/// The attributes that the rows of one location make: those without a
/// parent, each with what it owns.
pub open spec fn assembled(models: Seq<PropertyRowView>) -> Seq<LocationAttributeView> {
    assembled_upto(models, None, models.len(), models.len() as int)
}

/// The view of the attributes that an attribute owns is the views of them.
pub proof fn lemma_struct_values_view(attribute: LocationAttribute)
    ensures
        attribute.deep_view().struct_values == attribute.struct_values.deep_view(),
{
    match attribute.struct_values {
        Some(values) => {
            assert(attribute.deep_view().struct_values->0 =~= values.deep_view());
        },
        None => {},
    }
}

impl LocationAttribute {
    /// The attribute that a row stands for, with no attributes below it.
    pub fn from_model(model: LocationAttributeModel) -> (attribute: LocationAttribute)
        ensures
            attribute.deep_view() == attribute_of(model.deep_view(), None),
    {
        LocationAttribute {
            location_id: model.key.owner,
            location_address: model.payload.address,
            property_name: model.key.name,
            parent_property_name: model.key.parent,
            data_type: model.payload.data_type,
            bytes_value: model.payload.bytes_value,
            boolean_value: model.payload.boolean_value,
            number_value: model.payload.number_value,
            string_value: model.payload.string_value,
            enum_value: model.payload.enum_value,
            struct_values: None,
            lat_long_value: create_lat_long_value(
                model.payload.latitude_value,
                model.payload.longitude_value,
            ),
            start_commit_num: model.start_commit_num,
            end_commit_num: model.end_commit_num,
            service_id: model.service_id,
        }
    }

    /// The attribute that a row stands for, with `children` below it.
    pub fn from_model_with_children(
        model: LocationAttributeModel,
        children: Vec<LocationAttribute>,
    ) -> (attribute: LocationAttribute)
        ensures
            attribute.deep_view() == attribute_of(model.deep_view(), Some(children.deep_view())),
    {
        let attribute = LocationAttribute {
            location_id: model.key.owner,
            location_address: model.payload.address,
            property_name: model.key.name,
            parent_property_name: model.key.parent,
            data_type: model.payload.data_type,
            bytes_value: model.payload.bytes_value,
            boolean_value: model.payload.boolean_value,
            number_value: model.payload.number_value,
            string_value: model.payload.string_value,
            enum_value: model.payload.enum_value,
            struct_values: Some(children),
            lat_long_value: create_lat_long_value(
                model.payload.latitude_value,
                model.payload.longitude_value,
            ),
            start_commit_num: model.start_commit_num,
            end_commit_num: model.end_commit_num,
            service_id: model.service_id,
        };
        proof {
            lemma_struct_values_view(attribute);
        }
        attribute
    }

    /// The row that stands for the attribute below `parent`.
    fn to_model(&self, parent: &Option<String>) -> (model: NewLocationAttributeModel)
        ensures
            model.deep_view() == model_of(self.deep_view(), parent.deep_view()),
    {
        let latitude_value = match &self.lat_long_value {
            Some(lat_long) => Some(lat_long.0),
            None => None,
        };
        let longitude_value = match &self.lat_long_value {
            Some(lat_long) => Some(lat_long.1),
            None => None,
        };
        Row {
            key: ChildKey {
                owner: self.location_id.duplicate(),
                parent: parent.duplicate(),
                name: self.property_name.duplicate(),
            },
            service_id: self.service_id.duplicate(),
            start_commit_num: self.start_commit_num,
            end_commit_num: MAX_COMMIT_NUM,
            payload: PropertyData {
                address: self.location_address.duplicate(),
                data_type: self.data_type.duplicate(),
                bytes_value: self.bytes_value.duplicate(),
                boolean_value: self.boolean_value,
                number_value: self.number_value,
                string_value: self.string_value.duplicate(),
                enum_value: self.enum_value,
                latitude_value,
                longitude_value,
            },
        }
    }
}

/// The rows that stand for `attributes` below `parent_property_name`: each
/// attribute is followed by the rows of the attributes that it owns.
pub fn make_location_attribute_models(
    attributes: &Vec<LocationAttribute>,
    parent_property_name: Option<String>,
) -> (models: Vec<NewLocationAttributeModel>)
    ensures
        models.deep_view() == attribute_models(
            attributes.deep_view(),
            parent_property_name.deep_view(),
        ),
    decreases attributes,
{
    let ghost all = attributes.deep_view();
    let ghost parent = parent_property_name.deep_view();
    let mut attrs: Vec<NewLocationAttributeModel> = Vec::new();
    let mut i: usize = 0;
    assert(attrs.deep_view() =~= models_upto(all, parent, 0));
    while i < attributes.len()
        invariant
            i <= attributes.len(),
            all == attributes.deep_view(),
            parent == parent_property_name.deep_view(),
            attrs.deep_view() == models_upto(all, parent, i as int),
        decreases attributes.len() - i,
    {
        let attr = &attributes[i];
        let ghost before = attrs.deep_view();
        attrs.push(attr.to_model(&parent_property_name));
        let ghost pushed = attrs.deep_view();
        proof {
            assert(all[i as int] == attr.deep_view());
            assert(pushed =~= before.push(model_of(all[i as int], parent)));
            lemma_struct_values_view(*attr);
        }
        if attr.struct_values.is_some() {
            let vals = attr.struct_values.as_ref().unwrap();
            assert(all[i as int].struct_values == Some(vals.deep_view()));
            if !vals.is_empty() {
                proof {
                    assert(attr.struct_values->0 == *vals);
                    vstd::std_specs::vec::axiom_vec_index_decreases(*attributes, i as int);
                }
                let mut below = make_location_attribute_models(
                    vals,
                    Some(attr.property_name.duplicate()),
                );
                let ghost tail = below.deep_view();
                attrs.append(&mut below);
                assert(attrs.deep_view() =~= pushed + tail);
            } else {
                assert(models_upto(vals.deep_view(), Some(all[i as int].property_name), 0)
                    == Seq::<PropertyRowView>::empty());
                assert(pushed =~= pushed + Seq::<PropertyRowView>::empty());
            }
        } else {
            assert(pushed =~= pushed + Seq::<PropertyRowView>::empty());
        }
        i += 1;
    }
    attrs
}

/// The attributes that `models` make below `parent`, following the rows
/// `depth` levels down.
fn assemble(models: &Vec<LocationAttributeModel>, parent: &Option<String>, depth: usize) -> (attributes:
    Vec<LocationAttribute>)
    ensures
        attributes.deep_view() == assembled_upto(
            models.deep_view(),
            parent.deep_view(),
            depth as nat,
            models.len() as int,
        ),
    decreases depth,
{
    let ghost all = models.deep_view();
    let ghost above = parent.deep_view();
    let mut attributes: Vec<LocationAttribute> = Vec::new();
    let mut i: usize = 0;
    assert(attributes.deep_view() =~= assembled_upto(all, above, depth as nat, 0));
    while i < models.len()
        invariant
            i <= models.len(),
            all == models.deep_view(),
            above == parent.deep_view(),
            attributes.deep_view() == assembled_upto(all, above, depth as nat, i as int),
        decreases models.len() - i,
    {
        let model = &models[i];
        if model.key.parent.same(parent) {
            let below = if depth == 0 {
                Vec::new()
            } else {
                assemble(models, &Some(model.key.name.duplicate()), depth - 1)
            };
            let ghost before = attributes.deep_view();
            let attribute = if below.len() == 0 {
                LocationAttribute::from_model(model.duplicate())
            } else {
                LocationAttribute::from_model_with_children(model.duplicate(), below)
            };
            attributes.push(attribute);
            assert(attributes.deep_view() =~= before.push(attribute.deep_view()));
        }
        i += 1;
    }
    attributes
}

/// The attributes that the rows of one location make.
pub fn assemble_attributes(models: &Vec<LocationAttributeModel>) -> (attributes: Vec<
    LocationAttribute,
>)
    ensures
        attributes.deep_view() == assembled(models.deep_view()),
{
    assemble(models, &None, models.len())
}

/// A location, with the attributes that describe it.
#[derive(Debug)]
pub struct Location {
    pub location_id: String,
    pub location_namespace: String,
    pub owner: String,
    pub attributes: Vec<LocationAttribute>,
    // The commits between which this version is valid.
    pub start_commit_num: i64,
    pub end_commit_num: i64,
    pub service_id: Option<String>,
}

/// The view of a location.
pub struct LocationView {
    pub location_id: Seq<char>,
    pub location_namespace: Seq<char>,
    pub owner: Seq<char>,
    pub attributes: Seq<LocationAttributeView>,
    pub start_commit_num: i64,
    pub end_commit_num: i64,
    pub service_id: Option<Seq<char>>,
}

impl DeepView for Location {
    type V = LocationView;

    open spec fn deep_view(&self) -> LocationView {
        LocationView {
            location_id: self.location_id.deep_view(),
            location_namespace: self.location_namespace.deep_view(),
            owner: self.owner.deep_view(),
            attributes: self.attributes.deep_view(),
            start_commit_num: self.start_commit_num,
            end_commit_num: self.end_commit_num,
            service_id: self.service_id.deep_view(),
        }
    }
}

impl Payload for Location {
    fn duplicate(&self) -> (copy: Self) {
        Location {
            location_id: self.location_id.duplicate(),
            location_namespace: self.location_namespace.duplicate(),
            owner: self.owner.duplicate(),
            attributes: self.attributes.duplicate(),
            start_commit_num: self.start_commit_num,
            end_commit_num: self.end_commit_num,
            service_id: self.service_id.duplicate(),
        }
    }
}

impl Clone for Location {
    fn clone(&self) -> (copy: Self)
        ensures
            copy.deep_view() == self.deep_view(),
    {
        self.duplicate()
    }
}

impl From<(LocationModel, Vec<LocationAttribute>)> for Location {
    fn from(parts: (LocationModel, Vec<LocationAttribute>)) -> (location: Self) {
        let (location, attributes) = parts;
        Location {
            location_id: location.key,
            location_namespace: location.payload.location_namespace,
            owner: location.payload.owner,
            attributes,
            start_commit_num: location.start_commit_num,
            end_commit_num: location.end_commit_num,
            service_id: location.service_id,
        }
    }
}

impl FromSpecImpl<(LocationModel, Vec<LocationAttribute>)> for Location {
    open spec fn obeys_from_spec() -> bool {
        true
    }

    open spec fn from_spec(parts: (LocationModel, Vec<LocationAttribute>)) -> Self {
        Location {
            location_id: parts.0.key,
            location_namespace: parts.0.payload.location_namespace,
            owner: parts.0.payload.owner,
            attributes: parts.1,
            start_commit_num: parts.0.start_commit_num,
            end_commit_num: parts.0.end_commit_num,
            service_id: parts.0.service_id,
        }
    }
}

impl Location {
    /// The location that a root row stands for, without attributes.
    pub fn from_model(location: LocationModel) -> (result: Location)
        ensures
            result.deep_view() == location_of(
                (location.deep_view(), Seq::<PropertyRowView>::empty()),
            ),
    {
        let result = Location {
            location_id: location.key,
            location_namespace: location.payload.location_namespace,
            owner: location.payload.owner,
            attributes: Vec::new(),
            start_commit_num: location.start_commit_num,
            end_commit_num: location.end_commit_num,
            service_id: location.service_id,
        };
        assert(result.deep_view().attributes =~= assembled(Seq::<PropertyRowView>::empty()));
        result
    }

    /// The root row that stands for the location.  The row is current,
    /// whatever end the location carries, and the attributes are left out.
    pub fn into_model(self) -> (model: NewLocationModel)
        ensures
            model.deep_view() == location_model(self.deep_view()),
    {
        Row {
            key: self.location_id,
            service_id: self.service_id,
            start_commit_num: self.start_commit_num,
            end_commit_num: MAX_COMMIT_NUM,
            payload: LocationPayload {
                location_namespace: self.location_namespace,
                owner: self.owner,
            },
        }
    }
}

/// The root row that stands for a location.
pub open spec fn location_model(location: LocationView) -> RowView<Seq<char>, LocationPayloadView> {
    RowView {
        key: location.location_id,
        service_id: location.service_id,
        start_commit_num: location.start_commit_num,
        end_commit_num: MAX_COMMIT_NUM,
        payload: LocationPayloadView {
            location_namespace: location.location_namespace,
            owner: location.owner,
        },
    }
}

/// The tables of locations: a root row for each location, a child row for
/// each attribute.
pub type LocationTables = Tables<LocationPayloadView, PropertyDataView>;

/// The children that stand for the attributes of a location.
pub open spec fn location_children(attributes: Seq<LocationAttributeView>) -> Seq<
    ChildView<PropertyDataView>,
> {
    children_of(attribute_models(attributes, None))
}

/// The location that a stored version stands for.
pub open spec fn location_of(version: Version<LocationPayloadView, PropertyDataView>) -> LocationView {
    LocationView {
        location_id: version.0.key,
        location_namespace: version.0.payload.location_namespace,
        owner: version.0.payload.owner,
        attributes: assembled(version.1),
        start_commit_num: version.0.start_commit_num,
        end_commit_num: version.0.end_commit_num,
        service_id: version.0.service_id,
    }
}

/// The error of an operation on the location `key`.
pub open spec fn location_error(fault: Fault, key: Seq<char>) -> StoreErrorView {
    StoreErrorView { fault, entity: EntityKind::Location, key }
}

/// What adding a location with `attributes` at `commit` does.
pub open spec fn add_location_step(
    tables: LocationTables,
    location: LocationView,
    attributes: Seq<LocationAttributeView>,
    commit: i64,
) -> Result<LocationTables, StoreErrorView> {
    match add_step(
        tables,
        location.location_id,
        location.service_id,
        commit,
        location_model(location).payload,
        location_children(attributes),
    ) {
        Ok(after) => Ok(after),
        Err(fault) => Err(location_error(fault, location.location_id)),
    }
}

/// What replacing a location and its attributes at `commit` does.
pub open spec fn update_location_step(
    tables: LocationTables,
    location: LocationView,
    attributes: Seq<LocationAttributeView>,
    commit: i64,
) -> Result<LocationTables, StoreErrorView> {
    match update_step(
        tables,
        location.location_id,
        location.service_id,
        commit,
        location_model(location).payload,
        location_children(attributes),
    ) {
        Ok(after) => Ok(after),
        Err(fault) => Err(location_error(fault, location.location_id)),
    }
}

/// What deleting a location at `commit` does.
pub open spec fn delete_location_step(
    tables: LocationTables,
    location_id: Seq<char>,
    tenant: Option<Seq<char>>,
    commit: i64,
) -> Result<LocationTables, StoreErrorView> {
    match remove_step(tables, location_id, tenant, commit) {
        Ok(after) => Ok(after),
        Err(fault) => Err(location_error(fault, location_id)),
    }
}

/// The location that a read of `location_id` in `tenant` at `at` gives.
pub open spec fn location_at(
    tables: LocationTables,
    location_id: Seq<char>,
    tenant: Option<Seq<char>>,
    at: Option<i64>,
) -> Result<LocationView, StoreErrorView> {
    match fetched(tables, location_id, tenant, at) {
        Some(version) => Ok(location_of(version)),
        None => Err(location_error(Fault::NotFound, location_id)),
    }
}

/// The locations of `tenant` at `at`.
pub open spec fn locations_at(
    tables: LocationTables,
    tenant: Option<Seq<char>>,
    at: Option<i64>,
) -> Seq<LocationView> {
    listing(tables, tenant, at).map_values(
        |version: Version<LocationPayloadView, PropertyDataView>| location_of(version),
    )
}

/// The store of locations.
#[derive(Debug, PartialEq)]
pub struct LocationStore {
    locations: EntityStore<LocationPayload, PropertyData>,
}

impl DeepView for LocationStore {
    type V = LocationTables;

    closed spec fn deep_view(&self) -> LocationTables {
        self.locations.deep_view()
    }
}

impl LocationStore {
    /// The invariant of the store.
    pub open spec fn well_formed(&self) -> bool {
        consistent(self.deep_view())
    }

    /// A store that holds nothing.
    pub fn new() -> (store: Self)
        ensures
            store.well_formed(),
            store.deep_view() == no_tables::<LocationPayloadView, PropertyDataView>(),
    {
        LocationStore { locations: EntityStore::new() }
    }

    /// The location that a stored version stands for.
    fn from_version(version: (LocationModel, Vec<LocationAttributeModel>)) -> (location: Location)
        ensures
            location.deep_view() == location_of((version.0.deep_view(), version.1.deep_view())),
    {
        let attributes = assemble_attributes(&version.1);
        Location::from((version.0, attributes))
    }

    /// Adds a location, with `attributes`, as the version that starts at
    /// `current_commit_num`.  The attributes and the commit numbers that
    /// `location` carries are not read, nor the location and the commit
    /// numbers that the attributes carry.
    pub fn add_location(
        &mut self,
        location: Location,
        attributes: Vec<LocationAttribute>,
        current_commit_num: i64,
    ) -> (result: Result<(), StoreError>)
        requires
            old(self).well_formed(),
        ensures
            final(self).well_formed(),
            match add_location_step(
                old(self).deep_view(),
                location.deep_view(),
                attributes.deep_view(),
                current_commit_num,
            ) {
                Ok(tables) => result is Ok && final(self).deep_view() == tables,
                Err(error) => {
                    &&& result matches Err(refusal) && refusal.deep_view() == error
                    &&& final(self).deep_view() == old(self).deep_view()
                },
            },
    {
        let children = to_children(make_location_attribute_models(&attributes, None));
        let key = location.location_id.duplicate();
        let model = location.into_model();
        match self.locations.add(
            model.key,
            model.service_id,
            current_commit_num,
            model.payload,
            children,
        ) {
            Ok(()) => Ok(()),
            Err(fault) => Err(StoreError::new(fault, EntityKind::Location, &key)),
        }
    }

    /// Replaces a location and its attributes by the version that starts at
    /// `current_commit_num`.
    pub fn update_location(
        &mut self,
        location: Location,
        attributes: Vec<LocationAttribute>,
        current_commit_num: i64,
    ) -> (result: Result<(), StoreError>)
        requires
            old(self).well_formed(),
        ensures
            final(self).well_formed(),
            match update_location_step(
                old(self).deep_view(),
                location.deep_view(),
                attributes.deep_view(),
                current_commit_num,
            ) {
                Ok(tables) => result is Ok && final(self).deep_view() == tables,
                Err(error) => {
                    &&& result matches Err(refusal) && refusal.deep_view() == error
                    &&& final(self).deep_view() == old(self).deep_view()
                },
            },
    {
        let children = to_children(make_location_attribute_models(&attributes, None));
        let key = location.location_id.duplicate();
        let model = location.into_model();
        match self.locations.update(
            model.key,
            model.service_id,
            current_commit_num,
            model.payload,
            children,
        ) {
            Ok(()) => Ok(()),
            Err(fault) => Err(StoreError::new(fault, EntityKind::Location, &key)),
        }
    }

    /// Closes the current version of a location, and of its attributes, at
    /// `current_commit_num`.  A location that has no current version is
    /// reported as not found.
    pub fn delete_location(
        &mut self,
        location_id: &str,
        service_id: Option<String>,
        current_commit_num: i64,
    ) -> (result: Result<(), StoreError>)
        requires
            old(self).well_formed(),
        ensures
            final(self).well_formed(),
            match delete_location_step(
                old(self).deep_view(),
                location_id@,
                service_id.deep_view(),
                current_commit_num,
            ) {
                Ok(tables) => result is Ok && final(self).deep_view() == tables,
                Err(error) => {
                    &&& result matches Err(refusal) && refusal.deep_view() == error
                    &&& final(self).deep_view() == old(self).deep_view()
                },
            },
    {
        let key = location_id.to_owned();
        match self.locations.remove(&key, &service_id, current_commit_num) {
            Ok(()) => Ok(()),
            Err(fault) => Err(StoreError::new(fault, EntityKind::Location, &key)),
        }
    }

    /// The current version of a location, with its attributes as a tree.
    pub fn fetch_location(&self, location_id: &str, service_id: Option<String>) -> (result: Result<
        Location,
        StoreError,
    >)
        requires
            self.well_formed(),
        ensures
            match location_at(self.deep_view(), location_id@, service_id.deep_view(), None) {
                Ok(location) => result matches Ok(found) && found.deep_view() == location,
                Err(error) => result matches Err(refusal) && refusal.deep_view() == error,
            },
    {
        self.read_location(location_id, service_id, None)
    }

    /// The version of a location that was valid at `commit`, with the
    /// attributes that it had then.
    pub fn fetch_location_as_of(
        &self,
        location_id: &str,
        service_id: Option<String>,
        commit: i64,
    ) -> (result: Result<Location, StoreError>)
        requires
            self.well_formed(),
        ensures
            match location_at(self.deep_view(), location_id@, service_id.deep_view(), Some(commit)) {
                Ok(location) => result matches Ok(found) && found.deep_view() == location,
                Err(error) => result matches Err(refusal) && refusal.deep_view() == error,
            },
    {
        self.read_location(location_id, service_id, Some(commit))
    }

    fn read_location(&self, location_id: &str, service_id: Option<String>, at: Option<i64>) -> (result:
        Result<Location, StoreError>)
        requires
            self.well_formed(),
        ensures
            match location_at(self.deep_view(), location_id@, service_id.deep_view(), at) {
                Ok(location) => result matches Ok(found) && found.deep_view() == location,
                Err(error) => result matches Err(refusal) && refusal.deep_view() == error,
            },
    {
        let key = location_id.to_owned();
        match self.locations.fetch(&key, &service_id, at) {
            Ok(version) => Ok(Self::from_version(version)),
            Err(fault) => Err(StoreError::new(fault, EntityKind::Location, &key)),
        }
    }

    /// The current locations of `service_id`, in the order in which they
    /// were stored.
    pub fn list_locations(&self, service_id: Option<String>) -> (locations: Vec<Location>)
        ensures
            locations.deep_view() == locations_at(self.deep_view(), service_id.deep_view(), None),
    {
        let versions = self.locations.list(&service_id, None);
        let ghost target = locations_at(self.deep_view(), service_id.deep_view(), None);
        let ghost listed = version_views(versions@);
        let mut locations: Vec<Location> = Vec::new();
        let mut i: usize = 0;
        while i < versions.len()
            invariant
                i <= versions.len(),
                locations.len() == i,
                listed == version_views(versions@),
                listed == listing(self.deep_view(), service_id.deep_view(), None),
                target == locations_at(self.deep_view(), service_id.deep_view(), None),
                forall|j: int| 0 <= j < i ==> (#[trigger] locations[j]).deep_view() == target[j],
            decreases versions.len() - i,
        {
            assert(listed[i as int] == (
                versions[i as int].0.deep_view(),
                versions[i as int].1.deep_view(),
            ));
            let root = versions[i].0.duplicate();
            let attributes = assemble_attributes(&versions[i].1);
            locations.push(Location::from((root, attributes)));
            i += 1;
        }
        assert(locations.deep_view() =~= target);
        locations
    }

    /// Returns the store to what it was at `commit`.
    pub fn rollback_to(&mut self, commit: i64)
        requires
            old(self).well_formed(),
        ensures
            final(self).well_formed(),
            final(self).deep_view() == tables_rolled_back(old(self).deep_view(), commit),
    {
        self.locations.rollback_to(commit);
    }

    /// Removes every row.
    pub fn clear(&mut self)
        ensures
            final(self).well_formed(),
            final(self).deep_view() == no_tables::<LocationPayloadView, PropertyDataView>(),
    {
        self.locations.clear();
    }
}

impl Payload for LocationStore {
    fn duplicate(&self) -> (copy: Self) {
        LocationStore { locations: self.locations.duplicate() }
    }
}

/// The node that stands for an attribute below `parent`, with the nodes of
/// the attributes that it owns below it.
pub open spec fn attribute_node(attribute: LocationAttributeView, parent: Option<Seq<char>>) -> Node
    decreases attribute,
{
    Node {
        row: model_of(attribute, parent),
        below: match attribute.struct_values {
            Some(values) => Seq::new(
                values.len(),
                |i: int|
                    if 0 <= i < values.len() {
                        attribute_node(values[i], Some(attribute.property_name))
                    } else {
                        arbitrary()
                    },
            ),
            None => Seq::empty(),
        },
    }
}

/// The nodes that stand for `attributes` below `parent`.
pub open spec fn attribute_nodes(
    attributes: Seq<LocationAttributeView>,
    parent: Option<Seq<char>>,
) -> Seq<Node> {
    Seq::new(attributes.len(), |i: int| attribute_node(attributes[i], parent))
}

/// No two attributes of the trees have one name.
pub open spec fn distinctly_named(attributes: Seq<LocationAttributeView>) -> bool {
    unique(attribute_nodes(attributes, None))
}

/// The attribute that a node stands for, with the attributes of the nodes
/// below it, where there are any.
pub open spec fn attribute_from(node: Node) -> LocationAttributeView
    decreases node,
{
    attribute_of(
        node.row,
        if node.below.len() == 0 {
            None
        } else {
            Some(
                Seq::new(
                    node.below.len(),
                    |i: int|
                        if 0 <= i < node.below.len() {
                            attribute_from(node.below[i])
                        } else {
                            arbitrary()
                        },
                ),
            )
        },
    )
}

/// The attribute as a read gives it once it was stored below `parent` with
/// the location `id` of `tenant` at `commit`: it belongs to that location
/// and that tenant, names that parent and is current from that commit on,
/// and so is every attribute that it owns.  An attribute that owns no
/// attribute is read as one that has none to own.
pub open spec fn stored_attribute(
    attribute: LocationAttributeView,
    parent: Option<Seq<char>>,
    id: Seq<char>,
    tenant: Option<Seq<char>>,
    commit: i64,
) -> LocationAttributeView
    decreases attribute,
{
    LocationAttributeView {
        location_id: id,
        parent_property_name: parent,
        service_id: tenant,
        start_commit_num: commit,
        end_commit_num: MAX_COMMIT_NUM,
        struct_values: match attribute.struct_values {
            Some(values) => if values.len() == 0 {
                None
            } else {
                Some(
                    Seq::new(
                        values.len(),
                        |i: int|
                            if 0 <= i < values.len() {
                                stored_attribute(
                                    values[i],
                                    Some(attribute.property_name),
                                    id,
                                    tenant,
                                    commit,
                                )
                            } else {
                                arbitrary()
                            },
                    ),
                )
            },
            None => None,
        },
        ..attribute
    }
}

/// The location as a read gives it once it was stored with `attributes` at
/// `commit`.
pub open spec fn stored_location(
    location: LocationView,
    attributes: Seq<LocationAttributeView>,
    commit: i64,
) -> LocationView {
    LocationView {
        start_commit_num: commit,
        end_commit_num: MAX_COMMIT_NUM,
        attributes: attributes.map_values(
            |attribute: LocationAttributeView|
                stored_attribute(
                    attribute,
                    None,
                    location.location_id,
                    location.service_id,
                    commit,
                ),
        ),
        ..location
    }
}

/// The rows of attributes are the rows of their nodes.
pub proof fn lemma_models_are_rows(
    attributes: Seq<LocationAttributeView>,
    parent: Option<Seq<char>>,
    upto: int,
)
    requires
        0 <= upto <= attributes.len(),
    ensures
        models_upto(attributes, parent, upto) == rows_upto(
            attribute_nodes(attributes, parent),
            upto,
        ),
        linked_upto(attribute_nodes(attributes, parent), parent, upto),
    decreases attributes, upto,
{
    if upto > 0 {
        let attribute = attributes[upto - 1];
        let node = attribute_node(attribute, parent);
        lemma_models_are_rows(attributes, parent, upto - 1);
        let before = models_upto(attributes, parent, upto - 1).push(model_of(attribute, parent));
        match attribute.struct_values {
            Some(values) => {
                lemma_models_are_rows(
                    values,
                    Some(attribute.property_name),
                    values.len() as int,
                );
                assert(node.below =~= attribute_nodes(values, Some(attribute.property_name)));
            },
            None => {
                assert(node.below.len() == 0);
                assert(rows_upto(node.below, 0) == Seq::<PropertyRowView>::empty());
                assert(linked_upto(node.below, Some(attribute.property_name), 0));
                assert(before + Seq::<PropertyRowView>::empty() =~= before);
            },
        }
        assert(attribute_nodes(attributes, parent)[upto - 1] == node);
    }
}

/// Assembling rows is grouping them and reading each node as an attribute.
pub proof fn lemma_assembled_is_grouped(
    models: Seq<PropertyRowView>,
    parent: Option<Seq<char>>,
    depth: nat,
    upto: int,
)
    requires
        0 <= upto <= models.len(),
    ensures
        assembled_upto(models, parent, depth, upto) == grouped_upto(
            models,
            parent,
            depth,
            upto,
        ).map_values(|node: Node| attribute_from(node)),
    decreases depth, upto,
{
    let read = |node: Node| attribute_from(node);
    if upto == 0 {
        assert(assembled_upto(models, parent, depth, upto) =~= grouped_upto(
            models,
            parent,
            depth,
            upto,
        ).map_values(read));
    } else {
        lemma_assembled_is_grouped(models, parent, depth, upto - 1);
        let model = models[upto - 1];
        if model.key.parent == parent {
            let before = grouped_upto(models, parent, depth, upto - 1);
            let node = Node { row: model, below: below_of(models, model, depth) };
            if depth > 0 {
                lemma_assembled_is_grouped(
                    models,
                    Some(model.key.name),
                    (depth - 1) as nat,
                    models.len() as int,
                );
            }
            let below = if depth == 0 {
                Seq::<LocationAttributeView>::empty()
            } else {
                assembled_upto(
                    models,
                    Some(model.key.name),
                    (depth - 1) as nat,
                    models.len() as int,
                )
            };
            assert(node.below.len() == below.len());
            if below.len() > 0 {
                assert(attribute_from(node).struct_values->0 =~= below);
            }
            assert(before.push(node).map_values(read) =~= before.map_values(read).push(
                attribute_from(node),
            ));
        }
    }
}

/// A node whose rows were kept by the store reads as the stored attribute.
pub proof fn lemma_kept_node(
    attribute: LocationAttributeView,
    parent: Option<Seq<char>>,
    id: Seq<char>,
    tenant: Option<Seq<char>>,
    commit: i64,
)
    ensures
        attribute_from(changed(attribute_node(attribute, parent), kept(id, tenant, commit)))
            == stored_attribute(attribute, parent, id, tenant, commit),
    decreases attribute,
{
    let node = attribute_node(attribute, parent);
    let read = attribute_from(changed(node, kept(id, tenant, commit)));
    let stored = stored_attribute(attribute, parent, id, tenant, commit);
    lemma_changed_below(node, kept(id, tenant, commit));
    match attribute.struct_values {
        Some(values) => {
            if values.len() > 0 {
                assert(read.struct_values is Some);
                assert(read.struct_values->0.len() == stored.struct_values->0.len());
                assert forall|i: int| 0 <= i < values.len() implies read.struct_values->0[i]
                    == stored.struct_values->0[i] by {
                    lemma_kept_node(values[i], Some(attribute.property_name), id, tenant, commit);
                }
                assert(read.struct_values->0 =~= stored.struct_values->0);
            }
        },
        None => {},
    }
    assert(read.lat_long_value == stored.lat_long_value);
}

/// Reading back: the rows of attributes with distinct names, as the store
/// keeps them, are assembled into the attributes as they were stored.
pub proof fn lemma_read_back(
    attributes: Seq<LocationAttributeView>,
    id: Seq<char>,
    tenant: Option<Seq<char>>,
    commit: i64,
)
    requires
        distinctly_named(attributes),
    ensures
        assembled(attribute_models(attributes, None).map_values(kept(id, tenant, commit)))
            == attributes.map_values(
            |attribute: LocationAttributeView|
                stored_attribute(attribute, None, id, tenant, commit),
        ),
{
    let nodes = attribute_nodes(attributes, None);
    let keep = kept(id, tenant, commit);
    let rows = attribute_models(attributes, None).map_values(keep);
    lemma_models_are_rows(attributes, None, attributes.len() as int);
    law_grouped_changed_rows(nodes, keep);
    lemma_assembled_is_grouped(rows, None, rows.len(), rows.len() as int);
    let read = assembled(rows);
    let stored = attributes.map_values(
        |attribute: LocationAttributeView| stored_attribute(attribute, None, id, tenant, commit),
    );
    assert(read.len() == stored.len());
    assert forall|i: int| 0 <= i < stored.len() implies read[i] == stored[i] by {
        lemma_kept_node(attributes[i], None, id, tenant, commit);
    }
    assert(read =~= stored);
}

/// The child rows that adding a location stores are the rows of its
/// attributes, as the store keeps them.
pub proof fn lemma_stored_rows(
    attributes: Seq<LocationAttributeView>,
    id: Seq<char>,
    tenant: Option<Seq<char>>,
    commit: i64,
)
    ensures
        fresh_all(child_rows(id, location_children(attributes)), tenant, commit)
            == attribute_models(attributes, None).map_values(kept(id, tenant, commit)),
{
    assert(fresh_all(child_rows(id, location_children(attributes)), tenant, commit)
        =~= attribute_models(attributes, None).map_values(kept(id, tenant, commit)));
}

/// Round trip: once a location is added with attributes that have distinct
/// names, a read of it gives the location, with its attributes as the tree
/// that they were, as the version that starts at the commit.
pub proof fn law_location_round_trip(
    tables: LocationTables,
    location: LocationView,
    attributes: Seq<LocationAttributeView>,
    commit: i64,
)
    requires
        consistent(tables),
        add_location_step(tables, location, attributes, commit) is Ok,
        distinctly_named(attributes),
    ensures
        location_at(
            add_location_step(tables, location, attributes, commit)->Ok_0,
            location.location_id,
            location.service_id,
            None,
        ) == Ok::<LocationView, StoreErrorView>(stored_location(location, attributes, commit)),
{
    law_add_then_fetch(
        tables,
        location.location_id,
        location.service_id,
        commit,
        location_model(location).payload,
        location_children(attributes),
    );
    lemma_stored_rows(attributes, location.location_id, location.service_id, commit);
    lemma_read_back(attributes, location.location_id, location.service_id, commit);
}

} // verus!
