//! The value of a property, as a child row holds it.  Attributes of locations
//! and properties of products are stored alike.

use vstd::prelude::*;
use crate::entity::{Child, ChildKey, ChildKeyView, ChildView};
use crate::payload::Payload;
use crate::table::{Row, RowView, fresh};

verus! {

/// What the row of a property holds: the address of its owner in the
/// ledger, its type, and its value in the field that the type calls for.
#[derive(Debug, PartialEq)]
pub struct PropertyData {
    pub address: String,
    pub data_type: String,
    pub bytes_value: Option<Vec<u8>>,
    pub boolean_value: Option<bool>,
    pub number_value: Option<i64>,
    pub string_value: Option<String>,
    pub enum_value: Option<i32>,
    pub latitude_value: Option<i64>,
    pub longitude_value: Option<i64>,
}

/// The view of the row of a property.
pub struct PropertyDataView {
    pub address: Seq<char>,
    pub data_type: Seq<char>,
    pub bytes_value: Option<Seq<u8>>,
    pub boolean_value: Option<bool>,
    pub number_value: Option<i64>,
    pub string_value: Option<Seq<char>>,
    pub enum_value: Option<i32>,
    pub latitude_value: Option<i64>,
    pub longitude_value: Option<i64>,
}

impl DeepView for PropertyData {
    type V = PropertyDataView;

    open spec fn deep_view(&self) -> PropertyDataView {
        PropertyDataView {
            address: self.address.deep_view(),
            data_type: self.data_type.deep_view(),
            bytes_value: self.bytes_value.deep_view(),
            boolean_value: self.boolean_value,
            number_value: self.number_value,
            string_value: self.string_value.deep_view(),
            enum_value: self.enum_value,
            latitude_value: self.latitude_value,
            longitude_value: self.longitude_value,
        }
    }
}

impl Payload for PropertyData {
    fn duplicate(&self) -> (copy: Self) {
        PropertyData {
            address: self.address.duplicate(),
            data_type: self.data_type.duplicate(),
            bytes_value: self.bytes_value.duplicate(),
            boolean_value: self.boolean_value,
            number_value: self.number_value,
            string_value: self.string_value.duplicate(),
            enum_value: self.enum_value,
            latitude_value: self.latitude_value,
            longitude_value: self.longitude_value,
        }
    }
}

/// The row of a property: its owner, the name of its parent and its own
/// name, and its value.
pub type PropertyRow = Row<ChildKey, PropertyData>;

/// The view of the row of a property.
pub type PropertyRowView = RowView<ChildKeyView, PropertyDataView>;

/// The child that a row is stored as: its place below the owner and its value.
pub open spec fn child_of(row: PropertyRowView) -> ChildView<PropertyDataView> {
    ChildView { parent: row.key.parent, name: row.key.name, payload: row.payload }
}

/// The children that rows are stored as, in their order.
pub open spec fn children_of(rows: Seq<PropertyRowView>) -> Seq<ChildView<PropertyDataView>> {
    rows.map_values(|row: PropertyRowView| child_of(row))
}

/// The row as the store keeps it when it is written for the entity `owner`
/// of `tenant` at `commit`: current from that commit on, in its place below
/// the owner.
pub open spec fn kept(owner: Seq<char>, tenant: Option<Seq<char>>, commit: i64) -> spec_fn(
    PropertyRowView,
) -> PropertyRowView {
    |row: PropertyRowView|
        fresh(
            ChildKeyView { owner, parent: row.key.parent, name: row.key.name },
            tenant,
            commit,
            row.payload,
        )
}

/// The children that rows are stored as.
pub fn to_children(rows: Vec<PropertyRow>) -> (children: Vec<Child<PropertyData>>)
    ensures
        children.deep_view() == children_of(rows.deep_view()),
{
    let mut children: Vec<Child<PropertyData>> = Vec::new();
    let mut i: usize = 0;
    while i < rows.len()
        invariant
            i <= rows.len(),
            children.len() == i,
            forall|j: int|
                0 <= j < i ==> (#[trigger] children[j]).deep_view() == child_of(
                    rows[j].deep_view(),
                ),
        decreases rows.len() - i,
    {
        let row = &rows[i];
        children.push(
            Child {
                parent: row.key.parent.duplicate(),
                name: row.key.name.duplicate(),
                payload: row.payload.duplicate(),
            },
        );
        i += 1;
    }
    assert(children.deep_view() =~= children_of(rows.deep_view()));
    children
}

} // verus!
