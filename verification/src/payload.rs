//! Values that tables can hold: they can be copied and, for keys, compared,
//! with contracts over their mathematical views.

use vstd::prelude::*;

verus! {

/// A value that can be copied so that the copy has the same view.
pub trait Payload: DeepView + Sized {
    fn duplicate(&self) -> (copy: Self)
        ensures
            copy.deep_view() == self.deep_view(),
    ;
}

/// A value by which rows are found: equality is decided on the views.
pub trait Key: Payload {
    fn same(&self, other: &Self) -> (equal: bool)
        ensures
            equal == (self.deep_view() == other.deep_view()),
    ;
}

impl Payload for () {
    fn duplicate(&self) -> (copy: Self) {
        ()
    }
}

impl Payload for bool {
    fn duplicate(&self) -> (copy: Self) {
        *self
    }
}

impl Payload for u8 {
    fn duplicate(&self) -> (copy: Self) {
        *self
    }
}

impl Payload for i32 {
    fn duplicate(&self) -> (copy: Self) {
        *self
    }
}

impl Payload for i64 {
    fn duplicate(&self) -> (copy: Self) {
        *self
    }
}

impl Key for bool {
    fn same(&self, other: &Self) -> (equal: bool) {
        *self == *other
    }
}

impl Key for u8 {
    fn same(&self, other: &Self) -> (equal: bool) {
        *self == *other
    }
}

impl Key for i32 {
    fn same(&self, other: &Self) -> (equal: bool) {
        *self == *other
    }
}

impl Key for i64 {
    fn same(&self, other: &Self) -> (equal: bool) {
        *self == *other
    }
}

impl Payload for String {
    fn duplicate(&self) -> (copy: Self) {
        self.clone()
    }
}

impl Key for String {
    fn same(&self, other: &Self) -> (equal: bool) {
        *self == *other
    }
}

impl<T: Payload> Payload for Option<T> {
    fn duplicate(&self) -> (copy: Self) {
        match self {
            Some(value) => Some(value.duplicate()),
            None => None,
        }
    }
}

impl<T: Key> Key for Option<T> {
    fn same(&self, other: &Self) -> (equal: bool) {
        match (self, other) {
            (Some(a), Some(b)) => a.same(b),
            (None, None) => true,
            _ => false,
        }
    }
}

impl<T: Payload> Payload for Vec<T> {
    fn duplicate(&self) -> (copy: Self) {
        let mut copy: Vec<T> = Vec::new();
        let mut i: usize = 0;
        while i < self.len()
            invariant
                i <= self.len(),
                copy.len() == i,
                forall|j: int| 0 <= j < i ==> copy@[j].deep_view() == self@[j].deep_view(),
            decreases self.len() - i,
        {
            copy.push(self[i].duplicate());
            i += 1;
        }
        assert(copy.deep_view() =~= self.deep_view());
        copy
    }
}

/// The scope that an optional tenant names.
pub open spec fn scope_view(service_id: Option<&str>) -> Option<Seq<char>> {
    match service_id {
        Some(tenant) => Some(tenant@),
        None => None,
    }
}

/// The scope that an optional tenant names, as the tables hold it.
pub fn owned_scope(service_id: Option<&str>) -> (scope: Option<String>)
    ensures
        scope.deep_view() == scope_view(service_id),
{
    match service_id {
        Some(tenant) => Some(tenant.to_owned()),
        None => None,
    }
}

/// The scope that an optional tenant names, borrowed.
pub fn borrowed_scope(service_id: &Option<String>) -> (scope: Option<&str>)
    ensures
        scope_view(scope) == service_id.deep_view(),
{
    match service_id {
        Some(tenant) => Some(tenant.as_str()),
        None => None,
    }
}

/// The views of the elements of a sequence.
pub open spec fn views<T: DeepView>(items: Seq<T>) -> Seq<T::V> {
    Seq::new(items.len(), |i: int| items[i].deep_view())
}

/// Pushing an element pushes its view.
pub proof fn lemma_views_push<T: DeepView>(items: Seq<T>, item: T)
    ensures
        views(items.push(item)) == views(items).push(item.deep_view()),
{
    assert(views(items.push(item)) =~= views(items).push(item.deep_view()));
}

} // verus!
