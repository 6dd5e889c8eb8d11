//! The entity store: a table of root rows and a table of the rows that they
//! own, written together or not at all.
//!
//! A domain object is stored as one root row, keyed by its natural key, and
//! one child row for each value that it owns.  A child names its owner and,
//! where it hangs below another child, the name of that parent.  A child row
//! lives exactly as long as the root row with which it was written.

use vstd::prelude::*;
use crate::ledger::MAX_COMMIT_NUM;
use crate::payload::{Key, Payload};
use crate::table::{
    AnyRow, InvariantViolation, Row, RowFilter, RowView, VersionedTable, appended, can_close,
    can_close_all, can_insert, can_insert_all, closed, closed_all, find, inserted, keys_of,
    lemma_rolled_back_contains, lemma_rolled_back_members, listed, ordered, predicate, reopened,
    rolled_back, settled, survives,
};

verus! {

/// The key of a child row.
#[derive(Debug, PartialEq)]
pub struct ChildKey {
    /// The natural key of the entity that owns the row.
    pub owner: String,
    /// The name of the child below which the row hangs, if any.
    pub parent: Option<String>,
    /// The name of the row among its siblings.
    pub name: String,
}

/// The view of a child key.
pub struct ChildKeyView {
    pub owner: Seq<char>,
    pub parent: Option<Seq<char>>,
    pub name: Seq<char>,
}

impl DeepView for ChildKey {
    type V = ChildKeyView;

    open spec fn deep_view(&self) -> ChildKeyView {
        ChildKeyView {
            owner: self.owner.deep_view(),
            parent: self.parent.deep_view(),
            name: self.name.deep_view(),
        }
    }
}

impl Payload for ChildKey {
    fn duplicate(&self) -> (copy: Self) {
        ChildKey {
            owner: self.owner.duplicate(),
            parent: self.parent.duplicate(),
            name: self.name.duplicate(),
        }
    }
}

impl Key for ChildKey {
    fn same(&self, other: &Self) -> (equal: bool) {
        self.owner.same(&other.owner) && self.parent.same(&other.parent) && self.name.same(
            &other.name,
        )
    }
}

/// A value that an entity owns, as it is handed to the store.
#[derive(Debug, PartialEq)]
pub struct Child<C> {
    /// The name of the child below which the value hangs, if any.
    pub parent: Option<String>,
    /// The name of the value among its siblings.
    pub name: String,
    pub payload: C,
}

/// The view of a child.
pub struct ChildView<C> {
    pub parent: Option<Seq<char>>,
    pub name: Seq<char>,
    pub payload: C,
}

impl<C: DeepView> DeepView for Child<C> {
    type V = ChildView<C::V>;

    open spec fn deep_view(&self) -> ChildView<C::V> {
        ChildView {
            parent: self.parent.deep_view(),
            name: self.name.deep_view(),
            payload: self.payload.deep_view(),
        }
    }
}

/// The filter that lets through the child rows of one owner.
#[derive(Debug)]
pub struct OwnedBy {
    pub owner: String,
}

impl<C: DeepView> RowFilter<ChildKey, C> for OwnedBy {
    open spec fn accepts(&self, key: ChildKeyView, payload: C::V) -> bool {
        key.owner == self.owner.deep_view()
    }

    fn test(&self, key: &ChildKey, payload: &C) -> (accepted: bool) {
        key.owner.same(&self.owner)
    }
}

/// The child rows that `owner` owns.
pub open spec fn owned_by<C>(owner: Seq<char>) -> spec_fn(ChildKeyView, C) -> bool {
    |key: ChildKeyView, payload: C| key.owner == owner
}

/// Every row.
pub open spec fn any_row<K, P>() -> spec_fn(K, P) -> bool {
    |key: K, payload: P| true
}

/// What the filter by owner tests.
pub proof fn lemma_owned_by<C: DeepView>(owned: OwnedBy)
    ensures
        predicate::<ChildKey, C, OwnedBy>(owned) == owned_by::<C::V>(owned.owner.deep_view()),
{
    assert(predicate::<ChildKey, C, OwnedBy>(owned) =~= owned_by::<C::V>(owned.owner.deep_view()));
}

/// What the filter that lets everything through tests.
pub proof fn lemma_any_row<K: DeepView, P: DeepView>()
    ensures
        predicate::<K, P, AnyRow>(AnyRow) == any_row::<K::V, P::V>(),
{
    assert(predicate::<K, P, AnyRow>(AnyRow) =~= any_row::<K::V, P::V>());
}

/// Why an entity store refused an operation.
#[derive(Clone, Copy, Debug, PartialEq, Eq, Structural)]
pub enum Fault {
    /// The entity has no current version.
    NotFound,
    /// The write would have broken the invariant of a table.
    InvariantViolation,
}

/// The view of an entity store: its two tables.
pub struct Tables<P, C> {
    pub roots: Seq<RowView<Seq<char>, P>>,
    pub children: Seq<RowView<ChildKeyView, C>>,
}

/// One version of an entity: its root row and the rows it owns.
pub type Version<P, C> = (RowView<Seq<char>, P>, Seq<RowView<ChildKeyView, C>>);

/// The store that holds nothing.
pub open spec fn no_tables<P, C>() -> Tables<P, C> {
    Tables { roots: Seq::empty(), children: Seq::empty() }
}

/// The child row was written with the root row and has lived as long.
pub open spec fn belongs<P, C>(child: RowView<ChildKeyView, C>, root: RowView<Seq<char>, P>) -> bool {
    &&& root.key == child.key.owner
    &&& root.service_id == child.service_id
    &&& root.start_commit_num == child.start_commit_num
    &&& root.end_commit_num == child.end_commit_num
}

/// The child row belongs to one of the root rows.
pub open spec fn has_root<P, C>(roots: Seq<RowView<Seq<char>, P>>, child: RowView<ChildKeyView, C>) -> bool {
    exists|j: int| 0 <= j < roots.len() && belongs(child, #[trigger] roots[j])
}

/// Every child row belongs to a root row.
pub open spec fn aligned<P, C>(tables: Tables<P, C>) -> bool {
    forall|i: int|
        0 <= i < tables.children.len() ==> has_root(tables.roots, #[trigger] tables.children[i])
}

/// The invariant of an entity store: both tables are ordered, and every
/// child row belongs to a root row.
pub open spec fn consistent<P, C>(tables: Tables<P, C>) -> bool {
    ordered(tables.roots) && ordered(tables.children) && aligned(tables)
}

/// The keyed payloads under which the children of `owner` are stored.
pub open spec fn child_rows<C>(owner: Seq<char>, children: Seq<ChildView<C>>) -> Seq<
    (ChildKeyView, C),
> {
    Seq::new(
        children.len(),
        |i: int|
            (
                ChildKeyView { owner, parent: children[i].parent, name: children[i].name },
                children[i].payload,
            ),
    )
}

/// The entity `key` of `tenant` can be added at `commit` with `children`.
pub open spec fn can_add<P, C>(
    tables: Tables<P, C>,
    key: Seq<char>,
    tenant: Option<Seq<char>>,
    commit: i64,
    children: Seq<ChildView<C>>,
) -> bool {
    &&& can_insert(tables.roots, key, tenant, commit)
    &&& can_insert_all(tables.children, keys_of(child_rows(key, children)), tenant, commit)
}

/// The tables after the entity was added.
pub open spec fn added<P, C>(
    tables: Tables<P, C>,
    key: Seq<char>,
    tenant: Option<Seq<char>>,
    commit: i64,
    payload: P,
    children: Seq<ChildView<C>>,
) -> Tables<P, C> {
    Tables {
        roots: inserted(tables.roots, key, tenant, commit, payload),
        children: appended(tables.children, child_rows(key, children), tenant, commit),
    }
}

/// The entity `key` of `tenant` has a current version.
pub open spec fn is_stored<P, C>(
    tables: Tables<P, C>,
    key: Seq<char>,
    tenant: Option<Seq<char>>,
) -> bool {
    find(tables.roots, key, tenant, None) is Some
}

/// The current version of the entity and of everything it owns can be closed
/// at `commit`.
pub open spec fn can_remove<P, C>(
    tables: Tables<P, C>,
    key: Seq<char>,
    tenant: Option<Seq<char>>,
    commit: i64,
) -> bool {
    &&& find(tables.roots, key, tenant, None) matches Some(root) && can_close(root, commit)
    &&& can_close_all(tables.children, tenant, owned_by(key), commit)
}

/// The tables after the entity and everything it owns were closed.
pub open spec fn removed<P, C>(
    tables: Tables<P, C>,
    key: Seq<char>,
    tenant: Option<Seq<char>>,
    commit: i64,
) -> Tables<P, C> {
    Tables {
        roots: closed(tables.roots, key, tenant, commit),
        children: closed_all(tables.children, tenant, owned_by(key), commit),
    }
}

/// The entity can be replaced at `commit` by a version with `children`.
pub open spec fn can_update<P, C>(
    tables: Tables<P, C>,
    key: Seq<char>,
    tenant: Option<Seq<char>>,
    commit: i64,
    children: Seq<ChildView<C>>,
) -> bool {
    &&& can_remove(tables, key, tenant, commit)
    &&& can_insert_all(
        removed(tables, key, tenant, commit).children,
        keys_of(child_rows(key, children)),
        tenant,
        commit,
    )
}

/// The tables after the entity was replaced: its old version closed, its new
/// version added, at one commit.
pub open spec fn updated<P, C>(
    tables: Tables<P, C>,
    key: Seq<char>,
    tenant: Option<Seq<char>>,
    commit: i64,
    payload: P,
    children: Seq<ChildView<C>>,
) -> Tables<P, C> {
    added(removed(tables, key, tenant, commit), key, tenant, commit, payload, children)
}

/// What adding an entity does: the tables that result, or the fault with
/// which the tables are left as they are.
pub open spec fn add_step<P, C>(
    tables: Tables<P, C>,
    key: Seq<char>,
    tenant: Option<Seq<char>>,
    commit: i64,
    payload: P,
    children: Seq<ChildView<C>>,
) -> Result<Tables<P, C>, Fault> {
    if can_add(tables, key, tenant, commit, children) {
        Ok(added(tables, key, tenant, commit, payload, children))
    } else {
        Err(Fault::InvariantViolation)
    }
}

/// What removing an entity does.
pub open spec fn remove_step<P, C>(
    tables: Tables<P, C>,
    key: Seq<char>,
    tenant: Option<Seq<char>>,
    commit: i64,
) -> Result<Tables<P, C>, Fault> {
    if !is_stored(tables, key, tenant) {
        Err(Fault::NotFound)
    } else if can_remove(tables, key, tenant, commit) {
        Ok(removed(tables, key, tenant, commit))
    } else {
        Err(Fault::InvariantViolation)
    }
}

/// What replacing an entity does.
pub open spec fn update_step<P, C>(
    tables: Tables<P, C>,
    key: Seq<char>,
    tenant: Option<Seq<char>>,
    commit: i64,
    payload: P,
    children: Seq<ChildView<C>>,
) -> Result<Tables<P, C>, Fault> {
    if !is_stored(tables, key, tenant) {
        Err(Fault::NotFound)
    } else if can_update(tables, key, tenant, commit, children) {
        Ok(updated(tables, key, tenant, commit, payload, children))
    } else {
        Err(Fault::InvariantViolation)
    }
}

/// The version of the entity that a read at `at` sees.
pub open spec fn fetched<P, C>(
    tables: Tables<P, C>,
    key: Seq<char>,
    tenant: Option<Seq<char>>,
    at: Option<i64>,
) -> Option<Version<P, C>> {
    match find(tables.roots, key, tenant, at) {
        Some(root) => Some((root, listed(tables.children, tenant, at, owned_by(key)))),
        None => None,
    }
}

/// The root row of the entity that a read at `at` sees.
pub open spec fn find_root<P, C>(
    tables: Tables<P, C>,
    key: Seq<char>,
    tenant: Option<Seq<char>>,
    at: Option<i64>,
) -> Option<RowView<Seq<char>, P>> {
    find(tables.roots, key, tenant, at)
}

/// The versions of the entities of `tenant` that a read at `at` sees, in the
/// order in which their roots were stored.
pub open spec fn listing<P, C>(
    tables: Tables<P, C>,
    tenant: Option<Seq<char>>,
    at: Option<i64>,
) -> Seq<Version<P, C>> {
    listed(tables.roots, tenant, at, any_row()).map_values(
        |root: RowView<Seq<char>, P>|
            (root, listed(tables.children, tenant, at, owned_by(root.key))),
    )
}

/// The tables as they were at `commit`.
pub open spec fn tables_rolled_back<P, C>(tables: Tables<P, C>, commit: i64) -> Tables<P, C> {
    Tables {
        roots: rolled_back(tables.roots, commit),
        children: rolled_back(tables.children, commit),
    }
}

/// One operation on an entity store.
pub enum Operation<P, C> {
    Add {
        key: Seq<char>,
        tenant: Option<Seq<char>>,
        commit: i64,
        payload: P,
        children: Seq<ChildView<C>>,
    },
    Update {
        key: Seq<char>,
        tenant: Option<Seq<char>>,
        commit: i64,
        payload: P,
        children: Seq<ChildView<C>>,
    },
    Delete { key: Seq<char>, tenant: Option<Seq<char>>, commit: i64 },
    Rollback { commit: i64 },
}

/// One write to an entity store, before the commit at which it is made is
/// known.
pub enum Write<P, C> {
    Add { key: Seq<char>, tenant: Option<Seq<char>>, payload: P, children: Seq<ChildView<C>> },
    Update { key: Seq<char>, tenant: Option<Seq<char>>, payload: P, children: Seq<ChildView<C>> },
    Delete { key: Seq<char>, tenant: Option<Seq<char>> },
}

/// The operation that a write is when it is made at `commit`.
pub open spec fn written<P, C>(write: Write<P, C>, commit: i64) -> Operation<P, C> {
    match write {
        Write::Add { key, tenant, payload, children } => Operation::Add {
            key,
            tenant,
            commit,
            payload,
            children,
        },
        Write::Update { key, tenant, payload, children } => Operation::Update {
            key,
            tenant,
            commit,
            payload,
            children,
        },
        Write::Delete { key, tenant } => Operation::Delete { key, tenant, commit },
    }
}

/// What an operation does: the tables that result, or the fault with which
/// the tables are left as they are.
pub open spec fn attempted<P, C>(tables: Tables<P, C>, operation: Operation<P, C>) -> Result<
    Tables<P, C>,
    Fault,
> {
    match operation {
        Operation::Add { key, tenant, commit, payload, children } => add_step(
            tables,
            key,
            tenant,
            commit,
            payload,
            children,
        ),
        Operation::Update { key, tenant, commit, payload, children } => update_step(
            tables,
            key,
            tenant,
            commit,
            payload,
            children,
        ),
        Operation::Delete { key, tenant, commit } => remove_step(tables, key, tenant, commit),
        Operation::Rollback { commit } => Ok(tables_rolled_back(tables, commit)),
    }
}

/// The natural key of the entity that an operation is about, if it is
/// about one.
pub open spec fn subject<P, C>(operation: Operation<P, C>) -> Seq<char> {
    match operation {
        Operation::Add { key, .. } => key,
        Operation::Update { key, .. } => key,
        Operation::Delete { key, .. } => key,
        Operation::Rollback { .. } => Seq::empty(),
    }
}

/// The tables after an operation.  An operation that is refused leaves
/// them as they are.
pub open spec fn performed<P, C>(tables: Tables<P, C>, operation: Operation<P, C>) -> Tables<P, C> {
    match attempted(tables, operation) {
        Ok(after) => after,
        Err(_) => tables,
    }
}

/// The tables after a sequence of operations.
pub open spec fn performed_all<P, C>(tables: Tables<P, C>, operations: Seq<Operation<P, C>>) -> Tables<
    P,
    C,
>
    decreases operations.len(),
{
    if operations.len() == 0 {
        tables
    } else {
        performed(performed_all(tables, operations.drop_last()), operations.last())
    }
}

/// Both tables hold nothing that happened after `commit`.
pub open spec fn tables_settled<P, C>(tables: Tables<P, C>, commit: i64) -> bool {
    settled(tables.roots, commit) && settled(tables.children, commit)
}

/// The commit at which an operation writes, if it writes.
pub open spec fn written_at<P, C>(operation: Operation<P, C>) -> Option<i64> {
    match operation {
        Operation::Add { commit, .. } => Some(commit),
        Operation::Update { commit, .. } => Some(commit),
        Operation::Delete { commit, .. } => Some(commit),
        Operation::Rollback { .. } => None,
    }
}

/// The view of a fetched version.
pub open spec fn version_view<P: DeepView, C: DeepView>(
    version: (Row<String, P>, Vec<Row<ChildKey, C>>),
) -> Version<P::V, C::V> {
    (version.0.deep_view(), version.1.deep_view())
}

/// The views of fetched versions.
pub open spec fn version_views<P: DeepView, C: DeepView>(
    versions: Seq<(Row<String, P>, Vec<Row<ChildKey, C>>)>,
) -> Seq<Version<P::V, C::V>> {
    Seq::new(versions.len(), |i: int| version_view(versions[i]))
}

/// Adding an entity keeps every child row with a root row.
pub proof fn lemma_added_aligned<P, C>(
    tables: Tables<P, C>,
    key: Seq<char>,
    tenant: Option<Seq<char>>,
    commit: i64,
    payload: P,
    children: Seq<ChildView<C>>,
)
    requires
        aligned(tables),
    ensures
        aligned(added(tables, key, tenant, commit, payload, children)),
{
    let after = added(tables, key, tenant, commit, payload, children);
    assert forall|i: int| 0 <= i < after.children.len() implies has_root(
        after.roots,
        #[trigger] after.children[i],
    ) by {
        if i < tables.children.len() {
            assert(has_root(tables.roots, tables.children[i]));
            let j = choose|j: int|
                0 <= j < tables.roots.len() && belongs(tables.children[i], #[trigger] tables.roots[j]);
            assert(belongs(after.children[i], after.roots[j]));
        } else {
            assert(belongs(after.children[i], after.roots[tables.roots.len() as int]));
        }
    }
}

/// Removing an entity keeps every child row with a root row.
pub proof fn lemma_removed_aligned<P, C>(
    tables: Tables<P, C>,
    key: Seq<char>,
    tenant: Option<Seq<char>>,
    commit: i64,
)
    requires
        aligned(tables),
    ensures
        aligned(removed(tables, key, tenant, commit)),
{
    let after = removed(tables, key, tenant, commit);
    assert forall|i: int| 0 <= i < after.children.len() implies has_root(
        after.roots,
        #[trigger] after.children[i],
    ) by {
        assert(has_root(tables.roots, tables.children[i]));
        let j = choose|j: int|
            0 <= j < tables.roots.len() && belongs(tables.children[i], #[trigger] tables.roots[j]);
        assert(belongs(after.children[i], after.roots[j]));
    }
}

/// A rollback keeps every child row with a root row.
pub proof fn lemma_rolled_back_aligned<P, C>(tables: Tables<P, C>, commit: i64)
    requires
        aligned(tables),
    ensures
        aligned(tables_rolled_back(tables, commit)),
{
    let after = tables_rolled_back(tables, commit);
    lemma_rolled_back_members(tables.children, commit);
    assert forall|a: int| 0 <= a < after.children.len() implies has_root(
        after.roots,
        #[trigger] after.children[a],
    ) by {
        let i = choose|i: int|
            0 <= i < tables.children.len() && survives(#[trigger] tables.children[i], commit)
                && reopened(tables.children[i], commit) == after.children[a];
        assert(has_root(tables.roots, tables.children[i]));
        let j = choose|j: int|
            0 <= j < tables.roots.len() && belongs(tables.children[i], #[trigger] tables.roots[j]);
        lemma_rolled_back_contains(tables.roots, commit, j);
        let b = choose|b: int|
            0 <= b < after.roots.len() && #[trigger] after.roots[b] == reopened(
                tables.roots[j],
                commit,
            );
        assert(belongs(after.children[a], after.roots[b]));
    }
}

/// A store of one kind of entity.
#[derive(Debug, PartialEq)]
pub struct EntityStore<P, C> {
    roots: VersionedTable<String, P>,
    children: VersionedTable<ChildKey, C>,
}

impl<P: DeepView, C: DeepView> DeepView for EntityStore<P, C> {
    type V = Tables<P::V, C::V>;

    closed spec fn deep_view(&self) -> Tables<P::V, C::V> {
        Tables { roots: self.roots.deep_view(), children: self.children.deep_view() }
    }
}

impl<P: Payload, C: Payload> EntityStore<P, C> {
    /// The invariant of the store.
    pub open spec fn well_formed(&self) -> bool {
        consistent(self.deep_view())
    }

    /// A store that holds nothing.
    pub fn new() -> (store: Self)
        ensures
            store.well_formed(),
            store.deep_view() == no_tables::<P::V, C::V>(),
    {
        EntityStore { roots: VersionedTable::new(), children: VersionedTable::new() }
    }

    /// The child rows under which `children` of `owner` are stored.
    fn keyed(owner: &String, children: Vec<Child<C>>) -> (rows: Vec<(ChildKey, C)>)
        ensures
            rows.deep_view() == child_rows(owner.deep_view(), children.deep_view()),
    {
        let ghost target = child_rows(owner.deep_view(), children.deep_view());
        let mut rows: Vec<(ChildKey, C)> = Vec::new();
        let mut i: usize = 0;
        while i < children.len()
            invariant
                i <= children.len(),
                rows.len() == i,
                target == child_rows(owner.deep_view(), children.deep_view()),
                forall|j: int| 0 <= j < i ==> (#[trigger] rows[j]).deep_view() == target[j],
            decreases children.len() - i,
        {
            let child = &children[i];
            let key = ChildKey {
                owner: owner.duplicate(),
                parent: child.parent.duplicate(),
                name: child.name.duplicate(),
            };
            rows.push((key, child.payload.duplicate()));
            i += 1;
        }
        assert(rows.deep_view() =~= target);
        rows
    }

    /// Adds an entity at `commit`: its root row and its child rows, all of
    /// them or none.
    pub fn add(
        &mut self,
        key: String,
        service_id: Option<String>,
        commit: i64,
        payload: P,
        children: Vec<Child<C>>,
    ) -> (result: Result<(), Fault>)
        requires
            old(self).well_formed(),
        ensures
            final(self).well_formed(),
            match add_step(
                old(self).deep_view(),
                key.deep_view(),
                service_id.deep_view(),
                commit,
                payload.deep_view(),
                children.deep_view(),
            ) {
                Ok(tables) => result is Ok && final(self).deep_view() == tables,
                Err(fault) => result == Err::<(), Fault>(fault) && final(self).deep_view() == old(
                    self,
                ).deep_view(),
            },
    {
        if !self.roots.accepts_insert(&key, &service_id, commit) {
            return Err(Fault::InvariantViolation);
        }
        proof {
            lemma_added_aligned(
                self.deep_view(),
                key.deep_view(),
                service_id.deep_view(),
                commit,
                payload.deep_view(),
                children.deep_view(),
            );
        }
        let rows = Self::keyed(&key, children);
        match self.children.insert_all(&service_id, commit, rows) {
            Ok(()) => {},
            Err(InvariantViolation) => {
                return Err(Fault::InvariantViolation);
            },
        }
        match self.roots.insert_current(key, service_id, commit, payload) {
            Ok(()) => Ok(()),
            Err(InvariantViolation) => Err(Fault::InvariantViolation),
        }
    }

    /// Closes at `commit` the current version of an entity and of everything
    /// it owns, all of it or nothing.
    pub fn remove(&mut self, key: &String, service_id: &Option<String>, commit: i64) -> (result:
        Result<(), Fault>)
        requires
            old(self).well_formed(),
        ensures
            final(self).well_formed(),
            match remove_step(
                old(self).deep_view(),
                key.deep_view(),
                service_id.deep_view(),
                commit,
            ) {
                Ok(tables) => result is Ok && final(self).deep_view() == tables,
                Err(fault) => result == Err::<(), Fault>(fault) && final(self).deep_view() == old(
                    self,
                ).deep_view(),
            },
    {
        let closable = match self.roots.read_current(key, service_id) {
            None => {
                return Err(Fault::NotFound);
            },
            Some(root) => root.start_commit_num < commit && commit < MAX_COMMIT_NUM,
        };
        if !closable {
            return Err(Fault::InvariantViolation);
        }
        let owned = OwnedBy { owner: key.duplicate() };
        proof {
            lemma_owned_by::<C>(owned);
            lemma_removed_aligned(self.deep_view(), key.deep_view(), service_id.deep_view(), commit);
        }
        match self.children.close_all(service_id, &owned, commit) {
            Ok(()) => {},
            Err(InvariantViolation) => {
                return Err(Fault::InvariantViolation);
            },
        }
        match self.roots.close_current(key, service_id, commit) {
            Ok(_) => Ok(()),
            Err(InvariantViolation) => Err(Fault::InvariantViolation),
        }
    }

    /// Replaces an entity at `commit`: its current version and everything it
    /// owns are closed and the new version is added, all of it or nothing.
    pub fn update(
        &mut self,
        key: String,
        service_id: Option<String>,
        commit: i64,
        payload: P,
        children: Vec<Child<C>>,
    ) -> (result: Result<(), Fault>)
        requires
            old(self).well_formed(),
        ensures
            final(self).well_formed(),
            match update_step(
                old(self).deep_view(),
                key.deep_view(),
                service_id.deep_view(),
                commit,
                payload.deep_view(),
                children.deep_view(),
            ) {
                Ok(tables) => result is Ok && final(self).deep_view() == tables,
                Err(fault) => result == Err::<(), Fault>(fault) && final(self).deep_view() == old(
                    self,
                ).deep_view(),
            },
    {
        let closable = match self.roots.read_current(&key, &service_id) {
            None => {
                return Err(Fault::NotFound);
            },
            Some(root) => root.start_commit_num < commit && commit < MAX_COMMIT_NUM,
        };
        if !closable {
            return Err(Fault::InvariantViolation);
        }
        let owned = OwnedBy { owner: key.duplicate() };
        proof {
            lemma_owned_by::<C>(owned);
            let between = removed(
                self.deep_view(),
                key.deep_view(),
                service_id.deep_view(),
                commit,
            );
            lemma_removed_aligned(self.deep_view(), key.deep_view(), service_id.deep_view(), commit);
            lemma_added_aligned(
                between,
                key.deep_view(),
                service_id.deep_view(),
                commit,
                payload.deep_view(),
                children.deep_view(),
            );
        }
        let mut work = self.children.duplicate();
        match work.close_all(&service_id, &owned, commit) {
            Ok(()) => {},
            Err(InvariantViolation) => {
                return Err(Fault::InvariantViolation);
            },
        }
        let rows = Self::keyed(&key, children);
        match work.insert_all(&service_id, commit, rows) {
            Ok(()) => {},
            Err(InvariantViolation) => {
                return Err(Fault::InvariantViolation);
            },
        }
        match self.roots.replace_current(key, service_id, commit, payload) {
            Ok(_) => {
                self.children = work;
                Ok(())
            },
            Err(InvariantViolation) => Err(Fault::InvariantViolation),
        }
    }

    /// The version of an entity that a read at `at` sees: the current one
    /// for `None`, the one valid at the commit otherwise.
    pub fn fetch(&self, key: &String, service_id: &Option<String>, at: Option<i64>) -> (result:
        Result<(Row<String, P>, Vec<Row<ChildKey, C>>), Fault>)
        requires
            self.well_formed(),
        ensures
            match fetched(self.deep_view(), key.deep_view(), service_id.deep_view(), at) {
                Some(version) => result matches Ok(found) && version_view(found) == version,
                None => result matches Err(Fault::NotFound),
            },
    {
        let root = match at {
            Some(commit) => self.roots.read_as_of(key, service_id, commit),
            None => self.roots.read_current(key, service_id),
        };
        match root {
            None => Err(Fault::NotFound),
            Some(root) => {
                let owned = OwnedBy { owner: key.duplicate() };
                proof {
                    lemma_owned_by::<C>(owned);
                }
                let children = self.children.list(service_id, at, &owned);
                Ok((root.duplicate(), children))
            },
        }
    }

    /// The versions of the entities of `service_id` that a read at `at` sees.
    pub fn list(&self, service_id: &Option<String>, at: Option<i64>) -> (versions: Vec<
        (Row<String, P>, Vec<Row<ChildKey, C>>),
    >)
        ensures
            version_views(versions@) == listing(self.deep_view(), service_id.deep_view(), at),
    {
        let any = AnyRow;
        proof {
            lemma_any_row::<String, P>();
        }
        let roots = self.roots.list(service_id, at, &any);
        let ghost target = listing(self.deep_view(), service_id.deep_view(), at);
        let mut versions: Vec<(Row<String, P>, Vec<Row<ChildKey, C>>)> = Vec::new();
        let mut i: usize = 0;
        while i < roots.len()
            invariant
                i <= roots.len(),
                roots.deep_view() == listed(
                    self.deep_view().roots,
                    service_id.deep_view(),
                    at,
                    any_row(),
                ),
                target == listing(self.deep_view(), service_id.deep_view(), at),
                versions.len() == i,
                forall|j: int| 0 <= j < i ==> version_view(#[trigger] versions[j]) == target[j],
            decreases roots.len() - i,
        {
            let owned = OwnedBy { owner: roots[i].key.duplicate() };
            proof {
                lemma_owned_by::<C>(owned);
            }
            let children = self.children.list(service_id, at, &owned);
            let root = roots[i].duplicate();
            assert(root.deep_view() == roots.deep_view()[i as int]);
            versions.push((root, children));
            i += 1;
        }
        assert(version_views(versions@) =~= target);
        versions
    }

    /// The root row of an entity that a read at `at` sees.
    pub fn fetch_root(&self, key: &String, service_id: &Option<String>, at: Option<i64>) -> (row:
        Option<Row<String, P>>)
        requires
            self.well_formed(),
        ensures
            row.deep_view() == find_root(
                self.deep_view(),
                key.deep_view(),
                service_id.deep_view(),
                at,
            ),
    {
        let root = match at {
            Some(commit) => self.roots.read_as_of(key, service_id, commit),
            None => self.roots.read_current(key, service_id),
        };
        match root {
            Some(row) => Some(row.duplicate()),
            None => None,
        }
    }

    /// The child rows of `service_id` that a read at `at` sees, whoever
    /// owns them.
    pub fn list_children(&self, service_id: &Option<String>, at: Option<i64>) -> (rows: Vec<
        Row<ChildKey, C>,
    >)
        ensures
            rows.deep_view() == listed(
                self.deep_view().children,
                service_id.deep_view(),
                at,
                any_row(),
            ),
    {
        let any = AnyRow;
        proof {
            lemma_any_row::<ChildKey, C>();
        }
        self.children.list(service_id, at, &any)
    }

    /// The child rows of `service_id` that `owner` owns and that a read at
    /// `at` sees.
    pub fn list_owned(&self, owner: &String, service_id: &Option<String>, at: Option<i64>) -> (rows:
        Vec<Row<ChildKey, C>>)
        ensures
            rows.deep_view() == listed(
                self.deep_view().children,
                service_id.deep_view(),
                at,
                owned_by(owner.deep_view()),
            ),
    {
        let owned = OwnedBy { owner: owner.duplicate() };
        proof {
            lemma_owned_by::<C>(owned);
        }
        self.children.list(service_id, at, &owned)
    }

    /// The root rows of `service_id` that a read at `at` sees.
    pub fn list_roots(&self, service_id: &Option<String>, at: Option<i64>) -> (rows: Vec<
        Row<String, P>,
    >)
        ensures
            rows.deep_view() == listed(
                self.deep_view().roots,
                service_id.deep_view(),
                at,
                any_row(),
            ),
    {
        let any = AnyRow;
        proof {
            lemma_any_row::<String, P>();
        }
        self.roots.list(service_id, at, &any)
    }

    /// Returns the store to what it was at `commit`.
    pub fn rollback_to(&mut self, commit: i64)
        requires
            old(self).well_formed(),
        ensures
            final(self).well_formed(),
            final(self).deep_view() == tables_rolled_back(old(self).deep_view(), commit),
    {
        proof {
            lemma_rolled_back_aligned(self.deep_view(), commit);
        }
        self.roots.rollback_to(commit);
        self.children.rollback_to(commit);
    }

    /// Removes every row.
    pub fn clear(&mut self)
        ensures
            final(self).well_formed(),
            final(self).deep_view() == no_tables::<P::V, C::V>(),
    {
        self.roots.clear();
        self.children.clear();
    }
}

impl<P: Payload, C: Payload> Payload for EntityStore<P, C> {
    fn duplicate(&self) -> (copy: Self) {
        EntityStore { roots: self.roots.duplicate(), children: self.children.duplicate() }
    }
}

} // verus!
