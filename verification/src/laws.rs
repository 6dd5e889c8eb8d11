//! What holds of every entity store, whatever it stores: the invariants
//! that no sequence of operations breaks, and what a read gives after a
//! write.

use vstd::prelude::*;
use crate::entity::{
    ChildKeyView, ChildView, Operation, Tables, Version, add_step, added, any_row, belongs,
    child_rows, consistent, fetched, has_root, lemma_added_aligned, lemma_removed_aligned,
    lemma_rolled_back_aligned, listing, no_tables, owned_by, performed, performed_all, remove_step,
    removed, tables_rolled_back, tables_settled, update_step, written_at,
};
use crate::table::{
    RowView, can_close, closed, closed_row, find, fresh, fresh_all, hit, in_scope, is_current,
    lemma_appended_ordered, lemma_closed_all_ordered, lemma_closed_can_insert,
    lemma_closed_ordered, lemma_find_unique, lemma_inserted_ordered, lemma_listed_add,
    lemma_listed_all, lemma_listed_map, lemma_listed_none, lemma_listed_push,
    lemma_rolled_back_add, lemma_rolled_back_map, lemma_rolled_back_ordered,
    lemma_rolled_back_push, lemma_rolled_back_settled, lemma_settled_later, listed, ordered,
    overlapping, selected, valid_at,
};

verus! {

/// A fact has at most one current version: two current rows of one fact in
/// an ordered table are one row.
pub proof fn law_single_current<K, P>(rows: Seq<RowView<K, P>>, i: int, j: int)
    requires
        ordered(rows),
        0 <= i < rows.len(),
        0 <= j < rows.len(),
        in_scope(rows[i], rows[j].key, rows[j].service_id),
        is_current(rows[i]),
        is_current(rows[j]),
    ensures
        i == j,
{
    if i != j {
        assert(overlapping(rows[i], rows[j]));
    }
}

/// No two versions of one fact overlap, and no version is empty: at any
/// commit, at most one row of a fact in an ordered table is valid.
pub proof fn law_no_overlap<K, P>(rows: Seq<RowView<K, P>>, i: int, j: int, commit: i64)
    requires
        ordered(rows),
        0 <= i < rows.len(),
        0 <= j < rows.len(),
        in_scope(rows[i], rows[j].key, rows[j].service_id),
        valid_at(rows[i], commit),
        valid_at(rows[j], commit),
    ensures
        i == j,
        rows[i].start_commit_num < rows[i].end_commit_num,
{
    if i != j {
        assert(overlapping(rows[i], rows[j]));
    }
}

/// Adding an entity keeps the invariant of the store.
pub proof fn law_add_keeps_invariant<P, C>(
    tables: Tables<P, C>,
    key: Seq<char>,
    tenant: Option<Seq<char>>,
    commit: i64,
    payload: P,
    children: Seq<ChildView<C>>,
)
    requires
        consistent(tables),
    ensures
        add_step(tables, key, tenant, commit, payload, children) matches Ok(after) ==> consistent(
            after,
        ),
{
    if add_step(tables, key, tenant, commit, payload, children) is Ok {
        lemma_inserted_ordered(tables.roots, key, tenant, commit, payload);
        lemma_appended_ordered(tables.children, child_rows(key, children), tenant, commit);
        lemma_added_aligned(tables, key, tenant, commit, payload, children);
    }
}

/// Removing an entity keeps the invariant of the store.
pub proof fn law_remove_keeps_invariant<P, C>(
    tables: Tables<P, C>,
    key: Seq<char>,
    tenant: Option<Seq<char>>,
    commit: i64,
)
    requires
        consistent(tables),
    ensures
        remove_step(tables, key, tenant, commit) matches Ok(after) ==> consistent(after),
{
    if remove_step(tables, key, tenant, commit) is Ok {
        let at = choose|i: int|
            0 <= i < tables.roots.len() && hit(#[trigger] tables.roots[i], key, tenant, None);
        assert forall|i: int|
            0 <= i < tables.roots.len() && hit(
                #[trigger] tables.roots[i],
                key,
                tenant,
                None,
            ) implies can_close(tables.roots[i], commit) by {
            lemma_find_unique(tables.roots, key, tenant, None, i);
        }
        lemma_closed_ordered(tables.roots, key, tenant, commit);
        lemma_closed_all_ordered(tables.children, tenant, owned_by(key), commit);
        lemma_removed_aligned(tables, key, tenant, commit);
    }
}

/// Replacing an entity keeps the invariant of the store.
pub proof fn law_update_keeps_invariant<P, C>(
    tables: Tables<P, C>,
    key: Seq<char>,
    tenant: Option<Seq<char>>,
    commit: i64,
    payload: P,
    children: Seq<ChildView<C>>,
)
    requires
        consistent(tables),
    ensures
        update_step(tables, key, tenant, commit, payload, children) matches Ok(after)
            ==> consistent(after),
{
    if update_step(tables, key, tenant, commit, payload, children) is Ok {
        law_remove_keeps_invariant(tables, key, tenant, commit);
        let between = removed(tables, key, tenant, commit);
        lemma_closed_can_insert(tables.roots, key, tenant, commit);
        law_add_keeps_invariant(between, key, tenant, commit, payload, children);
    }
}

/// A rollback keeps the invariant of the store.
pub proof fn law_rollback_keeps_invariant<P, C>(tables: Tables<P, C>, commit: i64)
    requires
        consistent(tables),
    ensures
        consistent(tables_rolled_back(tables, commit)),
{
    lemma_rolled_back_ordered(tables.roots, commit);
    lemma_rolled_back_ordered(tables.children, commit);
    lemma_rolled_back_aligned(tables, commit);
}

/// Any operation keeps the invariant of the store.
pub proof fn law_operation_keeps_invariant<P, C>(tables: Tables<P, C>, operation: Operation<P, C>)
    requires
        consistent(tables),
    ensures
        consistent(performed(tables, operation)),
{
    match operation {
        Operation::Add { key, tenant, commit, payload, children } => {
            law_add_keeps_invariant(tables, key, tenant, commit, payload, children);
        },
        Operation::Update { key, tenant, commit, payload, children } => {
            law_update_keeps_invariant(tables, key, tenant, commit, payload, children);
        },
        Operation::Delete { key, tenant, commit } => {
            law_remove_keeps_invariant(tables, key, tenant, commit);
        },
        Operation::Rollback { commit } => {
            law_rollback_keeps_invariant(tables, commit);
        },
    }
}

/// A write at `commit` to a store in which nothing happened after an
/// earlier commit leaves a store in which nothing happened after `commit`.
pub proof fn law_write_settles<P, C>(
    tables: Tables<P, C>,
    operation: Operation<P, C>,
    before: i64,
    commit: i64,
)
    requires
        tables_settled(tables, before),
        before <= commit,
        written_at(operation) == Some(commit),
    ensures
        tables_settled(performed(tables, operation), commit),
{
    lemma_settled_later(tables.roots, before, commit);
    lemma_settled_later(tables.children, before, commit);
    let after = performed(tables, operation);
    assert forall|i: int| 0 <= i < after.roots.len() implies {
        &&& (#[trigger] after.roots[i]).start_commit_num <= commit
        &&& (after.roots[i].end_commit_num <= commit || is_current(after.roots[i]))
    } by {
        if i < tables.roots.len() {
            assert(tables.roots[i].start_commit_num <= commit);
        }
    }
    assert forall|i: int| 0 <= i < after.children.len() implies {
        &&& (#[trigger] after.children[i]).start_commit_num <= commit
        &&& (after.children[i].end_commit_num <= commit || is_current(after.children[i]))
    } by {
        if i < tables.children.len() {
            assert(tables.children[i].start_commit_num <= commit);
        }
    }
}

/// After any sequence of operations on an empty store, the invariant holds:
/// every fact has at most one current version, no two versions of a fact
/// overlap, and every child row belongs to a root row.
pub proof fn law_invariant_after_any_operations<P, C>(operations: Seq<Operation<P, C>>)
    ensures
        consistent(performed_all(no_tables::<P, C>(), operations)),
    decreases operations.len(),
{
    if operations.len() > 0 {
        law_invariant_after_any_operations(operations.drop_last());
        law_operation_keeps_invariant(
            performed_all(no_tables::<P, C>(), operations.drop_last()),
            operations.last(),
        );
    }
}

/// The version that adding an entity at `commit` stores.
pub open spec fn stored_version<P, C>(
    key: Seq<char>,
    tenant: Option<Seq<char>>,
    commit: i64,
    payload: P,
    children: Seq<ChildView<C>>,
) -> Version<P, C> {
    (fresh(key, tenant, commit, payload), fresh_all(child_rows(key, children), tenant, commit))
}

/// A version as it is once it was closed at `commit`.
pub open spec fn closed_version<P, C>(version: Version<P, C>, commit: i64) -> Version<P, C> {
    (
        closed_row(version.0, commit),
        version.1.map_values(|row: RowView<ChildKeyView, C>| closed_row(row, commit)),
    )
}

/// In a consistent store no child row of an entity without a current
/// version is current.
proof fn lemma_no_current_children<P, C>(
    tables: Tables<P, C>,
    key: Seq<char>,
    tenant: Option<Seq<char>>,
)
    requires
        consistent(tables),
        find(tables.roots, key, tenant, None) is None,
    ensures
        listed(tables.children, tenant, None, owned_by(key)) == Seq::<
            RowView<ChildKeyView, C>,
        >::empty(),
{
    assert forall|i: int| 0 <= i < tables.children.len() implies !selected(
        #[trigger] tables.children[i],
        tenant,
        None,
        owned_by(key),
    ) by {
        if selected(tables.children[i], tenant, None, owned_by(key)) {
            assert(has_root(tables.roots, tables.children[i]));
            let j = choose|j: int|
                0 <= j < tables.roots.len() && belongs(
                    tables.children[i],
                    #[trigger] tables.roots[j],
                );
            assert(hit(tables.roots[j], key, tenant, None));
        }
    }
    lemma_listed_none(tables.children, tenant, None, owned_by(key));
}

/// Round trip: once an entity is added, a read of it gives what was added,
/// as the version that starts at the commit.
pub proof fn law_add_then_fetch<P, C>(
    tables: Tables<P, C>,
    key: Seq<char>,
    tenant: Option<Seq<char>>,
    commit: i64,
    payload: P,
    children: Seq<ChildView<C>>,
)
    requires
        consistent(tables),
        add_step(tables, key, tenant, commit, payload, children) is Ok,
    ensures
        fetched(added(tables, key, tenant, commit, payload, children), key, tenant, None) == Some(
            stored_version(key, tenant, commit, payload, children),
        ),
{
    let after = added(tables, key, tenant, commit, payload, children);
    let news = fresh_all(child_rows(key, children), tenant, commit);
    lemma_inserted_ordered(tables.roots, key, tenant, commit, payload);
    lemma_find_unique(after.roots, key, tenant, None, tables.roots.len() as int);
    assert(find(tables.roots, key, tenant, None) is None) by {
        if find(tables.roots, key, tenant, None) is Some {
            let i = choose|i: int|
                0 <= i < tables.roots.len() && hit(#[trigger] tables.roots[i], key, tenant, None);
            assert(in_scope(tables.roots[i], key, tenant));
        }
    }
    lemma_no_current_children(tables, key, tenant);
    lemma_listed_add(tables.children, news, tenant, None, owned_by(key));
    lemma_listed_all(news, tenant, None, owned_by(key));
    assert(Seq::<RowView<ChildKeyView, C>>::empty() + news =~= news);
}

/// Reads of the past do not see an entity that is added later.
pub proof fn law_add_keeps_past<P, C>(
    tables: Tables<P, C>,
    key: Seq<char>,
    tenant: Option<Seq<char>>,
    commit: i64,
    payload: P,
    children: Seq<ChildView<C>>,
    other: Seq<char>,
    at: i64,
)
    requires
        consistent(tables),
        add_step(tables, key, tenant, commit, payload, children) is Ok,
        at < commit,
    ensures
        fetched(added(tables, key, tenant, commit, payload, children), other, tenant, Some(at))
            == fetched(tables, other, tenant, Some(at)),
{
    let after = added(tables, key, tenant, commit, payload, children);
    let news = fresh_all(child_rows(key, children), tenant, commit);
    lemma_inserted_ordered(tables.roots, key, tenant, commit, payload);
    if find(tables.roots, other, tenant, Some(at)) is Some {
        let i = choose|i: int|
            0 <= i < tables.roots.len() && hit(#[trigger] tables.roots[i], other, tenant, Some(at));
        assert(after.roots[i] == tables.roots[i]);
        lemma_find_unique(after.roots, other, tenant, Some(at), i);
        lemma_find_unique(tables.roots, other, tenant, Some(at), i);
    } else {
        if find(after.roots, other, tenant, Some(at)) is Some {
            let i = choose|i: int|
                0 <= i < after.roots.len() && hit(#[trigger] after.roots[i], other, tenant, Some(at));
            assert(after.roots[i] == tables.roots[i]);
        }
    }
    lemma_listed_add(tables.children, news, tenant, Some(at), owned_by(other));
    lemma_listed_none(news, tenant, Some(at), owned_by(other));
    assert(listed(tables.children, tenant, Some(at), owned_by(other)) + Seq::<
        RowView<ChildKeyView, C>,
    >::empty() =~= listed(tables.children, tenant, Some(at), owned_by(other)));
}

/// Delete then fetch: once an entity is deleted, it has no current version,
/// and a read as of any commit from the start of the deleted version up to
/// the deletion still gives that version, closed at the deletion.
pub proof fn law_delete_then_fetch<P, C>(
    tables: Tables<P, C>,
    key: Seq<char>,
    tenant: Option<Seq<char>>,
    commit: i64,
    at: i64,
)
    requires
        consistent(tables),
        remove_step(tables, key, tenant, commit) is Ok,
        fetched(tables, key, tenant, None).unwrap().0.start_commit_num <= at < commit,
    ensures
        fetched(tables, key, tenant, None) is Some,
        fetched(removed(tables, key, tenant, commit), key, tenant, None) is None,
        fetched(removed(tables, key, tenant, commit), key, tenant, Some(at)) == Some(
            closed_version(fetched(tables, key, tenant, None).unwrap(), commit),
        ),
{
    let after = removed(tables, key, tenant, commit);
    let version = fetched(tables, key, tenant, None).unwrap();
    let i = choose|i: int|
        0 <= i < tables.roots.len() && hit(#[trigger] tables.roots[i], key, tenant, None);
    lemma_find_unique(tables.roots, key, tenant, None, i);
    law_remove_keeps_invariant(tables, key, tenant, commit);
    // No row of the fact is current any more.
    assert forall|j: int| 0 <= j < after.roots.len() implies !hit(
        #[trigger] after.roots[j],
        key,
        tenant,
        None,
    ) by {
        assert(after.roots[j] == if hit(tables.roots[j], key, tenant, None) {
            closed_row(tables.roots[j], commit)
        } else {
            tables.roots[j]
        });
    }
    // The closed row is the one that was valid at `at`.
    assert(after.roots[i] == closed_row(version.0, commit));
    lemma_find_unique(after.roots, key, tenant, Some(at), i);
    // The closed children are the ones that were valid at `at`.
    let change = |row: RowView<ChildKeyView, C>|
        if selected(row, tenant, None, owned_by(key)) {
            closed_row(row, commit)
        } else {
            row
        };
    assert forall|k: int| 0 <= k < tables.children.len() implies selected(
        change(#[trigger] tables.children[k]),
        tenant,
        Some(at),
        owned_by(key),
    ) == selected(tables.children[k], tenant, None, owned_by(key)) by {
        let child = tables.children[k];
        assert(has_root(tables.roots, child));
        let j = choose|j: int|
            0 <= j < tables.roots.len() && belongs(child, #[trigger] tables.roots[j]);
        if selected(child, tenant, None, owned_by(key)) {
            assert(hit(tables.roots[j], key, tenant, None));
            lemma_find_unique(tables.roots, key, tenant, None, j);
        } else if child.service_id == tenant && child.key.owner == key && valid_at(child, at) {
            assert(in_scope(tables.roots[j], tables.roots[i].key, tables.roots[i].service_id));
            assert(j != i);
            assert(!overlapping(tables.roots[j], tables.roots[i]));
        }
    }
    lemma_listed_map(tables.children, change, tenant, None, Some(at), owned_by(key));
    let current = listed(tables.children, tenant, None, owned_by(key));
    assert forall|k: int| 0 <= k < current.len() implies change(#[trigger] current[k])
        == closed_row(current[k], commit) by {
        tables.children.lemma_filter_pred(
            |row: RowView<ChildKeyView, C>| selected(row, tenant, None, owned_by(key)),
            k,
        );
    }
    assert(current.map_values(change) =~= current.map_values(
        |row: RowView<ChildKeyView, C>| closed_row(row, commit),
    ));
}

/// Update history preserved: once an entity is replaced at `commit`, a
/// current read gives the new version, and a read as of any commit from the
/// start of the old version up to the replacement gives the old version,
/// closed at the replacement.
pub proof fn law_update_preserves_history<P, C>(
    tables: Tables<P, C>,
    key: Seq<char>,
    tenant: Option<Seq<char>>,
    commit: i64,
    payload: P,
    children: Seq<ChildView<C>>,
    at: i64,
)
    requires
        consistent(tables),
        update_step(tables, key, tenant, commit, payload, children) matches Ok(_),
        fetched(tables, key, tenant, None).unwrap().0.start_commit_num <= at < commit,
    ensures
        fetched(tables, key, tenant, None) is Some,
        update_step(tables, key, tenant, commit, payload, children) matches Ok(after) && {
            &&& fetched(after, key, tenant, None) == Some(
                stored_version(key, tenant, commit, payload, children),
            )
            &&& fetched(after, key, tenant, Some(at)) == Some(
                closed_version(fetched(tables, key, tenant, None).unwrap(), commit),
            )
        },
{
    let between = removed(tables, key, tenant, commit);
    law_remove_keeps_invariant(tables, key, tenant, commit);
    law_delete_then_fetch(tables, key, tenant, commit, at);
    lemma_closed_can_insert(tables.roots, key, tenant, commit);
    law_add_then_fetch(between, key, tenant, commit, payload, children);
    law_add_keeps_past(between, key, tenant, commit, payload, children, key, at);
}

/// Tenant isolation: what is added in one scope does not show in a listing
/// or a read of another scope, be that another tenant or none.
pub proof fn law_tenant_isolation<P, C>(
    tables: Tables<P, C>,
    key: Seq<char>,
    tenant: Option<Seq<char>>,
    commit: i64,
    payload: P,
    children: Seq<ChildView<C>>,
    other: Option<Seq<char>>,
    at: Option<i64>,
)
    requires
        consistent(tables),
        add_step(tables, key, tenant, commit, payload, children) is Ok,
        other != tenant,
    ensures
        listing(added(tables, key, tenant, commit, payload, children), other, at) == listing(
            tables,
            other,
            at,
        ),
        forall|any: Seq<char>|
            #[trigger] fetched(
                added(tables, key, tenant, commit, payload, children),
                any,
                other,
                at,
            ) == fetched(tables, any, other, at),
{
    let after = added(tables, key, tenant, commit, payload, children);
    let news = fresh_all(child_rows(key, children), tenant, commit);
    lemma_inserted_ordered(tables.roots, key, tenant, commit, payload);
    lemma_listed_push(
        tables.roots,
        fresh(key, tenant, commit, payload),
        other,
        at,
        any_row::<Seq<char>, P>(),
    );
    assert forall|owner: Seq<char>|
        #[trigger] listed(after.children, other, at, owned_by(owner)) == listed(
            tables.children,
            other,
            at,
            owned_by(owner),
        ) by {
        lemma_listed_add(tables.children, news, other, at, owned_by(owner));
        lemma_listed_none(news, other, at, owned_by(owner));
        assert(listed(tables.children, other, at, owned_by(owner)) + Seq::<
            RowView<ChildKeyView, C>,
        >::empty() =~= listed(tables.children, other, at, owned_by(owner)));
    }
    assert(listing(after, other, at) =~= listing(tables, other, at));
    assert forall|any: Seq<char>|
        #[trigger] fetched(after, any, other, at) == fetched(tables, any, other, at) by {
        assert(listed(after.children, other, at, owned_by(any)) == listed(
            tables.children,
            other,
            at,
            owned_by(any),
        ));
        if find(tables.roots, any, other, at) is Some {
            let i = choose|i: int|
                0 <= i < tables.roots.len() && hit(#[trigger] tables.roots[i], any, other, at);
            assert(after.roots[i] == tables.roots[i]);
            lemma_find_unique(after.roots, any, other, at, i);
            lemma_find_unique(tables.roots, any, other, at, i);
        } else {
            if find(after.roots, any, other, at) is Some {
                let i = choose|i: int|
                    0 <= i < after.roots.len() && hit(#[trigger] after.roots[i], any, other, at);
                assert(after.roots[i] == tables.roots[i]);
            }
        }
    }
}

/// A write after `commit` does not show in the store as it was at `commit`.
pub proof fn law_rollback_forgets_write<P, C>(
    tables: Tables<P, C>,
    operation: Operation<P, C>,
    commit: i64,
)
    requires
        written_at(operation) matches Some(later) && later > commit,
    ensures
        tables_rolled_back(performed(tables, operation), commit) == tables_rolled_back(
            tables,
            commit,
        ),
{
    match operation {
        Operation::Add { key, tenant, commit: later, payload, children } => {
            lemma_rolled_back_forgets_add(tables, key, tenant, later, payload, children, commit);
        },
        Operation::Update { key, tenant, commit: later, payload, children } => {
            lemma_rolled_back_forgets_remove(tables, key, tenant, later, commit);
            lemma_rolled_back_forgets_add(
                removed(tables, key, tenant, later),
                key,
                tenant,
                later,
                payload,
                children,
                commit,
            );
        },
        Operation::Delete { key, tenant, commit: later } => {
            lemma_rolled_back_forgets_remove(tables, key, tenant, later, commit);
        },
        Operation::Rollback { .. } => {},
    }
}

proof fn lemma_rolled_back_forgets_add<P, C>(
    tables: Tables<P, C>,
    key: Seq<char>,
    tenant: Option<Seq<char>>,
    later: i64,
    payload: P,
    children: Seq<ChildView<C>>,
    commit: i64,
)
    requires
        later > commit,
    ensures
        tables_rolled_back(added(tables, key, tenant, later, payload, children), commit)
            == tables_rolled_back(tables, commit),
{
    lemma_rolled_back_push(tables.roots, fresh(key, tenant, later, payload), commit);
    lemma_rolled_back_add(
        tables.children,
        fresh_all(child_rows(key, children), tenant, later),
        commit,
    );
}

proof fn lemma_rolled_back_forgets_remove<P, C>(
    tables: Tables<P, C>,
    key: Seq<char>,
    tenant: Option<Seq<char>>,
    later: i64,
    commit: i64,
)
    requires
        later > commit,
    ensures
        tables_rolled_back(removed(tables, key, tenant, later), commit) == tables_rolled_back(
            tables,
            commit,
        ),
{
    lemma_rolled_back_map(
        tables.roots,
        |row: RowView<Seq<char>, P>|
            if hit(row, key, tenant, None) {
                closed_row(row, later)
            } else {
                row
            },
        commit,
    );
    lemma_rolled_back_map(
        tables.children,
        |row: RowView<ChildKeyView, C>|
            if selected(row, tenant, None, owned_by(key)) {
                closed_row(row, later)
            } else {
                row
            },
        commit,
    );
}

/// Fork rollback: a rollback to `commit` undoes every write that was made
/// after `commit`, whether it was accepted or refused, and nothing else.
/// The store is then what it was when `commit` was its latest commit.
pub proof fn law_rollback_undoes_later_writes<P, C>(
    tables: Tables<P, C>,
    operations: Seq<Operation<P, C>>,
    commit: i64,
)
    requires
        tables_settled(tables, commit),
        forall|i: int|
            0 <= i < operations.len() ==> (written_at(#[trigger] operations[i]) matches Some(later)
                && later > commit),
    ensures
        tables_rolled_back(performed_all(tables, operations), commit) == tables,
    decreases operations.len(),
{
    if operations.len() == 0 {
        lemma_rolled_back_settled(tables.roots, commit);
        lemma_rolled_back_settled(tables.children, commit);
    } else {
        let front = operations.drop_last();
        assert forall|i: int| 0 <= i < front.len() implies (written_at(
            #[trigger] front[i],
        ) matches Some(later) && later > commit) by {
            assert(front[i] == operations[i]);
        }
        law_rollback_undoes_later_writes(tables, front, commit);
        assert(operations.last() == operations[operations.len() - 1]);
        law_rollback_forgets_write(performed_all(tables, front), operations.last(), commit);
    }
}

} // verus!
