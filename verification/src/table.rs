//! The versioned table: rows that are only ever appended or closed, and the
//! reads that are bounded by a commit.
//!
//! A table is viewed as the sequence of its rows' views, in the order in which
//! they were stored.  Every contract here is stated over that sequence.

use vstd::prelude::*;
use crate::ledger::MAX_COMMIT_NUM;
use crate::payload::{Key, Payload, lemma_views_push, views};

verus! {

/// One version of one fact.
#[derive(Debug, PartialEq)]
pub struct Row<K, P> {
    pub key: K,
    pub service_id: Option<String>,
    pub start_commit_num: i64,
    pub end_commit_num: i64,
    pub payload: P,
}

/// The view of a row.
pub struct RowView<K, P> {
    pub key: K,
    pub service_id: Option<Seq<char>>,
    pub start_commit_num: i64,
    pub end_commit_num: i64,
    pub payload: P,
}

impl<K: DeepView, P: DeepView> DeepView for Row<K, P> {
    type V = RowView<K::V, P::V>;

    open spec fn deep_view(&self) -> RowView<K::V, P::V> {
        RowView {
            key: self.key.deep_view(),
            service_id: self.service_id.deep_view(),
            start_commit_num: self.start_commit_num,
            end_commit_num: self.end_commit_num,
            payload: self.payload.deep_view(),
        }
    }
}

impl<K: Payload, P: Payload> Payload for Row<K, P> {
    fn duplicate(&self) -> (copy: Self) {
        Row {
            key: self.key.duplicate(),
            service_id: self.service_id.duplicate(),
            start_commit_num: self.start_commit_num,
            end_commit_num: self.end_commit_num,
            payload: self.payload.duplicate(),
        }
    }
}

/// A table refused a write that would have broken its invariant: two current
/// versions of one fact, overlapping versions, or an empty interval.
#[derive(Clone, Copy, Debug, PartialEq, Eq, Structural)]
pub struct InvariantViolation;

/// The row belongs to the fact `key` in the scope `tenant`.  A scope is
/// matched exactly: no tenant is a scope of its own.
pub open spec fn in_scope<K, P>(row: RowView<K, P>, key: K, tenant: Option<Seq<char>>) -> bool {
    row.key == key && row.service_id == tenant
}

/// The row is the current version of its fact.
pub open spec fn is_current<K, P>(row: RowView<K, P>) -> bool {
    row.end_commit_num == MAX_COMMIT_NUM
}

/// The row is the version that was valid at `commit`.
pub open spec fn valid_at<K, P>(row: RowView<K, P>, commit: i64) -> bool {
    row.start_commit_num <= commit < row.end_commit_num
}

/// The row is the version seen by a read at `at`: as of a commit, or current.
pub open spec fn visible<K, P>(row: RowView<K, P>, at: Option<i64>) -> bool {
    match at {
        Some(commit) => valid_at(row, commit),
        None => is_current(row),
    }
}

/// The intervals of the two rows have a commit in common.
pub open spec fn overlapping<K, P>(a: RowView<K, P>, b: RowView<K, P>) -> bool {
    a.start_commit_num < b.end_commit_num && b.start_commit_num < a.end_commit_num
}

/// The invariant of a table: every interval is non-empty, and no two
/// versions of one fact overlap.  It follows that a fact has at most one
/// current version.
pub open spec fn ordered<K, P>(rows: Seq<RowView<K, P>>) -> bool {
    &&& forall|i: int|
        0 <= i < rows.len() ==> (#[trigger] rows[i]).start_commit_num < rows[i].end_commit_num
    &&& forall|i: int, j: int|
        #![trigger rows[i], rows[j]]
        0 <= i < rows.len() && 0 <= j < rows.len() && i != j && in_scope(
            rows[i],
            rows[j].key,
            rows[j].service_id,
        ) ==> !overlapping(rows[i], rows[j])
}

/// The row answers a read of `key` in `tenant` at `at`.
pub open spec fn hit<K, P>(
    row: RowView<K, P>,
    key: K,
    tenant: Option<Seq<char>>,
    at: Option<i64>,
) -> bool {
    in_scope(row, key, tenant) && visible(row, at)
}

/// The version of `key` in `tenant` that a read at `at` sees, if there is one.
/// In an ordered table there is at most one.
pub open spec fn find<K, P>(
    rows: Seq<RowView<K, P>>,
    key: K,
    tenant: Option<Seq<char>>,
    at: Option<i64>,
) -> Option<RowView<K, P>> {
    if exists|i: int| 0 <= i < rows.len() && hit(#[trigger] rows[i], key, tenant, at) {
        Some(rows[choose|i: int| 0 <= i < rows.len() && hit(#[trigger] rows[i], key, tenant, at)])
    } else {
        None
    }
}

/// A new current version of `key` in `tenant` can start at `commit`: every
/// version stored for it has ended by then.
pub open spec fn can_insert<K, P>(
    rows: Seq<RowView<K, P>>,
    key: K,
    tenant: Option<Seq<char>>,
    commit: i64,
) -> bool {
    &&& commit < MAX_COMMIT_NUM
    &&& forall|i: int|
        0 <= i < rows.len() && in_scope(#[trigger] rows[i], key, tenant)
            ==> rows[i].end_commit_num <= commit
}

/// The current version that starts at `commit`.
pub open spec fn fresh<K, P>(
    key: K,
    tenant: Option<Seq<char>>,
    commit: i64,
    payload: P,
) -> RowView<K, P> {
    RowView {
        key,
        service_id: tenant,
        start_commit_num: commit,
        end_commit_num: MAX_COMMIT_NUM,
        payload,
    }
}

/// The table after a new current version was stored.
pub open spec fn inserted<K, P>(
    rows: Seq<RowView<K, P>>,
    key: K,
    tenant: Option<Seq<char>>,
    commit: i64,
    payload: P,
) -> Seq<RowView<K, P>> {
    rows.push(fresh(key, tenant, commit, payload))
}

/// A current row that started before `commit` can be closed at `commit`.
pub open spec fn can_close<K, P>(row: RowView<K, P>, commit: i64) -> bool {
    row.start_commit_num < commit < MAX_COMMIT_NUM
}

/// The row with its interval ended at `commit`.
pub open spec fn closed_row<K, P>(row: RowView<K, P>, commit: i64) -> RowView<K, P> {
    RowView { end_commit_num: commit, ..row }
}

/// The table after the current version of `key` in `tenant` was closed.
pub open spec fn closed<K, P>(
    rows: Seq<RowView<K, P>>,
    key: K,
    tenant: Option<Seq<char>>,
    commit: i64,
) -> Seq<RowView<K, P>> {
    rows.map_values(
        |row: RowView<K, P>|
            if hit(row, key, tenant, None) {
                closed_row(row, commit)
            } else {
                row
            },
    )
}

/// A test on rows that reads and listings can apply, with its meaning on views.
pub trait RowFilter<K: DeepView, P: DeepView> {
    /// Whether the filter lets a row with this key and payload through.
    spec fn accepts(&self, key: K::V, payload: P::V) -> bool;

    fn test(&self, key: &K, payload: &P) -> (accepted: bool)
        ensures
            accepted == self.accepts(key.deep_view(), payload.deep_view()),
    ;
}

/// The filter that lets every row through.
#[derive(Clone, Copy, Debug)]
pub struct AnyRow;

impl<K: DeepView, P: DeepView> RowFilter<K, P> for AnyRow {
    open spec fn accepts(&self, key: K::V, payload: P::V) -> bool {
        true
    }

    fn test(&self, key: &K, payload: &P) -> (accepted: bool) {
        true
    }
}

/// The test that a filter applies, as a predicate on views.
pub open spec fn predicate<K: DeepView, P: DeepView, F: RowFilter<K, P>>(filter: F) -> spec_fn(
    K::V,
    P::V,
) -> bool {
    |key: K::V, payload: P::V| filter.accepts(key, payload)
}

/// The row is one that a listing of `tenant` at `at` holds, where `keep`
/// says which keys and payloads are wanted.
pub open spec fn selected<K, P>(
    row: RowView<K, P>,
    tenant: Option<Seq<char>>,
    at: Option<i64>,
    keep: spec_fn(K, P) -> bool,
) -> bool {
    row.service_id == tenant && visible(row, at) && keep(row.key, row.payload)
}

/// The rows of `tenant` that are visible at `at` and that `keep` wants, in
/// the order of storage.
pub open spec fn listed<K, P>(
    rows: Seq<RowView<K, P>>,
    tenant: Option<Seq<char>>,
    at: Option<i64>,
    keep: spec_fn(K, P) -> bool,
) -> Seq<RowView<K, P>> {
    rows.filter(|row: RowView<K, P>| selected(row, tenant, at, keep))
}

/// Every current row of `tenant` that `keep` wants can be closed at `commit`.
pub open spec fn can_close_all<K, P>(
    rows: Seq<RowView<K, P>>,
    tenant: Option<Seq<char>>,
    keep: spec_fn(K, P) -> bool,
    commit: i64,
) -> bool {
    &&& commit < MAX_COMMIT_NUM
    &&& forall|i: int|
        0 <= i < rows.len() && selected(#[trigger] rows[i], tenant, None, keep)
            ==> rows[i].start_commit_num < commit
}

/// The table after every current row of `tenant` that `keep` wants was closed
/// at `commit`.
pub open spec fn closed_all<K, P>(
    rows: Seq<RowView<K, P>>,
    tenant: Option<Seq<char>>,
    keep: spec_fn(K, P) -> bool,
    commit: i64,
) -> Seq<RowView<K, P>> {
    rows.map_values(
        |row: RowView<K, P>|
            if selected(row, tenant, None, keep) {
                closed_row(row, commit)
            } else {
                row
            },
    )
}

/// The keys of a sequence of keyed payloads.
pub open spec fn keys_of<K, P>(items: Seq<(K, P)>) -> Seq<K> {
    Seq::new(items.len(), |i: int| items[i].0)
}

/// New current versions of all of `keys` in `tenant` can start at `commit`:
/// each can on its own, and no key occurs twice.
pub open spec fn can_insert_all<K, P>(
    rows: Seq<RowView<K, P>>,
    keys: Seq<K>,
    tenant: Option<Seq<char>>,
    commit: i64,
) -> bool {
    &&& commit < MAX_COMMIT_NUM
    &&& forall|i: int| 0 <= i < keys.len() ==> can_insert(rows, #[trigger] keys[i], tenant, commit)
    &&& forall|i: int, j: int| 0 <= i < j < keys.len() ==> keys[i] != keys[j]
}

/// The current versions of `items` in `tenant` that start at `commit`.
pub open spec fn fresh_all<K, P>(items: Seq<(K, P)>, tenant: Option<Seq<char>>, commit: i64) -> Seq<
    RowView<K, P>,
> {
    Seq::new(items.len(), |i: int| fresh(items[i].0, tenant, commit, items[i].1))
}

/// The table after new current versions of `items` were stored, in their order.
pub open spec fn appended<K, P>(
    rows: Seq<RowView<K, P>>,
    items: Seq<(K, P)>,
    tenant: Option<Seq<char>>,
    commit: i64,
) -> Seq<RowView<K, P>> {
    rows + fresh_all(items, tenant, commit)
}

/// The row was stored at or before `commit`.
pub open spec fn survives<K, P>(row: RowView<K, P>, commit: i64) -> bool {
    row.start_commit_num <= commit
}

/// The row as it was at `commit`: current again if it was closed later.
pub open spec fn reopened<K, P>(row: RowView<K, P>, commit: i64) -> RowView<K, P> {
    if row.end_commit_num > commit {
        RowView { end_commit_num: MAX_COMMIT_NUM, ..row }
    } else {
        row
    }
}

/// The table as it was at `commit`: rows stored later are gone, and rows
/// closed later are current again.
pub open spec fn rolled_back<K, P>(rows: Seq<RowView<K, P>>, commit: i64) -> Seq<RowView<K, P>> {
    rows.filter(|row: RowView<K, P>| survives(row, commit)).map_values(
        |row: RowView<K, P>| reopened(row, commit),
    )
}

/// Nothing in the table happened after `commit`: no row starts after it, and
/// no row was closed after it.
pub open spec fn settled<K, P>(rows: Seq<RowView<K, P>>, commit: i64) -> bool {
    forall|i: int|
        0 <= i < rows.len() ==> {
            &&& (#[trigger] rows[i]).start_commit_num <= commit
            &&& (rows[i].end_commit_num <= commit || is_current(rows[i]))
        }
}

/// Any read that hits a row of an ordered table finds that row.
pub proof fn lemma_find_unique<K, P>(
    rows: Seq<RowView<K, P>>,
    key: K,
    tenant: Option<Seq<char>>,
    at: Option<i64>,
    i: int,
)
    requires
        ordered(rows),
        0 <= i < rows.len(),
        hit(rows[i], key, tenant, at),
    ensures
        find(rows, key, tenant, at) == Some(rows[i]),
{
    let j = choose|j: int| 0 <= j < rows.len() && hit(#[trigger] rows[j], key, tenant, at);
    if j != i {
        assert(in_scope(rows[i], rows[j].key, rows[j].service_id));
        assert(overlapping(rows[i], rows[j]));
    }
}

/// Storing a version that can be inserted keeps the table ordered.
pub proof fn lemma_inserted_ordered<K, P>(
    rows: Seq<RowView<K, P>>,
    key: K,
    tenant: Option<Seq<char>>,
    commit: i64,
    payload: P,
)
    requires
        ordered(rows),
        can_insert(rows, key, tenant, commit),
    ensures
        ordered(inserted(rows, key, tenant, commit, payload)),
{
    let after = inserted(rows, key, tenant, commit, payload);
    assert forall|i: int, j: int|
        #![trigger after[i], after[j]]
        0 <= i < after.len() && 0 <= j < after.len() && i != j && in_scope(
            after[i],
            after[j].key,
            after[j].service_id,
        ) implies !overlapping(after[i], after[j]) by {
        if i < rows.len() && j < rows.len() {
            assert(!overlapping(rows[i], rows[j]));
        } else if i < rows.len() {
            assert(in_scope(rows[i], key, tenant));
        } else {
            assert(in_scope(rows[j], key, tenant));
        }
    }
}

/// Closing the current version of a fact keeps the table ordered.
pub proof fn lemma_closed_ordered<K, P>(
    rows: Seq<RowView<K, P>>,
    key: K,
    tenant: Option<Seq<char>>,
    commit: i64,
)
    requires
        ordered(rows),
        forall|i: int|
            0 <= i < rows.len() && hit(#[trigger] rows[i], key, tenant, None) ==> can_close(
                rows[i],
                commit,
            ),
    ensures
        ordered(closed(rows, key, tenant, commit)),
{
    let after = closed(rows, key, tenant, commit);
    assert forall|i: int|
        0 <= i < after.len() implies (#[trigger] after[i]).start_commit_num
        < after[i].end_commit_num by {
        assert(rows[i].start_commit_num < rows[i].end_commit_num);
    }
    assert forall|i: int, j: int|
        #![trigger after[i], after[j]]
        0 <= i < after.len() && 0 <= j < after.len() && i != j && in_scope(
            after[i],
            after[j].key,
            after[j].service_id,
        ) implies !overlapping(after[i], after[j]) by {
        assert(!overlapping(rows[i], rows[j]));
    }
}

/// Closing every selected row keeps the table ordered.
pub proof fn lemma_closed_all_ordered<K, P>(
    rows: Seq<RowView<K, P>>,
    tenant: Option<Seq<char>>,
    keep: spec_fn(K, P) -> bool,
    commit: i64,
)
    requires
        ordered(rows),
        can_close_all(rows, tenant, keep, commit),
    ensures
        ordered(closed_all(rows, tenant, keep, commit)),
{
    let after = closed_all(rows, tenant, keep, commit);
    assert forall|i: int|
        0 <= i < after.len() implies (#[trigger] after[i]).start_commit_num
        < after[i].end_commit_num by {
        assert(rows[i].start_commit_num < rows[i].end_commit_num);
    }
    assert forall|i: int, j: int|
        #![trigger after[i], after[j]]
        0 <= i < after.len() && 0 <= j < after.len() && i != j && in_scope(
            after[i],
            after[j].key,
            after[j].service_id,
        ) implies !overlapping(after[i], after[j]) by {
        assert(!overlapping(rows[i], rows[j]));
    }
}

/// Storing versions that can all be inserted keeps the table ordered.
pub proof fn lemma_appended_ordered<K, P>(
    rows: Seq<RowView<K, P>>,
    items: Seq<(K, P)>,
    tenant: Option<Seq<char>>,
    commit: i64,
)
    requires
        ordered(rows),
        can_insert_all(rows, keys_of(items), tenant, commit),
    ensures
        ordered(appended(rows, items, tenant, commit)),
{
    let after = appended(rows, items, tenant, commit);
    let keys = keys_of(items);
    assert forall|i: int, j: int|
        #![trigger after[i], after[j]]
        0 <= i < after.len() && 0 <= j < after.len() && i != j && in_scope(
            after[i],
            after[j].key,
            after[j].service_id,
        ) implies !overlapping(after[i], after[j]) by {
        if i < rows.len() && j < rows.len() {
            assert(!overlapping(rows[i], rows[j]));
        } else if i < rows.len() {
            assert(can_insert(rows, keys[j - rows.len()], tenant, commit));
            assert(in_scope(rows[i], keys[j - rows.len()], tenant));
        } else if j < rows.len() {
            assert(can_insert(rows, keys[i - rows.len()], tenant, commit));
            assert(in_scope(rows[j], keys[i - rows.len()], tenant));
        } else {
            assert(keys[i - rows.len()] == after[i].key);
            assert(keys[j - rows.len()] == after[j].key);
        }
    }
}

/// How a listing grows with the table.
pub proof fn lemma_listed_push<K, P>(
    rows: Seq<RowView<K, P>>,
    row: RowView<K, P>,
    tenant: Option<Seq<char>>,
    at: Option<i64>,
    keep: spec_fn(K, P) -> bool,
)
    ensures
        listed(rows.push(row), tenant, at, keep) == if selected(row, tenant, at, keep) {
            listed(rows, tenant, at, keep).push(row)
        } else {
            listed(rows, tenant, at, keep)
        },
{
    reveal(Seq::filter);
    assert(rows.push(row).drop_last() =~= rows);
}

/// How a rollback grows with the table.
pub proof fn lemma_rolled_back_push<K, P>(rows: Seq<RowView<K, P>>, row: RowView<K, P>, commit: i64)
    ensures
        rolled_back(rows.push(row), commit) == if survives(row, commit) {
            rolled_back(rows, commit).push(reopened(row, commit))
        } else {
            rolled_back(rows, commit)
        },
{
    reveal(Seq::filter);
    assert(rows.push(row).drop_last() =~= rows);
    let kept = rows.filter(|r: RowView<K, P>| survives(r, commit));
    if survives(row, commit) {
        assert(kept.push(row).map_values(|r: RowView<K, P>| reopened(r, commit))
            =~= rolled_back(rows, commit).push(reopened(row, commit)));
    }
}

/// Every row of a rolled-back table is a surviving row of the table, as it was.
pub proof fn lemma_rolled_back_members<K, P>(rows: Seq<RowView<K, P>>, commit: i64)
    ensures
        forall|a: int|
            0 <= a < rolled_back(rows, commit).len() ==> exists|i: int|
                0 <= i < rows.len() && survives(#[trigger] rows[i], commit) && reopened(
                    rows[i],
                    commit,
                ) == #[trigger] rolled_back(rows, commit)[a],
    decreases rows.len(),
{
    if rows.len() > 0 {
        let front = rows.drop_last();
        let last = rows.last();
        assert(front.push(last) =~= rows);
        lemma_rolled_back_members(front, commit);
        lemma_rolled_back_push(front, last, commit);
        let back = rolled_back(rows, commit);
        assert forall|a: int| 0 <= a < back.len() implies exists|i: int|
            0 <= i < rows.len() && survives(#[trigger] rows[i], commit) && reopened(
                rows[i],
                commit,
            ) == #[trigger] back[a] by {
            if a < rolled_back(front, commit).len() {
                let i = choose|i: int|
                    0 <= i < front.len() && survives(#[trigger] front[i], commit) && reopened(
                        front[i],
                        commit,
                    ) == rolled_back(front, commit)[a];
                assert(rows[i] == front[i]);
            } else {
                assert(rows[rows.len() - 1] == last);
            }
        }
    } else {
        reveal(Seq::filter);
    }
}

/// Every surviving row of a table is in the rolled-back table, as it was.
pub proof fn lemma_rolled_back_contains<K, P>(rows: Seq<RowView<K, P>>, commit: i64, i: int)
    requires
        0 <= i < rows.len(),
        survives(rows[i], commit),
    ensures
        exists|a: int|
            0 <= a < rolled_back(rows, commit).len() && #[trigger] rolled_back(rows, commit)[a]
                == reopened(rows[i], commit),
    decreases rows.len(),
{
    let front = rows.drop_last();
    let last = rows.last();
    assert(front.push(last) =~= rows);
    lemma_rolled_back_push(front, last, commit);
    let back = rolled_back(rows, commit);
    if i == rows.len() - 1 {
        assert(back[back.len() - 1] == reopened(rows[i], commit));
    } else {
        lemma_rolled_back_contains(front, commit, i);
        let a = choose|a: int|
            0 <= a < rolled_back(front, commit).len() && #[trigger] rolled_back(front, commit)[a]
                == reopened(front[i], commit);
        assert(back[a] == reopened(rows[i], commit));
    }
}

/// Two versions of one fact that did not overlap do not overlap as they were
/// at `commit`.
proof fn lemma_reopened_apart<K, P>(a: RowView<K, P>, b: RowView<K, P>, commit: i64)
    requires
        a.start_commit_num < a.end_commit_num,
        b.start_commit_num < b.end_commit_num,
        !overlapping(a, b),
        survives(a, commit),
        survives(b, commit),
    ensures
        !overlapping(reopened(a, commit), reopened(b, commit)),
{
}

/// A rollback keeps the table ordered.
pub proof fn lemma_rolled_back_ordered<K, P>(rows: Seq<RowView<K, P>>, commit: i64)
    requires
        ordered(rows),
    ensures
        ordered(rolled_back(rows, commit)),
    decreases rows.len(),
{
    if rows.len() == 0 {
        reveal(Seq::filter);
    } else {
        let front = rows.drop_last();
        let last = rows.last();
        assert(front.push(last) =~= rows);
        assert(ordered(front)) by {
            assert forall|i: int, j: int|
                #![trigger front[i], front[j]]
                0 <= i < front.len() && 0 <= j < front.len() && i != j && in_scope(
                    front[i],
                    front[j].key,
                    front[j].service_id,
                ) implies !overlapping(front[i], front[j]) by {
                assert(!overlapping(rows[i], rows[j]));
            }
            assert forall|i: int| 0 <= i < front.len() implies (#[trigger] front[i]).start_commit_num
                < front[i].end_commit_num by {
                assert(rows[i].start_commit_num < rows[i].end_commit_num);
            }
        }
        lemma_rolled_back_ordered(front, commit);
        lemma_rolled_back_push(front, last, commit);
        lemma_rolled_back_members(front, commit);
        let back = rolled_back(rows, commit);
        let before = rolled_back(front, commit);
        if survives(last, commit) {
            assert(rows[rows.len() - 1] == last);
            assert(last.start_commit_num < last.end_commit_num);
            assert forall|i: int, j: int|
                #![trigger back[i], back[j]]
                0 <= i < back.len() && 0 <= j < back.len() && i != j && in_scope(
                    back[i],
                    back[j].key,
                    back[j].service_id,
                ) implies !overlapping(back[i], back[j]) by {
                if i < before.len() && j < before.len() {
                    assert(!overlapping(before[i], before[j]));
                } else {
                    let a = if i < before.len() { i } else { j };
                    let at = choose|k: int|
                        0 <= k < front.len() && survives(#[trigger] front[k], commit) && reopened(
                            front[k],
                            commit,
                        ) == before[a];
                    assert(rows[at] == front[at]);
                    assert(rows[at].start_commit_num < rows[at].end_commit_num);
                    assert(!overlapping(rows[at], rows[rows.len() - 1]));
                    lemma_reopened_apart(rows[at], last, commit);
                }
            }
            assert forall|i: int| 0 <= i < back.len() implies (#[trigger] back[i]).start_commit_num
                < back[i].end_commit_num by {
                if i < before.len() {
                    assert(before[i].start_commit_num < before[i].end_commit_num);
                }
            }
        }
    }
}

/// Rolling back to a commit after which nothing happened changes nothing.
pub proof fn lemma_rolled_back_settled<K, P>(rows: Seq<RowView<K, P>>, commit: i64)
    requires
        settled(rows, commit),
    ensures
        rolled_back(rows, commit) == rows,
    decreases rows.len(),
{
    if rows.len() == 0 {
        reveal(Seq::filter);
        assert(rolled_back(rows, commit) =~= rows);
    } else {
        let front = rows.drop_last();
        let last = rows.last();
        assert(front.push(last) =~= rows);
        assert(settled(front, commit)) by {
            assert forall|i: int| 0 <= i < front.len() implies {
                &&& (#[trigger] front[i]).start_commit_num <= commit
                &&& (front[i].end_commit_num <= commit || is_current(front[i]))
            } by {
                assert(rows[i] == front[i]);
            }
        }
        lemma_rolled_back_settled(front, commit);
        lemma_rolled_back_push(front, last, commit);
        assert(rows[rows.len() - 1] == last);
    }
}

/// A rolled-back table holds nothing that happened after the commit.
pub proof fn lemma_rolled_back_is_settled<K, P>(rows: Seq<RowView<K, P>>, commit: i64)
    ensures
        settled(rolled_back(rows, commit), commit),
{
    lemma_rolled_back_members(rows, commit);
    let back = rolled_back(rows, commit);
    assert forall|a: int| 0 <= a < back.len() implies {
        &&& (#[trigger] back[a]).start_commit_num <= commit
        &&& (back[a].end_commit_num <= commit || is_current(back[a]))
    } by {
        let i = choose|i: int|
            0 <= i < rows.len() && survives(#[trigger] rows[i], commit) && reopened(rows[i], commit)
                == back[a];
    }
}

/// Once the current version of a fact is closed at `commit`, a new one can
/// start there.
pub proof fn lemma_closed_can_insert<K, P>(
    rows: Seq<RowView<K, P>>,
    key: K,
    tenant: Option<Seq<char>>,
    commit: i64,
)
    requires
        ordered(rows),
        find(rows, key, tenant, None) matches Some(row) && can_close(row, commit),
    ensures
        can_insert(closed(rows, key, tenant, commit), key, tenant, commit),
{
    let after = closed(rows, key, tenant, commit);
    let at = choose|i: int| 0 <= i < rows.len() && hit(#[trigger] rows[i], key, tenant, None);
    assert forall|i: int| 0 <= i < after.len() && in_scope(#[trigger] after[i], key, tenant) implies after[i].end_commit_num <= commit by {
        if !hit(rows[i], key, tenant, None) {
            assert(in_scope(rows[i], rows[at].key, rows[at].service_id));
            assert(!overlapping(rows[i], rows[at]));
            assert(rows[i].start_commit_num < rows[i].end_commit_num);
        }
    }
}

/// A listing of rows of which none is selected is empty.
pub proof fn lemma_listed_none<K, P>(
    rows: Seq<RowView<K, P>>,
    tenant: Option<Seq<char>>,
    at: Option<i64>,
    keep: spec_fn(K, P) -> bool,
)
    requires
        forall|i: int| 0 <= i < rows.len() ==> !selected(#[trigger] rows[i], tenant, at, keep),
    ensures
        listed(rows, tenant, at, keep) == Seq::<RowView<K, P>>::empty(),
    decreases rows.len(),
{
    reveal(Seq::filter);
    if rows.len() > 0 {
        let front = rows.drop_last();
        assert forall|i: int| 0 <= i < front.len() implies !selected(
            #[trigger] front[i],
            tenant,
            at,
            keep,
        ) by {
            assert(front[i] == rows[i]);
        }
        lemma_listed_none(front, tenant, at, keep);
        assert(rows.last() == rows[rows.len() - 1]);
    }
}

/// A listing of rows that are all selected is those rows.
pub proof fn lemma_listed_all<K, P>(
    rows: Seq<RowView<K, P>>,
    tenant: Option<Seq<char>>,
    at: Option<i64>,
    keep: spec_fn(K, P) -> bool,
)
    requires
        forall|i: int| 0 <= i < rows.len() ==> selected(#[trigger] rows[i], tenant, at, keep),
    ensures
        listed(rows, tenant, at, keep) == rows,
    decreases rows.len(),
{
    reveal(Seq::filter);
    if rows.len() > 0 {
        let front = rows.drop_last();
        assert forall|i: int| 0 <= i < front.len() implies selected(
            #[trigger] front[i],
            tenant,
            at,
            keep,
        ) by {
            assert(front[i] == rows[i]);
        }
        lemma_listed_all(front, tenant, at, keep);
        assert(rows.last() == rows[rows.len() - 1]);
        assert(front.push(rows.last()) =~= rows);
    } else {
        assert(listed(rows, tenant, at, keep) =~= rows);
    }
}

/// A listing of two runs of rows is the listings of the two, one after the
/// other.
pub proof fn lemma_listed_add<K, P>(
    a: Seq<RowView<K, P>>,
    b: Seq<RowView<K, P>>,
    tenant: Option<Seq<char>>,
    at: Option<i64>,
    keep: spec_fn(K, P) -> bool,
)
    ensures
        listed(a + b, tenant, at, keep) == listed(a, tenant, at, keep) + listed(
            b,
            tenant,
            at,
            keep,
        ),
{
    Seq::filter_distributes_over_add(
        a,
        b,
        |row: RowView<K, P>| selected(row, tenant, at, keep),
    );
}

/// Where a change to every row turns the rows selected at `at` into the rows
/// selected at `after`, the listing after the change is the listing before
/// it, changed.
pub proof fn lemma_listed_map<K, P>(
    rows: Seq<RowView<K, P>>,
    change: spec_fn(RowView<K, P>) -> RowView<K, P>,
    tenant: Option<Seq<char>>,
    at: Option<i64>,
    after: Option<i64>,
    keep: spec_fn(K, P) -> bool,
)
    requires
        forall|i: int|
            0 <= i < rows.len() ==> selected(change(#[trigger] rows[i]), tenant, after, keep)
                == selected(rows[i], tenant, at, keep),
    ensures
        listed(rows.map_values(change), tenant, after, keep) == listed(
            rows,
            tenant,
            at,
            keep,
        ).map_values(change),
    decreases rows.len(),
{
    reveal(Seq::filter);
    if rows.len() > 0 {
        let front = rows.drop_last();
        let last = rows.last();
        assert forall|i: int| 0 <= i < front.len() implies selected(
            change(#[trigger] front[i]),
            tenant,
            after,
            keep,
        ) == selected(front[i], tenant, at, keep) by {
            assert(front[i] == rows[i]);
        }
        lemma_listed_map(front, change, tenant, at, after, keep);
        assert(rows.map_values(change).drop_last() =~= front.map_values(change));
        assert(rows.map_values(change).last() == change(last));
        assert(last == rows[rows.len() - 1]);
        if selected(last, tenant, at, keep) {
            assert(listed(front, tenant, at, keep).push(last).map_values(change) =~= listed(
                front,
                tenant,
                at,
                keep,
            ).map_values(change).push(change(last)));
        }
    } else {
        assert(listed(rows.map_values(change), tenant, after, keep) =~= listed(
            rows,
            tenant,
            at,
            keep,
        ).map_values(change));
    }
}

/// A change to every row that does not show at `commit` does not show in
/// the table as it was at `commit`.
pub proof fn lemma_rolled_back_map<K, P>(
    rows: Seq<RowView<K, P>>,
    change: spec_fn(RowView<K, P>) -> RowView<K, P>,
    commit: i64,
)
    requires
        forall|i: int|
            0 <= i < rows.len() ==> {
                &&& survives(change(#[trigger] rows[i]), commit) == survives(rows[i], commit)
                &&& reopened(change(rows[i]), commit) == reopened(rows[i], commit)
            },
    ensures
        rolled_back(rows.map_values(change), commit) == rolled_back(rows, commit),
    decreases rows.len(),
{
    if rows.len() > 0 {
        let front = rows.drop_last();
        let last = rows.last();
        assert forall|i: int| 0 <= i < front.len() implies {
            &&& survives(change(#[trigger] front[i]), commit) == survives(front[i], commit)
            &&& reopened(change(front[i]), commit) == reopened(front[i], commit)
        } by {
            assert(front[i] == rows[i]);
        }
        lemma_rolled_back_map(front, change, commit);
        assert(last == rows[rows.len() - 1]);
        assert(front.map_values(change).push(change(last)) =~= rows.map_values(change));
        assert(front.push(last) =~= rows);
        lemma_rolled_back_push(front.map_values(change), change(last), commit);
        lemma_rolled_back_push(front, last, commit);
    } else {
        assert(rows.map_values(change) =~= rows);
    }
}

/// Rows stored after `commit` do not show in the table as it was at `commit`.
pub proof fn lemma_rolled_back_add<K, P>(
    rows: Seq<RowView<K, P>>,
    later: Seq<RowView<K, P>>,
    commit: i64,
)
    requires
        forall|i: int| 0 <= i < later.len() ==> !survives(#[trigger] later[i], commit),
    ensures
        rolled_back(rows + later, commit) == rolled_back(rows, commit),
    decreases later.len(),
{
    if later.len() > 0 {
        let front = later.drop_last();
        assert forall|i: int| 0 <= i < front.len() implies !survives(#[trigger] front[i], commit) by {
            assert(front[i] == later[i]);
        }
        lemma_rolled_back_add(rows, front, commit);
        assert(later.last() == later[later.len() - 1]);
        assert((rows + front).push(later.last()) =~= rows + later);
        lemma_rolled_back_push(rows + front, later.last(), commit);
    } else {
        assert(rows + later =~= rows);
    }
}

/// What happened at `commit` leaves a table that was settled before it
/// settled at it.
pub proof fn lemma_settled_later<K, P>(rows: Seq<RowView<K, P>>, before: i64, commit: i64)
    requires
        settled(rows, before),
        before <= commit,
    ensures
        settled(rows, commit),
{
    assert forall|i: int| 0 <= i < rows.len() implies {
        &&& (#[trigger] rows[i]).start_commit_num <= commit
        &&& (rows[i].end_commit_num <= commit || is_current(rows[i]))
    } by {
        assert(rows[i].start_commit_num <= before);
    }
}

/// A table of versioned rows.
#[derive(Debug, PartialEq)]
pub struct VersionedTable<K, P> {
    rows: Vec<Row<K, P>>,
}

impl<K: DeepView, P: DeepView> DeepView for VersionedTable<K, P> {
    type V = Seq<RowView<K::V, P::V>>;

    closed spec fn deep_view(&self) -> Seq<RowView<K::V, P::V>> {
        self.rows.deep_view()
    }
}

impl<K: Key, P: Payload> VersionedTable<K, P> {
    /// The invariant of the table.
    pub open spec fn well_formed(&self) -> bool {
        ordered(self.deep_view())
    }

    /// An empty table.
    pub fn new() -> (table: Self)
        ensures
            table.deep_view() == Seq::<RowView<K::V, P::V>>::empty(),
            table.well_formed(),
    {
        let table = VersionedTable { rows: Vec::new() };
        assert(table.deep_view() =~= Seq::<RowView<K::V, P::V>>::empty());
        table
    }

    /// The number of rows stored, historical ones included.
    pub fn len(&self) -> (n: usize)
        ensures
            n == self.deep_view().len(),
    {
        self.rows.len()
    }

    /// The row at `index`, in the order of storage.
    pub fn row(&self, index: usize) -> (row: &Row<K, P>)
        requires
            index < self.deep_view().len(),
        ensures
            row.deep_view() == self.deep_view()[index as int],
    {
        &self.rows[index]
    }

    /// Whether a new current version of `key` in `service_id` can start at
    /// `commit`.
    pub fn accepts_insert(&self, key: &K, service_id: &Option<String>, commit: i64) -> (accepted: bool)
        ensures
            accepted == can_insert(
                self.deep_view(),
                key.deep_view(),
                service_id.deep_view(),
                commit,
            ),
    {
        if commit >= MAX_COMMIT_NUM {
            return false;
        }
        let mut i: usize = 0;
        while i < self.rows.len()
            invariant
                i <= self.rows.len(),
                forall|j: int|
                    0 <= j < i && in_scope(
                        #[trigger] self.deep_view()[j],
                        key.deep_view(),
                        service_id.deep_view(),
                    ) ==> self.deep_view()[j].end_commit_num <= commit,
            decreases self.rows.len() - i,
        {
            let row = &self.rows[i];
            if row.key.same(key) && row.service_id.same(service_id) && row.end_commit_num
                > commit {
                assert(in_scope(self.deep_view()[i as int], key.deep_view(), service_id.deep_view()));
                return false;
            }
            i += 1;
        }
        true
    }

    /// Stores a new current version of `key` in `service_id`, valid from
    /// `commit` on.  A write that would leave the fact with two current
    /// versions, or with overlapping ones, is refused and changes nothing.
    pub fn insert_current(
        &mut self,
        key: K,
        service_id: Option<String>,
        commit: i64,
        payload: P,
    ) -> (result: Result<(), InvariantViolation>)
        requires
            old(self).well_formed(),
        ensures
            final(self).well_formed(),
            result is Ok <==> can_insert(
                old(self).deep_view(),
                key.deep_view(),
                service_id.deep_view(),
                commit,
            ),
            result is Ok ==> final(self).deep_view() == inserted(
                old(self).deep_view(),
                key.deep_view(),
                service_id.deep_view(),
                commit,
                payload.deep_view(),
            ),
            result is Err ==> final(self).deep_view() == old(self).deep_view(),
    {
        if !self.accepts_insert(&key, &service_id, commit) {
            return Err(InvariantViolation);
        }
        proof {
            lemma_inserted_ordered(
                self.deep_view(),
                key.deep_view(),
                service_id.deep_view(),
                commit,
                payload.deep_view(),
            );
        }
        let ghost before = self.rows@;
        let row = Row { key, service_id, start_commit_num: commit, end_commit_num: MAX_COMMIT_NUM, payload };
        self.rows.push(row);
        proof {
            lemma_views_push(before, row);
            assert(self.deep_view() =~= views(self.rows@));
            assert(old(self).deep_view() =~= views(before));
        }
        Ok(())
    }

    /// The index of the first row that a read of `key` in `service_id` at `at`
    /// hits, or the number of rows.
    fn position(&self, key: &K, service_id: &Option<String>, at: Option<i64>) -> (index: usize)
        ensures
            index <= self.deep_view().len(),
            index < self.deep_view().len() ==> hit(
                self.deep_view()[index as int],
                key.deep_view(),
                service_id.deep_view(),
                at,
            ),
            forall|j: int|
                0 <= j < index ==> !hit(
                    #[trigger] self.deep_view()[j],
                    key.deep_view(),
                    service_id.deep_view(),
                    at,
                ),
    {
        let mut i: usize = 0;
        while i < self.rows.len()
            invariant
                i <= self.rows.len(),
                forall|j: int|
                    0 <= j < i ==> !hit(
                        #[trigger] self.deep_view()[j],
                        key.deep_view(),
                        service_id.deep_view(),
                        at,
                    ),
            decreases self.rows.len() - i,
        {
            let row = &self.rows[i];
            if row.key.same(key) && row.service_id.same(service_id) {
                let seen = match at {
                    Some(commit) => row.start_commit_num <= commit && commit < row.end_commit_num,
                    None => row.end_commit_num == MAX_COMMIT_NUM,
                };
                if seen {
                    return i;
                }
            }
            i += 1;
        }
        i
    }

    /// The current version of `key` in `service_id`.
    pub fn read_current(&self, key: &K, service_id: &Option<String>) -> (row: Option<&Row<K, P>>)
        requires
            self.well_formed(),
        ensures
            row.deep_view() == find(self.deep_view(), key.deep_view(), service_id.deep_view(), None),
    {
        self.read(key, service_id, None)
    }

    /// The version of `key` in `service_id` that was valid at `commit`.
    pub fn read_as_of(&self, key: &K, service_id: &Option<String>, commit: i64) -> (row: Option<
        &Row<K, P>,
    >)
        requires
            self.well_formed(),
        ensures
            row.deep_view() == find(
                self.deep_view(),
                key.deep_view(),
                service_id.deep_view(),
                Some(commit),
            ),
    {
        self.read(key, service_id, Some(commit))
    }

    fn read(&self, key: &K, service_id: &Option<String>, at: Option<i64>) -> (row: Option<
        &Row<K, P>,
    >)
        requires
            self.well_formed(),
        ensures
            row.deep_view() == find(self.deep_view(), key.deep_view(), service_id.deep_view(), at),
    {
        let index = self.position(key, service_id, at);
        if index < self.rows.len() {
            proof {
                lemma_find_unique(
                    self.deep_view(),
                    key.deep_view(),
                    service_id.deep_view(),
                    at,
                    index as int,
                );
            }
            Some(&self.rows[index])
        } else {
            None
        }
    }
    /// Ends the current version of `key` in `service_id` at `commit` and
    /// hands back its payload, or `None` where the fact has no current
    /// version.  A close that would leave an empty interval is refused.
    pub fn close_current(&mut self, key: &K, service_id: &Option<String>, commit: i64) -> (result:
        Result<Option<P>, InvariantViolation>)
        requires
            old(self).well_formed(),
        ensures
            final(self).well_formed(),
            match find(old(self).deep_view(), key.deep_view(), service_id.deep_view(), None) {
                None => result matches Ok(None) && final(self).deep_view() == old(self).deep_view(),
                Some(row) => if can_close(row, commit) {
                    &&& result matches Ok(Some(payload)) && payload.deep_view() == row.payload
                    &&& final(self).deep_view() == closed(
                        old(self).deep_view(),
                        key.deep_view(),
                        service_id.deep_view(),
                        commit,
                    )
                } else {
                    result is Err && final(self).deep_view() == old(self).deep_view()
                },
            },
    {
        let index = self.position(key, service_id, None);
        if index >= self.rows.len() {
            return Ok(None);
        }
        let ghost before = self.deep_view();
        proof {
            lemma_find_unique(before, key.deep_view(), service_id.deep_view(), None, index as int);
        }
        let row = &self.rows[index];
        if !(row.start_commit_num < commit && commit < MAX_COMMIT_NUM) {
            return Err(InvariantViolation);
        }
        let payload = row.payload.duplicate();
        let replacement = Row {
            key: row.key.duplicate(),
            service_id: row.service_id.duplicate(),
            start_commit_num: row.start_commit_num,
            end_commit_num: commit,
            payload: row.payload.duplicate(),
        };
        self.rows.set(index, replacement);
        proof {
            let after = self.deep_view();
            let target = closed(before, key.deep_view(), service_id.deep_view(), commit);
            assert forall|j: int| 0 <= j < before.len() implies after[j] == target[j] by {
                if j != index as int && hit(before[j], key.deep_view(), service_id.deep_view(), None) {
                    assert(in_scope(before[j], before[index as int].key, before[index as int].service_id));
                    assert(overlapping(before[j], before[index as int]));
                }
            }
            assert(after =~= target);
            lemma_closed_ordered(before, key.deep_view(), service_id.deep_view(), commit);
        }
        Ok(Some(payload))
    }

    /// Ends the current version of `key` in `service_id` at `commit` and
    /// stores `payload` as the version that follows it, both or neither.
    /// Hands back the payload that was replaced, or `None` where the fact had
    /// no current version.
    pub fn replace_current(&mut self, key: K, service_id: Option<String>, commit: i64, payload: P) -> (result:
        Result<Option<P>, InvariantViolation>)
        requires
            old(self).well_formed(),
        ensures
            final(self).well_formed(),
            match find(old(self).deep_view(), key.deep_view(), service_id.deep_view(), None) {
                None => if can_insert(
                    old(self).deep_view(),
                    key.deep_view(),
                    service_id.deep_view(),
                    commit,
                ) {
                    &&& result matches Ok(None)
                    &&& final(self).deep_view() == inserted(
                        old(self).deep_view(),
                        key.deep_view(),
                        service_id.deep_view(),
                        commit,
                        payload.deep_view(),
                    )
                } else {
                    result is Err && final(self).deep_view() == old(self).deep_view()
                },
                Some(row) => if can_close(row, commit) {
                    &&& result matches Ok(Some(previous)) && previous.deep_view() == row.payload
                    &&& final(self).deep_view() == inserted(
                        closed(
                            old(self).deep_view(),
                            key.deep_view(),
                            service_id.deep_view(),
                            commit,
                        ),
                        key.deep_view(),
                        service_id.deep_view(),
                        commit,
                        payload.deep_view(),
                    )
                } else {
                    result is Err && final(self).deep_view() == old(self).deep_view()
                },
            },
    {
        let ghost before = self.deep_view();
        let ghost found = find(before, key.deep_view(), service_id.deep_view(), None);
        let previous = match self.close_current(&key, &service_id, commit) {
            Ok(previous) => previous,
            Err(violation) => {
                return Err(violation);
            },
        };
        proof {
            if found is Some {
                lemma_closed_can_insert(before, key.deep_view(), service_id.deep_view(), commit);
            }
        }
        match self.insert_current(key, service_id, commit, payload) {
            Ok(()) => Ok(previous),
            Err(violation) => Err(violation),
        }
    }

    /// The rows of `service_id` that are visible at `at` and pass `filter`,
    /// in the order of storage.
    pub fn list<F: RowFilter<K, P>>(&self, service_id: &Option<String>, at: Option<i64>, filter: &F) -> (rows:
        Vec<Row<K, P>>)
        ensures
            rows.deep_view() == listed(
                self.deep_view(),
                service_id.deep_view(),
                at,
                predicate::<K, P, F>(*filter),
            ),
    {
        let ghost all = self.deep_view();
        let ghost tenant = service_id.deep_view();
        let ghost keep = predicate::<K, P, F>(*filter);
        let mut rows: Vec<Row<K, P>> = Vec::new();
        let mut i: usize = 0;
        assert(all.take(0) =~= Seq::<RowView<K::V, P::V>>::empty());
        proof {
            reveal(Seq::filter);
        }
        assert(rows.deep_view() =~= listed(all.take(0), tenant, at, keep));
        while i < self.rows.len()
            invariant
                i <= self.rows.len(),
                all == self.deep_view(),
                tenant == service_id.deep_view(),
                keep == predicate::<K, P, F>(*filter),
                rows.deep_view() == listed(all.take(i as int), tenant, at, keep),
            decreases self.rows.len() - i,
        {
            let row = &self.rows[i];
            let seen = match at {
                Some(commit) => row.start_commit_num <= commit && commit < row.end_commit_num,
                None => row.end_commit_num == MAX_COMMIT_NUM,
            };
            proof {
                lemma_listed_push(all.take(i as int), all[i as int], tenant, at, keep);
                assert(all.take(i as int).push(all[i as int]) =~= all.take(i + 1));
            }
            if seen && row.service_id.same(service_id) && filter.test(&row.key, &row.payload) {
                let ghost listed_before = rows.deep_view();
                let copy = row.duplicate();
                rows.push(copy);
                assert(rows.deep_view() =~= listed_before.push(all[i as int]));
            }
            i += 1;
        }
        assert(all.take(i as int) =~= all);
        rows
    }

    /// The current rows of `service_id` that pass `filter`.
    pub fn list_current<F: RowFilter<K, P>>(&self, service_id: &Option<String>, filter: &F) -> (rows:
        Vec<Row<K, P>>)
        ensures
            rows.deep_view() == listed(
                self.deep_view(),
                service_id.deep_view(),
                None,
                predicate::<K, P, F>(*filter),
            ),
    {
        self.list(service_id, None, filter)
    }

    /// Ends at `commit` every current row of `service_id` that passes
    /// `filter`: all of them or, where one cannot be closed, none.
    pub fn close_all<F: RowFilter<K, P>>(&mut self, service_id: &Option<String>, filter: &F, commit: i64) -> (result:
        Result<(), InvariantViolation>)
        requires
            old(self).well_formed(),
        ensures
            final(self).well_formed(),
            result is Ok <==> can_close_all(
                old(self).deep_view(),
                service_id.deep_view(),
                predicate::<K, P, F>(*filter),
                commit,
            ),
            result is Ok ==> final(self).deep_view() == closed_all(
                old(self).deep_view(),
                service_id.deep_view(),
                predicate::<K, P, F>(*filter),
                commit,
            ),
            result is Err ==> final(self).deep_view() == old(self).deep_view(),
    {
        if commit >= MAX_COMMIT_NUM {
            return Err(InvariantViolation);
        }
        let ghost before = self.deep_view();
        let ghost tenant = service_id.deep_view();
        let ghost keep = predicate::<K, P, F>(*filter);
        let mut i: usize = 0;
        while i < self.rows.len()
            invariant
                *self == *old(self),
                self.well_formed(),
                before == self.deep_view(),
                tenant == service_id.deep_view(),
                keep == predicate::<K, P, F>(*filter),
                i <= self.rows.len(),
                forall|j: int|
                    0 <= j < i && selected(#[trigger] before[j], tenant, None, keep)
                        ==> before[j].start_commit_num < commit,
            decreases self.rows.len() - i,
        {
            let row = &self.rows[i];
            if row.end_commit_num == MAX_COMMIT_NUM && row.service_id.same(service_id)
                && filter.test(&row.key, &row.payload) && row.start_commit_num >= commit {
                assert(selected(before[i as int], tenant, None, keep));
                return Err(InvariantViolation);
            }
            i += 1;
        }
        let ghost target = closed_all(before, tenant, keep, commit);
        let mut k: usize = 0;
        while k < self.rows.len()
            invariant
                k <= self.rows.len(),
                self.deep_view().len() == before.len(),
                tenant == service_id.deep_view(),
                keep == predicate::<K, P, F>(*filter),
                target == closed_all(before, tenant, keep, commit),
                forall|j: int| 0 <= j < k ==> self.deep_view()[j] == target[j],
                forall|j: int| k <= j < before.len() ==> self.deep_view()[j] == before[j],
            decreases self.rows.len() - k,
        {
            let ghost current = self.deep_view();
            let row = &self.rows[k];
            if row.end_commit_num == MAX_COMMIT_NUM && row.service_id.same(service_id)
                && filter.test(&row.key, &row.payload) {
                let replacement = Row {
                    key: row.key.duplicate(),
                    service_id: row.service_id.duplicate(),
                    start_commit_num: row.start_commit_num,
                    end_commit_num: commit,
                    payload: row.payload.duplicate(),
                };
                self.rows.set(k, replacement);
                assert(self.deep_view()[k as int] == target[k as int]);
                assert forall|j: int| 0 <= j < before.len() && j != k implies self.deep_view()[j]
                    == current[j] by {}
            } else {
                assert(self.deep_view()[k as int] == target[k as int]);
            }
            k += 1;
        }
        proof {
            assert(self.deep_view() =~= target);
            lemma_closed_all_ordered(before, tenant, keep, commit);
        }
        Ok(())
    }

    /// Stores new current versions of `items` in `service_id`, valid from
    /// `commit` on: all of them or, where one cannot be stored, none.
    pub fn insert_all(&mut self, service_id: &Option<String>, commit: i64, items: Vec<(K, P)>) -> (result:
        Result<(), InvariantViolation>)
        requires
            old(self).well_formed(),
        ensures
            final(self).well_formed(),
            result is Ok <==> can_insert_all(
                old(self).deep_view(),
                keys_of(items.deep_view()),
                service_id.deep_view(),
                commit,
            ),
            result is Ok ==> final(self).deep_view() == appended(
                old(self).deep_view(),
                items.deep_view(),
                service_id.deep_view(),
                commit,
            ),
            result is Err ==> final(self).deep_view() == old(self).deep_view(),
    {
        if commit >= MAX_COMMIT_NUM {
            return Err(InvariantViolation);
        }
        let ghost before = self.deep_view();
        let ghost tenant = service_id.deep_view();
        let ghost keys = keys_of(items.deep_view());
        let mut i: usize = 0;
        while i < items.len()
            invariant
                *self == *old(self),
                self.well_formed(),
                before == self.deep_view(),
                tenant == service_id.deep_view(),
                keys == keys_of(items.deep_view()),
                keys.len() == items.len(),
                i <= items.len(),
                commit < MAX_COMMIT_NUM,
                forall|a: int| 0 <= a < i ==> can_insert(before, #[trigger] keys[a], tenant, commit),
                forall|a: int, b: int| 0 <= a < b < i ==> keys[a] != keys[b],
            decreases items.len() - i,
        {
            let key = &items[i].0;
            assert(key.deep_view() == keys[i as int]);
            let mut j: usize = 0;
            while j < self.rows.len()
                invariant
                    *self == *old(self),
                    self.well_formed(),
                    before == self.deep_view(),
                    tenant == service_id.deep_view(),
                    keys == keys_of(items.deep_view()),
                    keys.len() == items.len(),
                    i < items.len(),
                    key.deep_view() == keys[i as int],
                    j <= self.rows.len(),
                    forall|r: int|
                        0 <= r < j && in_scope(#[trigger] before[r], key.deep_view(), tenant)
                            ==> before[r].end_commit_num <= commit,
                decreases self.rows.len() - j,
            {
                let row = &self.rows[j];
                if row.key.same(key) && row.service_id.same(service_id) && row.end_commit_num
                    > commit {
                    assert(in_scope(before[j as int], keys[i as int], tenant));
                    return Err(InvariantViolation);
                }
                j += 1;
            }
            let mut b: usize = 0;
            while b < i
                invariant
                    *self == *old(self),
                    self.well_formed(),
                    keys == keys_of(items.deep_view()),
                    keys.len() == items.len(),
                    key.deep_view() == keys[i as int],
                    i < items.len(),
                    b <= i,
                    forall|a: int| 0 <= a < b ==> keys[a] != keys[i as int],
                decreases i - b,
            {
                if items[b].0.same(key) {
                    assert(keys[b as int] == keys[i as int]);
                    return Err(InvariantViolation);
                }
                b += 1;
            }
            i += 1;
        }
        let ghost all = items.deep_view();
        let mut items = items;
        let mut stored: Vec<Row<K, P>> = Vec::new();
        let mut n: usize = 0;
        while n < items.len()
            invariant
                tenant == service_id.deep_view(),
                all == items.deep_view(),
                n <= items.len(),
                stored.deep_view() == fresh_all(all, tenant, commit).take(n as int),
            decreases items.len() - n,
        {
            let ghost stored_before = stored.deep_view();
            let row = Row {
                key: items[n].0.duplicate(),
                service_id: service_id.duplicate(),
                start_commit_num: commit,
                end_commit_num: MAX_COMMIT_NUM,
                payload: items[n].1.duplicate(),
            };
            stored.push(row);
            assert(stored.deep_view() =~= stored_before.push(row.deep_view()));
            assert(stored.deep_view() =~= fresh_all(all, tenant, commit).take(n + 1));
            n += 1;
        }
        assert(stored.deep_view() =~= fresh_all(all, tenant, commit));
        self.rows.append(&mut stored);
        proof {
            assert(self.deep_view() =~= appended(before, all, tenant, commit));
            lemma_appended_ordered(before, all, tenant, commit);
        }
        Ok(())
    }

    /// Returns the table to what it was at `commit`: rows stored later are
    /// removed, rows closed later are current again.
    pub fn rollback_to(&mut self, commit: i64)
        requires
            old(self).well_formed(),
        ensures
            final(self).well_formed(),
            final(self).deep_view() == rolled_back(old(self).deep_view(), commit),
    {
        let ghost before = self.deep_view();
        let mut kept: Vec<Row<K, P>> = Vec::new();
        let mut i: usize = 0;
        proof {
            reveal(Seq::filter);
            assert(before.take(0) =~= Seq::<RowView<K::V, P::V>>::empty());
            assert(kept.deep_view() =~= rolled_back(before.take(0), commit));
        }
        while i < self.rows.len()
            invariant
                before == self.deep_view(),
                i <= self.rows.len(),
                kept.deep_view() == rolled_back(before.take(i as int), commit),
            decreases self.rows.len() - i,
        {
            let row = &self.rows[i];
            proof {
                lemma_rolled_back_push(before.take(i as int), before[i as int], commit);
                assert(before.take(i as int).push(before[i as int]) =~= before.take(i + 1));
            }
            if row.start_commit_num <= commit {
                let ghost kept_before = kept.deep_view();
                let end_commit_num = if row.end_commit_num > commit {
                    MAX_COMMIT_NUM
                } else {
                    row.end_commit_num
                };
                let copy = Row {
                    key: row.key.duplicate(),
                    service_id: row.service_id.duplicate(),
                    start_commit_num: row.start_commit_num,
                    end_commit_num,
                    payload: row.payload.duplicate(),
                };
                kept.push(copy);
                assert(kept.deep_view() =~= kept_before.push(reopened(before[i as int], commit)));
            }
            i += 1;
        }
        proof {
            assert(before.take(i as int) =~= before);
            lemma_rolled_back_ordered(before, commit);
        }
        self.rows = kept;
    }

    /// Removes every row.
    pub fn clear(&mut self)
        ensures
            final(self).deep_view() == Seq::<RowView<K::V, P::V>>::empty(),
            final(self).well_formed(),
    {
        self.rows = Vec::new();
        assert(self.deep_view() =~= Seq::<RowView<K::V, P::V>>::empty());
    }
}

impl<K: Key, P: Payload> Payload for VersionedTable<K, P> {
    fn duplicate(&self) -> (copy: Self) {
        VersionedTable { rows: self.rows.duplicate() }
    }
}

} // verus!
