//! Trees of properties and the rows that stand for them.
//!
//! A tree is stored as its rows in the order in which a walk from each node
//! to what is below it meets them, each row naming the node above it.  It is
//! read back by grouping the rows under the names of their parents.  Where
//! no two nodes of a tree have one name, the grouping gives the tree back.

use vstd::prelude::*;
use crate::property::PropertyRowView;

verus! {

/// A node of a tree of properties: its row and the nodes below it.
pub struct Node {
    pub row: PropertyRowView,
    pub below: Seq<Node>,
}

/// The name of a node.
pub open spec fn name_of(node: Node) -> Seq<char> {
    node.row.key.name
}

/// The rows of the first `upto` of `nodes`, each followed by the rows of the
/// nodes below it.
pub open spec fn rows_upto(nodes: Seq<Node>, upto: int) -> Seq<PropertyRowView>
    decreases nodes, upto,
{
    if upto <= 0 || upto > nodes.len() {
        Seq::empty()
    } else {
        rows_upto(nodes, upto - 1).push(nodes[upto - 1].row) + rows_upto(
            nodes[upto - 1].below,
            nodes[upto - 1].below.len() as int,
        )
    }
}

/// The rows of `nodes`.
pub open spec fn rows_of(nodes: Seq<Node>) -> Seq<PropertyRowView> {
    rows_upto(nodes, nodes.len() as int)
}

/// The row of each of the first `upto` of `nodes`, without what is below.
pub open spec fn tops_upto(nodes: Seq<Node>, upto: int) -> Seq<PropertyRowView>
    decreases upto,
{
    if upto <= 0 || upto > nodes.len() {
        Seq::empty()
    } else {
        tops_upto(nodes, upto - 1).push(nodes[upto - 1].row)
    }
}

/// The row of each of `nodes`.
pub open spec fn tops_of(nodes: Seq<Node>) -> Seq<PropertyRowView> {
    tops_upto(nodes, nodes.len() as int)
}

/// The first `upto` of `nodes` name `parent` as their parent, and the nodes
/// below each name it.
pub open spec fn linked_upto(nodes: Seq<Node>, parent: Option<Seq<char>>, upto: int) -> bool
    decreases nodes, upto,
{
    upto <= 0 || upto > nodes.len() || {
        &&& linked_upto(nodes, parent, upto - 1)
        &&& nodes[upto - 1].row.key.parent == parent
        &&& linked_upto(
            nodes[upto - 1].below,
            Some(name_of(nodes[upto - 1])),
            nodes[upto - 1].below.len() as int,
        )
    }
}

/// Every node names the node above it, and the topmost name `parent`.
pub open spec fn linked(nodes: Seq<Node>, parent: Option<Seq<char>>) -> bool {
    linked_upto(nodes, parent, nodes.len() as int)
}

/// One of the first `upto` of `nodes`, or a node below one, has the name.
pub open spec fn named_upto(nodes: Seq<Node>, upto: int, name: Seq<char>) -> bool
    decreases nodes, upto,
{
    0 < upto <= nodes.len() && {
        ||| named_upto(nodes, upto - 1, name)
        ||| name_of(nodes[upto - 1]) == name
        ||| named_upto(nodes[upto - 1].below, nodes[upto - 1].below.len() as int, name)
    }
}

/// No two nodes among the first `upto` of `nodes` and below them have one
/// name.
pub open spec fn unique_upto(nodes: Seq<Node>, upto: int) -> bool
    decreases nodes, upto,
{
    upto <= 0 || upto > nodes.len() || {
        let node = nodes[upto - 1];
        &&& unique_upto(nodes, upto - 1)
        &&& unique_upto(node.below, node.below.len() as int)
        &&& !named_upto(nodes, upto - 1, name_of(node))
        &&& !named_upto(node.below, node.below.len() as int, name_of(node))
        &&& forall|name: Seq<char>|
            #[trigger] named_upto(node.below, node.below.len() as int, name) ==> !named_upto(
                nodes,
                upto - 1,
                name,
            )
    }
}

/// No two nodes of the trees have one name.
pub open spec fn unique(nodes: Seq<Node>) -> bool {
    unique_upto(nodes, nodes.len() as int)
}

/// The nodes directly below the nodes called `name` among the first `upto`
/// of `nodes` and below them.
pub open spec fn kids_upto(nodes: Seq<Node>, upto: int, name: Seq<char>) -> Seq<Node>
    decreases nodes, upto,
{
    if upto <= 0 || upto > nodes.len() {
        Seq::empty()
    } else {
        let node = nodes[upto - 1];
        kids_upto(nodes, upto - 1, name) + if name_of(node) == name {
            node.below
        } else {
            kids_upto(node.below, node.below.len() as int, name)
        }
    }
}

/// The rows that name `parent` as their parent, in their order.
pub open spec fn with_parent(rows: Seq<PropertyRowView>, parent: Option<Seq<char>>) -> Seq<
    PropertyRowView,
> {
    rows.filter(|row: PropertyRowView| row.key.parent == parent)
}

/// The trees that the first `upto` of `rows` make below `parent`: a row
/// belongs there if it names `parent`, and below it is what the rows that
/// name it make in turn.  `depth` bounds how far down the rows are followed.
pub open spec fn grouped_upto(
    rows: Seq<PropertyRowView>,
    parent: Option<Seq<char>>,
    depth: nat,
    upto: int,
) -> Seq<Node>
    decreases depth, 1int, upto,
{
    if upto <= 0 || upto > rows.len() {
        Seq::empty()
    } else {
        let before = grouped_upto(rows, parent, depth, upto - 1);
        let row = rows[upto - 1];
        if row.key.parent == parent {
            before.push(Node { row, below: below_of(rows, row, depth) })
        } else {
            before
        }
    }
}

/// What the rows make below `row`.
pub open spec fn below_of(rows: Seq<PropertyRowView>, row: PropertyRowView, depth: nat) -> Seq<Node>
    decreases depth, 0int, 0int,
{
    if depth == 0 {
        Seq::empty()
    } else {
        grouped_upto(rows, Some(row.key.name), (depth - 1) as nat, rows.len() as int)
    }
}

/// The trees that `rows` make: the rows without a parent, each with what is
/// below it.
pub open spec fn grouped(rows: Seq<PropertyRowView>) -> Seq<Node> {
    grouped_upto(rows, None, rows.len(), rows.len() as int)
}

/// How the rows with one parent grow with the rows.
pub proof fn lemma_with_parent_push(
    rows: Seq<PropertyRowView>,
    row: PropertyRowView,
    parent: Option<Seq<char>>,
)
    ensures
        with_parent(rows.push(row), parent) == if row.key.parent == parent {
            with_parent(rows, parent).push(row)
        } else {
            with_parent(rows, parent)
        },
{
    reveal(Seq::filter);
    assert(rows.push(row).drop_last() =~= rows);
}

/// The rows with one parent among two runs of rows.
pub proof fn lemma_with_parent_add(
    first: Seq<PropertyRowView>,
    second: Seq<PropertyRowView>,
    parent: Option<Seq<char>>,
)
    ensures
        with_parent(first + second, parent) == with_parent(first, parent) + with_parent(
            second,
            parent,
        ),
{
    Seq::filter_distributes_over_add(
        first,
        second,
        |row: PropertyRowView| row.key.parent == parent,
    );
}

/// The node that the rows make of `row`.
pub open spec fn node_at(rows: Seq<PropertyRowView>, depth: nat) -> spec_fn(PropertyRowView) -> Node {
    |row: PropertyRowView| Node { row, below: below_of(rows, row, depth) }
}

/// Grouping takes the rows that name the parent, in their order, and makes
/// a node of each.
pub proof fn lemma_grouped_by_parent(
    rows: Seq<PropertyRowView>,
    parent: Option<Seq<char>>,
    depth: nat,
    upto: int,
)
    requires
        0 <= upto <= rows.len(),
    ensures
        grouped_upto(rows, parent, depth, upto) == with_parent(rows.take(upto), parent).map_values(
            node_at(rows, depth),
        ),
    decreases upto,
{
    if upto == 0 {
        reveal(Seq::filter);
        assert(rows.take(0) =~= Seq::<PropertyRowView>::empty());
        assert(grouped_upto(rows, parent, depth, upto) =~= with_parent(
            rows.take(upto),
            parent,
        ).map_values(node_at(rows, depth)));
    } else {
        lemma_grouped_by_parent(rows, parent, depth, upto - 1);
        let row = rows[upto - 1];
        assert(rows.take(upto - 1).push(row) =~= rows.take(upto));
        lemma_with_parent_push(rows.take(upto - 1), row, parent);
        let before = with_parent(rows.take(upto - 1), parent);
        if row.key.parent == parent {
            assert(before.push(row).map_values(node_at(rows, depth)) =~= before.map_values(
                node_at(rows, depth),
            ).push(node_at(rows, depth)(row)));
        }
    }
}

/// The rows of a run of trees with a parent whose name no node of them has
/// are the topmost rows, where the trees hang below that parent, and none
/// otherwise.
pub proof fn lemma_rows_outside(
    nodes: Seq<Node>,
    above: Option<Seq<char>>,
    upto: int,
    parent: Option<Seq<char>>,
)
    requires
        0 <= upto <= nodes.len(),
        linked_upto(nodes, above, upto),
        parent matches Some(name) ==> !named_upto(nodes, upto, name),
    ensures
        with_parent(rows_upto(nodes, upto), parent) == if above == parent {
            tops_upto(nodes, upto)
        } else {
            Seq::empty()
        },
    decreases nodes, upto,
{
    if upto == 0 {
        reveal(Seq::filter);
    } else {
        let node = nodes[upto - 1];
        let before = rows_upto(nodes, upto - 1);
        let under = rows_upto(node.below, node.below.len() as int);
        lemma_rows_outside(nodes, above, upto - 1, parent);
        lemma_rows_outside(node.below, Some(name_of(node)), node.below.len() as int, parent);
        lemma_with_parent_add(before.push(node.row), under, parent);
        lemma_with_parent_push(before, node.row, parent);
        assert(with_parent(under, parent) == Seq::<PropertyRowView>::empty());
        assert(with_parent(before.push(node.row), parent) + Seq::<PropertyRowView>::empty()
            =~= with_parent(before.push(node.row), parent));
    }
}

/// Where no node has the name, no node is below a node of that name.
pub proof fn lemma_no_kids(nodes: Seq<Node>, upto: int, name: Seq<char>)
    requires
        0 <= upto <= nodes.len(),
        !named_upto(nodes, upto, name),
    ensures
        kids_upto(nodes, upto, name) == Seq::<Node>::empty(),
    decreases nodes, upto,
{
    if upto > 0 {
        let node = nodes[upto - 1];
        lemma_no_kids(nodes, upto - 1, name);
        lemma_no_kids(node.below, node.below.len() as int, name);
        assert(Seq::<Node>::empty() + Seq::<Node>::empty() =~= Seq::<Node>::empty());
    }
}

/// The topmost rows of two runs of nodes.
pub proof fn lemma_tops_add(first: Seq<Node>, second: Seq<Node>)
    ensures
        tops_of(first + second) == tops_of(first) + tops_of(second),
    decreases second.len(),
{
    if second.len() == 0 {
        assert(first + second =~= first);
        assert(tops_of(first) + tops_of(second) =~= tops_of(first));
    } else {
        let whole = first + second;
        lemma_tops_add(first, second.drop_last());
        assert(whole.drop_last() =~= first + second.drop_last());
        lemma_tops_upto_prefix(whole, whole.len() - 1);
        lemma_tops_upto_prefix(second, second.len() - 1);
        assert(tops_of(whole) =~= tops_of(first) + tops_of(second));
    }
}

/// The topmost rows of the first nodes are the topmost rows of the nodes
/// without the rest.
pub proof fn lemma_tops_upto_prefix(nodes: Seq<Node>, upto: int)
    requires
        0 <= upto <= nodes.len(),
    ensures
        tops_upto(nodes, upto) == tops_of(nodes.take(upto)),
        tops_upto(nodes, upto).len() == upto,
        forall|i: int| 0 <= i < upto ==> tops_upto(nodes, upto)[i] == nodes[i].row,
    decreases upto,
{
    if upto > 0 {
        lemma_tops_upto_prefix(nodes, upto - 1);
        lemma_tops_upto_prefix(nodes.take(upto), upto - 1);
        assert(nodes.take(upto).take(upto - 1) =~= nodes.take(upto - 1));
    }
}

/// The rows that name `name` as their parent are the topmost rows of what
/// is below the nodes of that name, where the trees themselves hang
/// elsewhere.
pub proof fn lemma_rows_inside(
    nodes: Seq<Node>,
    above: Option<Seq<char>>,
    upto: int,
    name: Seq<char>,
)
    requires
        0 <= upto <= nodes.len(),
        linked_upto(nodes, above, upto),
        unique_upto(nodes, upto),
        above != Some(name),
    ensures
        with_parent(rows_upto(nodes, upto), Some(name)) == tops_of(kids_upto(nodes, upto, name)),
    decreases nodes, upto,
{
    if upto == 0 {
        reveal(Seq::filter);
    } else {
        let node = nodes[upto - 1];
        let before = rows_upto(nodes, upto - 1);
        let under = rows_upto(node.below, node.below.len() as int);
        lemma_rows_inside(nodes, above, upto - 1, name);
        lemma_with_parent_add(before.push(node.row), under, Some(name));
        lemma_with_parent_push(before, node.row, Some(name));
        if name_of(node) == name {
            lemma_rows_outside(
                node.below,
                Some(name_of(node)),
                node.below.len() as int,
                Some(name),
            );
            lemma_tops_add(kids_upto(nodes, upto - 1, name), node.below);
        } else {
            lemma_rows_inside(node.below, Some(name_of(node)), node.below.len() as int, name);
            lemma_tops_add(
                kids_upto(nodes, upto - 1, name),
                kids_upto(node.below, node.below.len() as int, name),
            );
        }
    }
}

/// For every node among the first `upto` of `nodes` and below them, what is
/// below the nodes of its name in `whole` is what is below it.
pub open spec fn settled_upto(nodes: Seq<Node>, upto: int, whole: Seq<Node>, within: int) -> bool
    decreases nodes, upto,
{
    upto <= 0 || upto > nodes.len() || {
        let node = nodes[upto - 1];
        &&& settled_upto(nodes, upto - 1, whole, within)
        &&& kids_upto(whole, within, name_of(node)) == node.below
        &&& settled_upto(node.below, node.below.len() as int, whole, within)
    }
}

/// What is settled in one run of trees is settled in another that has the
/// same nodes below every name of the first.
pub proof fn lemma_settled_elsewhere(
    nodes: Seq<Node>,
    upto: int,
    whole: Seq<Node>,
    within: int,
    other: Seq<Node>,
    inside: int,
)
    requires
        0 <= upto <= nodes.len(),
        settled_upto(nodes, upto, whole, within),
        forall|name: Seq<char>|
            #[trigger] named_upto(nodes, upto, name) ==> kids_upto(other, inside, name)
                == kids_upto(whole, within, name),
    ensures
        settled_upto(nodes, upto, other, inside),
    decreases nodes, upto,
{
    if upto > 0 {
        let node = nodes[upto - 1];
        assert(named_upto(nodes, upto, name_of(node)));
        assert forall|name: Seq<char>| #[trigger] named_upto(nodes, upto - 1, name) implies kids_upto(
            other,
            inside,
            name,
        ) == kids_upto(whole, within, name) by {
            assert(named_upto(nodes, upto, name));
        }
        assert forall|name: Seq<char>| #[trigger]
            named_upto(node.below, node.below.len() as int, name) implies kids_upto(
            other,
            inside,
            name,
        ) == kids_upto(whole, within, name) by {
            assert(named_upto(nodes, upto, name));
        }
        lemma_settled_elsewhere(nodes, upto - 1, whole, within, other, inside);
        lemma_settled_elsewhere(
            node.below,
            node.below.len() as int,
            whole,
            within,
            other,
            inside,
        );
    }
}

/// Where no two nodes have one name, what is below the nodes of the name of
/// a node is what is below that node.
pub proof fn lemma_settled(nodes: Seq<Node>, upto: int)
    requires
        0 <= upto <= nodes.len(),
        unique_upto(nodes, upto),
    ensures
        settled_upto(nodes, upto, nodes, upto),
    decreases nodes, upto,
{
    if upto > 0 {
        let node = nodes[upto - 1];
        let under = node.below.len() as int;
        lemma_settled(nodes, upto - 1);
        lemma_settled(node.below, under);
        // The nodes before this one keep what is below them.
        assert forall|name: Seq<char>| #[trigger] named_upto(nodes, upto - 1, name) implies kids_upto(
            nodes,
            upto,
            name,
        ) == kids_upto(nodes, upto - 1, name) by {
            if named_upto(node.below, under, name) {
                assert(!named_upto(nodes, upto - 1, name));
            }
            lemma_no_kids(node.below, under, name);
            assert(kids_upto(nodes, upto - 1, name) + Seq::<Node>::empty() =~= kids_upto(
                nodes,
                upto - 1,
                name,
            ));
        }
        lemma_settled_elsewhere(nodes, upto - 1, nodes, upto - 1, nodes, upto);
        // This node has below it what is below its name.
        lemma_no_kids(nodes, upto - 1, name_of(node));
        assert(Seq::<Node>::empty() + node.below =~= node.below);
        // The nodes below this one keep what is below them.
        assert forall|name: Seq<char>| #[trigger] named_upto(node.below, under, name) implies kids_upto(
            nodes,
            upto,
            name,
        ) == kids_upto(node.below, under, name) by {
            assert(!named_upto(nodes, upto - 1, name));
            lemma_no_kids(nodes, upto - 1, name);
            assert(Seq::<Node>::empty() + kids_upto(node.below, under, name) =~= kids_upto(
                node.below,
                under,
                name,
            ));
        }
        lemma_settled_elsewhere(node.below, under, node.below, under, nodes, upto);
    }
}

/// What is settled for a run of nodes is settled for each of them.
pub proof fn lemma_settled_at(nodes: Seq<Node>, upto: int, whole: Seq<Node>, within: int, at: int)
    requires
        0 <= at < upto <= nodes.len(),
        settled_upto(nodes, upto, whole, within),
    ensures
        kids_upto(whole, within, name_of(nodes[at])) == nodes[at].below,
        settled_upto(nodes[at].below, nodes[at].below.len() as int, whole, within),
    decreases upto,
{
    if at < upto - 1 {
        lemma_settled_at(nodes, upto - 1, whole, within, at);
    }
}

/// A run of trees has at least as many rows as one of its trees, and one
/// more than what is below that tree.
pub proof fn lemma_rows_count(nodes: Seq<Node>, upto: int, at: int)
    requires
        0 <= at < upto <= nodes.len(),
    ensures
        rows_upto(nodes, upto).len() >= 1 + rows_of(nodes[at].below).len(),
    decreases upto,
{
    if at < upto - 1 {
        lemma_rows_count(nodes, upto - 1, at);
    }
}

/// Grouping the rows of a whole run of trees below the name of one of its
/// nodes gives what is below that node.
pub proof fn lemma_grouped_below(
    whole: Seq<Node>,
    nodes: Seq<Node>,
    parent: Option<Seq<char>>,
    depth: nat,
)
    requires
        linked(whole, None),
        unique(whole),
        settled_upto(nodes, nodes.len() as int, whole, whole.len() as int),
        with_parent(rows_of(whole), parent) == tops_of(nodes),
        depth >= rows_of(nodes).len(),
    ensures
        grouped_upto(rows_of(whole), parent, depth, rows_of(whole).len() as int) == nodes,
    decreases depth,
{
    let rows = rows_of(whole);
    let made = grouped_upto(rows, parent, depth, rows.len() as int);
    lemma_grouped_by_parent(rows, parent, depth, rows.len() as int);
    assert(rows.take(rows.len() as int) =~= rows);
    lemma_tops_upto_prefix(nodes, nodes.len() as int);
    assert(made.len() == nodes.len());
    assert forall|i: int| 0 <= i < nodes.len() implies made[i] == nodes[i] by {
        let node = nodes[i];
        lemma_rows_count(nodes, nodes.len() as int, i);
        lemma_settled_at(nodes, nodes.len() as int, whole, whole.len() as int, i);
        lemma_rows_inside(whole, None, whole.len() as int, name_of(node));
        assert(made[i].row == node.row);
        assert(made[i].below == below_of(rows, node.row, depth));
        lemma_grouped_below(whole, node.below, Some(name_of(node)), (depth - 1) as nat);
    }
    assert(made =~= nodes);
}

/// Grouping gives the trees back: where every node names the node above it
/// and no two nodes have one name, the rows of the trees, grouped, are the
/// trees.
pub proof fn law_grouped_rows(nodes: Seq<Node>)
    requires
        linked(nodes, None),
        unique(nodes),
    ensures
        grouped(rows_of(nodes)) == nodes,
{
    lemma_settled(nodes, nodes.len() as int);
    lemma_rows_outside(nodes, None, nodes.len() as int, None);
    lemma_grouped_below(nodes, nodes, None, rows_of(nodes).len());
}

/// The change leaves every row with its parent and its name.
pub open spec fn keeps_place(change: spec_fn(PropertyRowView) -> PropertyRowView) -> bool {
    forall|row: PropertyRowView|
        (#[trigger] change(row)).key.parent == row.key.parent && change(row).key.name
            == row.key.name
}

/// The node with the change made to its row and to every row below it.
pub open spec fn changed(node: Node, change: spec_fn(PropertyRowView) -> PropertyRowView) -> Node
    decreases node,
{
    Node {
        row: change(node.row),
        below: Seq::new(
            node.below.len(),
            |i: int|
                if 0 <= i < node.below.len() {
                    changed(node.below[i], change)
                } else {
                    arbitrary()
                },
        ),
    }
}

/// The nodes with the change made to every row.
pub open spec fn changed_all(
    nodes: Seq<Node>,
    change: spec_fn(PropertyRowView) -> PropertyRowView,
) -> Seq<Node> {
    Seq::new(nodes.len(), |i: int| changed(nodes[i], change))
}

/// What is below a changed node is what was below it, changed.
pub proof fn lemma_changed_below(node: Node, change: spec_fn(PropertyRowView) -> PropertyRowView)
    ensures
        changed(node, change).below == changed_all(node.below, change),
        changed(node, change).row == change(node.row),
{
    assert(changed(node, change).below =~= changed_all(node.below, change));
}

/// The rows of changed trees are the rows of the trees, changed.
pub proof fn lemma_changed_rows(
    nodes: Seq<Node>,
    upto: int,
    change: spec_fn(PropertyRowView) -> PropertyRowView,
)
    requires
        0 <= upto <= nodes.len(),
    ensures
        rows_upto(changed_all(nodes, change), upto) == rows_upto(nodes, upto).map_values(change),
    decreases nodes, upto,
{
    if upto == 0 {
        assert(rows_upto(changed_all(nodes, change), upto) =~= rows_upto(nodes, upto).map_values(
            change,
        ));
    } else {
        let node = nodes[upto - 1];
        lemma_changed_rows(nodes, upto - 1, change);
        lemma_changed_rows(node.below, node.below.len() as int, change);
        lemma_changed_below(node, change);
        assert(rows_upto(changed_all(nodes, change), upto) =~= rows_upto(nodes, upto).map_values(
            change,
        ));
    }
}

/// A change that keeps every row in its place keeps the trees linked.
pub proof fn lemma_changed_linked(
    nodes: Seq<Node>,
    parent: Option<Seq<char>>,
    upto: int,
    change: spec_fn(PropertyRowView) -> PropertyRowView,
)
    requires
        0 <= upto <= nodes.len(),
        keeps_place(change),
        linked_upto(nodes, parent, upto),
    ensures
        linked_upto(changed_all(nodes, change), parent, upto),
    decreases nodes, upto,
{
    if upto > 0 {
        let node = nodes[upto - 1];
        lemma_changed_linked(nodes, parent, upto - 1, change);
        lemma_changed_linked(
            node.below,
            Some(name_of(node)),
            node.below.len() as int,
            change,
        );
        lemma_changed_below(node, change);
    }
}

/// A change that keeps every row in its place keeps the names of the nodes.
pub proof fn lemma_changed_named(
    nodes: Seq<Node>,
    upto: int,
    change: spec_fn(PropertyRowView) -> PropertyRowView,
    name: Seq<char>,
)
    requires
        0 <= upto <= nodes.len(),
        keeps_place(change),
    ensures
        named_upto(changed_all(nodes, change), upto, name) == named_upto(nodes, upto, name),
    decreases nodes, upto,
{
    if upto > 0 {
        let node = nodes[upto - 1];
        lemma_changed_named(nodes, upto - 1, change, name);
        lemma_changed_named(node.below, node.below.len() as int, change, name);
        lemma_changed_below(node, change);
    }
}

/// A change that keeps every row in its place keeps the names distinct.
pub proof fn lemma_changed_unique(
    nodes: Seq<Node>,
    upto: int,
    change: spec_fn(PropertyRowView) -> PropertyRowView,
)
    requires
        0 <= upto <= nodes.len(),
        keeps_place(change),
        unique_upto(nodes, upto),
    ensures
        unique_upto(changed_all(nodes, change), upto),
    decreases nodes, upto,
{
    if upto > 0 {
        let node = nodes[upto - 1];
        let under = node.below.len() as int;
        lemma_changed_unique(nodes, upto - 1, change);
        lemma_changed_unique(node.below, under, change);
        lemma_changed_below(node, change);
        lemma_changed_named(nodes, upto - 1, change, name_of(node));
        lemma_changed_named(node.below, under, change, name_of(node));
        assert forall|name: Seq<char>| #[trigger]
            named_upto(changed_all(node.below, change), under, name) implies !named_upto(
            changed_all(nodes, change),
            upto - 1,
            name,
        ) by {
            lemma_changed_named(node.below, under, change, name);
            lemma_changed_named(nodes, upto - 1, change, name);
            assert(named_upto(node.below, under, name));
        }
    }
}

/// Grouping gives changed trees back: where every node names the node above
/// it and no two nodes have one name, the rows of the trees, changed in a
/// way that keeps every row in its place, make the trees, changed.
pub proof fn law_grouped_changed_rows(
    nodes: Seq<Node>,
    change: spec_fn(PropertyRowView) -> PropertyRowView,
)
    requires
        linked(nodes, None),
        unique(nodes),
        keeps_place(change),
    ensures
        grouped(rows_of(nodes).map_values(change)) == changed_all(nodes, change),
{
    lemma_changed_rows(nodes, nodes.len() as int, change);
    lemma_changed_linked(nodes, None, nodes.len() as int, change);
    lemma_changed_unique(nodes, nodes.len() as int, change);
    law_grouped_rows(changed_all(nodes, change));
}

} // verus!
