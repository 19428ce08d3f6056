//! Collecting every use of a declaration in a tree.

use vstd::prelude::*;
use crate::location::{positions, Position, SourceLocation};
use crate::tree::{
    lemma_view, outward_edge, preorder, preorder_all, stands_at, Node, TreeNode,
};

verus! {

/// Whether `node` is a use of the declaration at `target`: it refers to another node, and
/// that node stands at `target`.
pub open spec fn is_use_of(node: Node, target: Position) -> bool {
    outward_edge(node) == Some(target)
}

/// The places of the uses of the declaration at `target` in `node` and below it, in
/// document order. A use is a leaf of the search: nothing below it is looked at. A use
/// without a place in a file is passed over.
pub open spec fn references(node: Node, target: Position) -> Seq<Position>
    decreases node, 1nat,
{
    if is_use_of(node, target) {
        match node.location {
            Some(place) => seq![place],
            None => Seq::empty(),
        }
    } else {
        references_all(node.children, target)
    }
}

/// The places of the uses of the declaration at `target` in a row of trees, from left to
/// right.
pub open spec fn references_all(nodes: Seq<Node>, target: Position) -> Seq<Position>
    decreases nodes, 0nat,
{
    if nodes.len() == 0 {
        Seq::empty()
    } else {
        references_all(nodes.drop_last(), target) + references(nodes.last(), target)
    }
}

/// Every place that the search gives is the place of a use: a node of the tree that refers
/// to another node, one that stands at `target`.
pub proof fn lemma_references_are_uses(tree: Node, target: Position)
    ensures
        forall|place: Position|
            (#[trigger] references(tree, target).contains(place)) ==> exists|i: int|
                0 <= i < preorder(tree).len() && is_use_of(#[trigger] preorder(tree)[i], target)
                    && preorder(tree)[i].location == Some(place),
    decreases tree, 1nat,
{
    let nodes = preorder(tree);
    assert(nodes[0] == tree);
    if !is_use_of(tree, target) {
        lemma_references_all_are_uses(tree.children, target);
        let below = preorder_all(tree.children);
        assert forall|place: Position|
            (#[trigger] references(tree, target).contains(place)) implies exists|i: int|
            0 <= i < nodes.len() && is_use_of(#[trigger] nodes[i], target) && nodes[i].location
                == Some(place) by {
            assert(references_all(tree.children, target).contains(place));
            let k = choose|k: int|
                0 <= k < below.len() && is_use_of(#[trigger] below[k], target) && below[k].location
                    == Some(place);
            assert(nodes[k + 1] == below[k]);
        }
    }
}

/// Every place that the search gives in a row of trees is the place of a use in one of
/// them.
pub proof fn lemma_references_all_are_uses(trees: Seq<Node>, target: Position)
    ensures
        forall|place: Position|
            (#[trigger] references_all(trees, target).contains(place)) ==> exists|i: int|
                0 <= i < preorder_all(trees).len() && is_use_of(
                    #[trigger] preorder_all(trees)[i],
                    target,
                ) && preorder_all(trees)[i].location == Some(place),
    decreases trees, 0nat,
{
    if trees.len() > 0 {
        let nodes = preorder_all(trees);
        let front = preorder_all(trees.drop_last());
        let back = preorder(trees.last());
        lemma_references_all_are_uses(trees.drop_last(), target);
        lemma_references_are_uses(trees.last(), target);
        let found_front = references_all(trees.drop_last(), target);
        let found_back = references(trees.last(), target);
        assert forall|place: Position|
            (#[trigger] references_all(trees, target).contains(place)) implies exists|i: int|
            0 <= i < nodes.len() && is_use_of(#[trigger] nodes[i], target) && nodes[i].location
                == Some(place) by {
            let at = choose|at: int|
                0 <= at < (found_front + found_back).len() && (found_front + found_back)[at]
                    == place;
            if at < found_front.len() {
                assert(found_front[at] == place);
                assert(found_front.contains(place));
                let k = choose|k: int|
                    0 <= k < front.len() && is_use_of(#[trigger] front[k], target)
                        && front[k].location == Some(place);
                assert(nodes[k] == front[k]);
            } else {
                assert(found_back[at - found_front.len()] == place);
                assert(found_back.contains(place));
                let k = choose|k: int|
                    0 <= k < back.len() && is_use_of(#[trigger] back[k], target)
                        && back[k].location == Some(place);
                assert(nodes[front.len() + k] == back[k]);
            }
        }
    }
}

/// The declaration is never among its own uses. When no node of `tree` that stands at
/// `target` refers to another node at `target`, the search for the uses of `target` does not
/// give `target`; the node that declares it, which refers to itself, is passed over.
pub proof fn lemma_declaration_excluded(tree: Node, target: Position)
    requires
        forall|i: int|
            0 <= i < preorder(tree).len() && stands_at(#[trigger] preorder(tree)[i], target)
                ==> !is_use_of(preorder(tree)[i], target),
    ensures
        !references(tree, target).contains(target),
{
    lemma_references_are_uses(tree, target);
}

/// A node that refers to itself is no use of anything: a tree that is one such node has no
/// uses, wherever the node stands.
pub proof fn lemma_self_reference_is_no_use(node: Node, target: Position)
    requires
        node.reference is Some ==> node.reference.unwrap().to_self,
        node.children.len() == 0,
    ensures
        references(node, target) == Seq::<Position>::empty(),
{
}

/// The places of the nodes of a row that are uses of the declaration at `target`, in the
/// order of the row.
pub open spec fn uses_in(nodes: Seq<Node>, target: Position) -> Seq<Position>
    decreases nodes.len(),
{
    if nodes.len() == 0 {
        Seq::empty()
    } else {
        place_of_use(nodes[0], target) + uses_in(nodes.drop_first(), target)
    }
}

/// The place of `node` if it is a use of the declaration at `target` and has one; nothing
/// otherwise.
pub open spec fn place_of_use(node: Node, target: Position) -> Seq<Position> {
    if is_use_of(node, target) {
        match node.location {
            Some(place) => seq![place],
            None => Seq::empty(),
        }
    } else {
        Seq::empty()
    }
}

/// Whether every use of the declaration at `target` in a row of nodes has nothing below
/// it.
pub open spec fn uses_are_leaves(nodes: Seq<Node>, target: Position) -> bool {
    forall|i: int|
        0 <= i < nodes.len() && is_use_of(#[trigger] nodes[i], target) ==> nodes[i].children.len()
            == 0
}

/// The uses in two rows of nodes, one after the other, are the uses in the joined row.
pub proof fn lemma_uses_in_concat(left: Seq<Node>, right: Seq<Node>, target: Position)
    ensures
        uses_in(left + right, target) == uses_in(left, target) + uses_in(right, target),
    decreases left.len(),
{
    if left.len() == 0 {
        assert(left + right =~= right);
        assert(uses_in(left, target) + uses_in(right, target) =~= uses_in(right, target));
    } else {
        assert((left + right)[0] == left[0]);
        assert((left + right).drop_first() =~= left.drop_first() + right);
        lemma_uses_in_concat(left.drop_first(), right, target);
        assert(uses_in(left + right, target) =~= uses_in(left, target) + uses_in(right, target));
    }
}

/// The search is complete and keeps the order of the document: in a tree where no use of
/// the declaration has anything below it, the search gives the place of every use, one for
/// each and in document order.
pub proof fn lemma_references_complete(tree: Node, target: Position)
    requires
        uses_are_leaves(preorder(tree), target),
    ensures
        references(tree, target) == uses_in(preorder(tree), target),
    decreases tree, 1nat,
{
    let below = preorder_all(tree.children);
    let nodes = preorder(tree);
    assert(nodes[0] == tree);
    lemma_uses_in_concat(seq![tree], below, target);
    assert(seq![tree].drop_first() =~= Seq::<Node>::empty());
    assert(uses_in(Seq::<Node>::empty(), target) =~= Seq::<Position>::empty());
    assert(uses_in(seq![tree], target) =~= place_of_use(tree, target));
    if is_use_of(tree, target) {
        assert(tree.children.len() == 0);
        assert(uses_in(below, target) =~= Seq::<Position>::empty());
        assert(references(tree, target) =~= uses_in(nodes, target));
    } else {
        assert forall|i: int| 0 <= i < below.len() && is_use_of(
            #[trigger] below[i],
            target,
        ) implies below[i].children.len() == 0 by {
            assert(nodes[i + 1] == below[i]);
        }
        lemma_references_all_complete(tree.children, target);
        assert(references(tree, target) =~= uses_in(nodes, target));
    }
}

/// The search of a row of trees is complete and keeps the order of the document.
pub proof fn lemma_references_all_complete(trees: Seq<Node>, target: Position)
    requires
        uses_are_leaves(preorder_all(trees), target),
    ensures
        references_all(trees, target) == uses_in(preorder_all(trees), target),
    decreases trees, 0nat,
{
    if trees.len() > 0 {
        let nodes = preorder_all(trees);
        let front = preorder_all(trees.drop_last());
        let back = preorder(trees.last());
        assert forall|i: int| 0 <= i < front.len() && is_use_of(
            #[trigger] front[i],
            target,
        ) implies front[i].children.len() == 0 by {
            assert(nodes[i] == front[i]);
        }
        assert forall|i: int| 0 <= i < back.len() && is_use_of(
            #[trigger] back[i],
            target,
        ) implies back[i].children.len() == 0 by {
            assert(nodes[front.len() + i] == back[i]);
        }
        lemma_references_all_complete(trees.drop_last(), target);
        lemma_references_complete(trees.last(), target);
        lemma_uses_in_concat(front, back, target);
    }
}

/// Appends to `results` the places of the uses of the declaration at `target` in `entity`
/// and below it.
pub fn collect_references(
    entity: &TreeNode,
    target: &SourceLocation,
    results: &mut Vec<SourceLocation>,
)
    ensures
        positions(final(results)@) == positions(old(results)@) + references(entity@, target@),
    decreases entity,
{
    proof {
        lemma_view(entity);
    }
    let refers = match &entity.reference {
        Some(reference) => !reference.to_self && match &reference.location {
            Some(declaration) => *declaration == *target,
            None => false,
        },
        None => false,
    };
    if refers {
        match &entity.location {
            Some(place) => {
                results.push(place.clone());
                assert(positions(results@) =~= positions(old(results)@) + seq![place@]);
            },
            None => {
                assert(positions(results@) =~= positions(old(results)@) + Seq::empty());
            },
        }
        return ;
    }
    let mut i: usize = 0;
    assert(positions(results@) =~= positions(old(results)@) + references_all(
        entity@.children.take(0),
        target@,
    ));
    while i < entity.children.len()
        invariant
            0 <= i <= entity.children.len(),
            entity@.children.len() == entity.children.len(),
            positions(results@) == positions(old(results)@) + references_all(
                entity@.children.take(i as int),
                target@,
            ),
        decreases entity.children.len() - i,
    {
        let ghost before = positions(results@);
        collect_references(&entity.children[i], target, results);
        proof {
            let kids = entity@.children;
            lemma_view(entity);
            assert(kids.take(i + 1).drop_last() =~= kids.take(i as int));
            assert(kids.take(i + 1).last() == kids[i as int]);
            assert(positions(results@) =~= positions(old(results)@) + references_all(
                kids.take(i + 1),
                target@,
            ));
        }
        i += 1;
    }
    proof {
        assert(entity@.children.take(i as int) =~= entity@.children);
    }
}

/// The places of the uses of the declaration at `target` in `entity` and below it, in
/// document order.
pub fn visitor_children_for_variables(entity: &TreeNode, target: &SourceLocation) -> (results: Vec<
    SourceLocation,
>)
    ensures
        positions(results@) == references(entity@, target@),
{
    let mut results: Vec<SourceLocation> = Vec::new();
    collect_references(entity, target, &mut results);
    assert(positions(Seq::<SourceLocation>::empty()) =~= Seq::<Position>::empty());
    results
}

} // verus!
