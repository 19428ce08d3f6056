//! Resolving a location to the declaration that the identifier there refers to.

use vstd::prelude::*;
use crate::error::CianaError;
use crate::location::{position_of, Position, SourceLocation};
use crate::tree::{
    get_reference_location_from_entity, is_same_target, lemma_preorder_all_concat,
    lemma_preorder_all_step, lemma_view, outward_edge, preorder, preorder_all, stands_at, Node,
    TreeNode,
};

verus! {

/// Whether `node` settles a resolution of `target`: it stands there and refers to a node
/// other than itself that has a place in a file.
pub open spec fn resolves_at(node: Node, target: Position) -> bool {
    stands_at(node, target) && outward_edge(node) is Some
}

/// What the first node of `nodes` that settles a resolution of `target` refers to.
pub open spec fn first_resolution(nodes: Seq<Node>, target: Position) -> Option<Position>
    decreases nodes.len(),
{
    if nodes.len() == 0 {
        None
    } else if resolves_at(nodes[0], target) {
        outward_edge(nodes[0])
    } else {
        first_resolution(nodes.drop_first(), target)
    }
}

/// The declaration that the identifier at `target` refers to: the one that the first node
/// in document order that settles the resolution refers to.
pub open spec fn resolve(tree: Node, target: Position) -> Option<Position> {
    first_resolution(preorder(tree), target)
}

/// Over two rows of nodes, one after the other, the first row decides if it can.
pub proof fn lemma_first_resolution_concat(left: Seq<Node>, right: Seq<Node>, target: Position)
    ensures
        first_resolution(left + right, target) == match first_resolution(left, target) {
            Some(found) => Some(found),
            None => first_resolution(right, target),
        },
    decreases left.len(),
{
    if left.len() == 0 {
        assert(left + right =~= right);
    } else {
        assert((left + right)[0] == left[0]);
        assert((left + right).drop_first() =~= left.drop_first() + right);
        lemma_first_resolution_concat(left.drop_first(), right, target);
    }
}

/// The node that decides a resolution: in a row of nodes where something settles the
/// resolution of `target`, the index of the first node that does.
pub proof fn lemma_first_resolution_witness(nodes: Seq<Node>, target: Position) -> (index: int)
    requires
        first_resolution(nodes, target) is Some,
    ensures
        0 <= index < nodes.len(),
        resolves_at(nodes[index], target),
        first_resolution(nodes, target) == outward_edge(nodes[index]),
        forall|j: int| 0 <= j < index ==> !resolves_at(#[trigger] nodes[j], target),
    decreases nodes.len(),
{
    if resolves_at(nodes[0], target) {
        0
    } else {
        let rest = nodes.drop_first();
        let below = lemma_first_resolution_witness(rest, target);
        assert forall|j: int| 0 <= j < below + 1 implies !resolves_at(
            #[trigger] nodes[j],
            target,
        ) by {
            if j > 0 {
                assert(nodes[j] == rest[j - 1]);
            }
        }
        below + 1
    }
}

/// A row of nodes gives no resolution exactly when none of its nodes settles one.
pub proof fn lemma_first_resolution_none(nodes: Seq<Node>, target: Position)
    ensures
        first_resolution(nodes, target) is None <==> forall|i: int|
            0 <= i < nodes.len() ==> !resolves_at(#[trigger] nodes[i], target),
    decreases nodes.len(),
{
    if nodes.len() > 0 && !resolves_at(nodes[0], target) {
        let rest = nodes.drop_first();
        lemma_first_resolution_none(rest, target);
        if first_resolution(rest, target) is None {
            assert forall|i: int| 0 <= i < nodes.len() implies !resolves_at(
                #[trigger] nodes[i],
                target,
            ) by {
                if i > 0 {
                    assert(nodes[i] == rest[i - 1]);
                }
            }
        } else {
            let i = choose|i: int| 0 <= i < rest.len() && resolves_at(#[trigger] rest[i], target);
            assert(nodes[i + 1] == rest[i]);
        }
    }
}

/// A row of nodes resolves to what its first settling node refers to.
pub proof fn lemma_first_resolution_at(nodes: Seq<Node>, target: Position, index: int)
    requires
        0 <= index < nodes.len(),
        resolves_at(nodes[index], target),
        forall|j: int| 0 <= j < index ==> !resolves_at(#[trigger] nodes[j], target),
    ensures
        first_resolution(nodes, target) == outward_edge(nodes[index]),
    decreases index,
{
    if index > 0 {
        let rest = nodes.drop_first();
        assert(rest[index - 1] == nodes[index]);
        assert forall|j: int| 0 <= j < index - 1 implies !resolves_at(
            #[trigger] rest[j],
            target,
        ) by {
            assert(rest[j] == nodes[j + 1]);
        }
        lemma_first_resolution_at(rest, target, index - 1);
    }
}

/// Resolution is correct. When some node of `tree` stands at `target` and refers to another
/// node, and every such node refers to a node at `declaration`, then resolving `target`
/// gives `declaration`: the place of the node referred to, not that of the node at `target`.
pub proof fn lemma_resolve_use_site(tree: Node, target: Position, declaration: Position)
    requires
        exists|i: int|
            0 <= i < preorder(tree).len() && resolves_at(#[trigger] preorder(tree)[i], target),
        forall|i: int|
            0 <= i < preorder(tree).len() && resolves_at(#[trigger] preorder(tree)[i], target)
                ==> outward_edge(preorder(tree)[i]) == Some(declaration),
    ensures
        resolve(tree, target) == Some(declaration),
{
    lemma_first_resolution_none(preorder(tree), target);
    let first = lemma_first_resolution_witness(preorder(tree), target);
}

/// Where several nodes stand at `target`, the first in document order that refers to
/// another node decides.
pub proof fn lemma_resolve_first_wins(tree: Node, target: Position, index: int)
    requires
        0 <= index < preorder(tree).len(),
        resolves_at(preorder(tree)[index], target),
        forall|j: int| 0 <= j < index ==> !resolves_at(#[trigger] preorder(tree)[j], target),
    ensures
        resolve(tree, target) == outward_edge(preorder(tree)[index]),
{
    lemma_first_resolution_at(preorder(tree), target, index);
}

/// What a resolution returns is the far end of an edge: some node of `tree` stands at
/// `target`, refers to a node other than itself, and that node stands at the place returned.
pub proof fn lemma_resolve_sound(tree: Node, target: Position)
    requires
        resolve(tree, target) is Some,
    ensures
        exists|i: int|
            0 <= i < preorder(tree).len() && stands_at(#[trigger] preorder(tree)[i], target)
                && preorder(tree)[i].reference is Some
                && !preorder(tree)[i].reference.unwrap().to_self
                && preorder(tree)[i].reference.unwrap().location == resolve(tree, target),
{
    let first = lemma_first_resolution_witness(preorder(tree), target);
}

/// There is no target exactly when no node of `tree` stands at `target` and refers to
/// another node that has a place in a file: so for a place where nothing stands, and for a
/// declaration, which refers to nothing or to itself.
pub proof fn lemma_no_target(tree: Node, target: Position)
    ensures
        resolve(tree, target) is None <==> forall|i: int|
            0 <= i < preorder(tree).len() ==> !resolves_at(#[trigger] preorder(tree)[i], target),
{
    lemma_first_resolution_none(preorder(tree), target);
}

/// A declaration resolves to nothing: where every node of `tree` that stands at `target`
/// refers to nothing or to itself, there is no target.
pub proof fn lemma_no_target_at_declaration(tree: Node, target: Position)
    requires
        forall|i: int|
            0 <= i < preorder(tree).len() && stands_at(#[trigger] preorder(tree)[i], target) ==> (
            preorder(tree)[i].reference is None || preorder(tree)[i].reference.unwrap().to_self),
    ensures
        resolve(tree, target) is None,
{
    lemma_first_resolution_none(preorder(tree), target);
}

/// Walks `entity` and its descendants in document order and returns what the first node
/// that stands at `target` and refers to another node refers to. A node that stands there
/// without such a reference does not end the walk.
pub fn visitor_children_for_reference(entity: &TreeNode, target: &SourceLocation) -> (found: Option<
    SourceLocation,
>)
    ensures
        position_of(found) == resolve(entity@, target@),
    decreases entity,
{
    if is_same_target(entity, target) {
        if let Some(location) = get_reference_location_from_entity(entity) {
            return Some(location.clone());
        }
    }
    proof {
        lemma_view(entity);
        lemma_first_resolution_concat(seq![entity@], preorder_all(entity@.children), target@);
        assert(first_resolution(seq![entity@].drop_first(), target@) is None);
    }
    let mut i: usize = 0;
    while i < entity.children.len()
        invariant
            0 <= i <= entity.children.len(),
            entity@.children.len() == entity.children.len(),
            resolve(entity@, target@) == first_resolution(
                preorder_all(entity@.children),
                target@,
            ),
            first_resolution(preorder_all(entity@.children.take(i as int)), target@) is None,
        decreases entity.children.len() - i,
    {
        let found = visitor_children_for_reference(&entity.children[i], target);
        proof {
            let kids = entity@.children;
            lemma_view(entity);
            lemma_preorder_all_step(kids, i as int);
            lemma_first_resolution_concat(
                preorder_all(kids.take(i as int)),
                preorder(kids[i as int]),
                target@,
            );
            if found is Some {
                assert(kids =~= kids.take(i + 1) + kids.skip(i + 1));
                lemma_preorder_all_concat(kids.take(i + 1), kids.skip(i + 1));
                lemma_first_resolution_concat(
                    preorder_all(kids.take(i + 1)),
                    preorder_all(kids.skip(i + 1)),
                    target@,
                );
            }
        }
        if found.is_some() {
            return found;
        }
        i += 1;
    }
    proof {
        assert(entity@.children.take(i as int) =~= entity@.children);
    }
    None
}

/// Resolves `target` in `tree`: the location of the declaration that the identifier there
/// refers to, or `NoTarget` when no node at `target` refers to another node. A declaration
/// refers to nothing but itself: at its place there is no target.
pub fn get_reference_location(tree: &TreeNode, target: &SourceLocation) -> (resolved: Result<
    SourceLocation,
    CianaError,
>)
    ensures
        match resolved {
            Ok(declaration) => resolve(tree@, target@) == Some(declaration@),
            Err(error) => error is NoTarget && resolve(tree@, target@) is None,
        },
{
    match visitor_children_for_reference(tree, target) {
        Some(declaration) => Ok(declaration),
        None => Err(CianaError::NoTarget),
    }
}

} // verus!
