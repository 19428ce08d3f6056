//! Classifying the scope of a declaration: file scope, or local to a function.

use vstd::prelude::*;
use crate::location::{Position, SourceLocation};
use crate::tree::{
    is_same_target, lemma_preorder_all_concat, lemma_preorder_all_step, lemma_view, preorder,
    preorder_all, stands_at, Node, NodeKind, TreeNode,
};

verus! {

/// What a row of nodes in document order decides about `target`: `Some(true)` when a node
/// stands at `target` before any function is met, `Some(false)` when a function comes first
/// (a function that itself stands at `target` counts as met), `None` when the row holds
/// neither.
pub open spec fn scope_verdict(nodes: Seq<Node>, target: Position) -> Option<bool>
    decreases nodes.len(),
{
    if nodes.len() == 0 {
        None
    } else if nodes[0].kind == NodeKind::Function {
        Some(false)
    } else if stands_at(nodes[0], target) {
        Some(true)
    } else {
        scope_verdict(nodes.drop_first(), target)
    }
}

/// Whether the declaration at `target` has file scope: in document order a node stands at
/// `target` before the first function. A target that the tree does not hold is local.
pub open spec fn is_wide_scope(tree: Node, target: Position) -> bool {
    scope_verdict(preorder(tree), target) == Some(true)
}

/// Over two rows of nodes, one after the other, the first row decides if it can.
pub proof fn lemma_scope_verdict_concat(left: Seq<Node>, right: Seq<Node>, target: Position)
    ensures
        scope_verdict(left + right, target) == match scope_verdict(left, target) {
            Some(verdict) => Some(verdict),
            None => scope_verdict(right, target),
        },
    decreases left.len(),
{
    if left.len() == 0 {
        assert(left + right =~= right);
    } else {
        assert((left + right)[0] == left[0]);
        assert((left + right).drop_first() =~= left.drop_first() + right);
        lemma_scope_verdict_concat(left.drop_first(), right, target);
    }
}

/// Whether none of the nodes of a row up to and including the one at `index` is a function.
pub open spec fn no_function_through(nodes: Seq<Node>, index: int) -> bool {
    forall|j: int|
        0 <= j <= index && j < nodes.len() ==> (#[trigger] nodes[j]).kind != NodeKind::Function
}

/// A row of nodes finds the target in file scope exactly when one of its nodes stands at
/// `target` and neither it nor any node before it is a function.
pub proof fn lemma_scope_verdict_wide(nodes: Seq<Node>, target: Position)
    ensures
        scope_verdict(nodes, target) == Some(true) <==> exists|i: int|
            0 <= i < nodes.len() && stands_at(#[trigger] nodes[i], target) && no_function_through(
                nodes,
                i,
            ),
    decreases nodes.len(),
{
    if nodes.len() > 0 {
        let rest = nodes.drop_first();
        lemma_scope_verdict_wide(rest, target);
        if nodes[0].kind == NodeKind::Function {
            assert forall|i: int| 0 <= i < nodes.len() implies !#[trigger] no_function_through(
                nodes,
                i,
            ) by {
                assert(nodes[0].kind == NodeKind::Function);
            }
        } else if stands_at(nodes[0], target) {
            assert(no_function_through(nodes, 0));
        } else if scope_verdict(rest, target) == Some(true) {
            let i = choose|i: int|
                0 <= i < rest.len() && stands_at(#[trigger] rest[i], target) && no_function_through(
                    rest,
                    i,
                );
            assert(nodes[i + 1] == rest[i]);
            assert forall|j: int| 0 <= j <= i + 1 && j < nodes.len() implies (
            #[trigger] nodes[j]).kind != NodeKind::Function by {
                if j > 0 {
                    assert(nodes[j] == rest[j - 1]);
                }
            }
            assert(no_function_through(nodes, i + 1));
        } else {
            assert forall|i: int|
                0 <= i < nodes.len() && stands_at(
                    #[trigger] nodes[i],
                    target,
                ) implies !no_function_through(nodes, i) by {
                assert(i > 0);
                assert(rest[i - 1] == nodes[i]);
                if no_function_through(nodes, i) {
                    assert forall|j: int| 0 <= j <= i - 1 && j < rest.len() implies (
                    #[trigger] rest[j]).kind != NodeKind::Function by {
                        assert(rest[j] == nodes[j + 1]);
                    }
                    assert(no_function_through(rest, i - 1));
                }
            }
        }
    }
}

/// A declaration has file scope exactly when, in document order, a node stands at `target`
/// and neither it nor any node before it is a function. So a function that stands at the
/// target is local, and so is a target that the tree does not hold.
pub proof fn lemma_wide_scope(tree: Node, target: Position)
    ensures
        is_wide_scope(tree, target) <==> exists|i: int|
            0 <= i < preorder(tree).len() && stands_at(#[trigger] preorder(tree)[i], target)
                && no_function_through(preorder(tree), i),
{
    lemma_scope_verdict_wide(preorder(tree), target);
}

/// Walks `entity` and its descendants in document order until a function or a node at
/// `target` is met, and tells which came first: `Some(true)` for the node at `target`,
/// `Some(false)` for the function, `None` when the subtree holds neither.
pub fn visitor_children_for_global_variable(entity: &TreeNode, target: &SourceLocation) -> (verdict:
    Option<bool>)
    ensures
        verdict == scope_verdict(preorder(entity@), target@),
    decreases entity,
{
    proof {
        lemma_view(entity);
        lemma_scope_verdict_concat(seq![entity@], preorder_all(entity@.children), target@);
        assert(scope_verdict(seq![entity@].drop_first(), target@) is None);
    }
    if entity.kind == NodeKind::Function {
        return Some(false);
    }
    if is_same_target(entity, target) {
        return Some(true);
    }
    let mut i: usize = 0;
    while i < entity.children.len()
        invariant
            0 <= i <= entity.children.len(),
            entity@.children.len() == entity.children.len(),
            scope_verdict(preorder(entity@), target@) == scope_verdict(
                preorder_all(entity@.children),
                target@,
            ),
            scope_verdict(preorder_all(entity@.children.take(i as int)), target@) is None,
        decreases entity.children.len() - i,
    {
        let verdict = visitor_children_for_global_variable(&entity.children[i], target);
        proof {
            let kids = entity@.children;
            lemma_view(entity);
            lemma_preorder_all_step(kids, i as int);
            lemma_scope_verdict_concat(
                preorder_all(kids.take(i as int)),
                preorder(kids[i as int]),
                target@,
            );
            if verdict is Some {
                assert(kids =~= kids.take(i + 1) + kids.skip(i + 1));
                lemma_preorder_all_concat(kids.take(i + 1), kids.skip(i + 1));
                lemma_scope_verdict_concat(
                    preorder_all(kids.take(i + 1)),
                    preorder_all(kids.skip(i + 1)),
                    target@,
                );
            }
        }
        if verdict.is_some() {
            return verdict;
        }
        i += 1;
    }
    proof {
        assert(entity@.children.take(i as int) =~= entity@.children);
    }
    None
}

/// Tells whether the declaration at `target` has file scope in `tree`.
pub fn is_global_variable(tree: &TreeNode, target: &SourceLocation) -> (wide: bool)
    ensures
        wide == is_wide_scope(tree@, target@),
{
    match visitor_children_for_global_variable(tree, target) {
        Some(verdict) => verdict,
        None => false,
    }
}

} // verus!
