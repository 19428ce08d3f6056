//! Syntax trees as the analysis reads them, and their mathematical view.

use vstd::prelude::*;
use crate::location::{position_of, Position, SourceLocation};

verus! {

/// What a node of the tree is.
#[derive(Clone, Copy, Debug, PartialEq, Eq, Structural)]
pub enum NodeKind {
    /// A function: crossing it ends file scope.
    Function,
    /// Any other declaration.
    Declaration,
    /// A use of a declared name.
    Reference,
    /// Anything else.
    Other,
}

/// The mathematical value of a [`Reference`].
pub struct Edge {
    pub to_self: bool,
    pub location: Option<Position>,
}

/// The mathematical value of a [`TreeNode`].
pub struct Node {
    pub kind: NodeKind,
    pub location: Option<Position>,
    pub reference: Option<Edge>,
    pub children: Seq<Node>,
}

/// The edge from a node to the node that declares what it names.
#[derive(Debug)]
pub struct Reference {
    /// Whether the edge leads back to the node that carries it, as that of a declaration
    /// does. Such an edge is of no use: it neither resolves a target nor marks a use.
    pub to_self: bool,
    /// Where the node at the far end is, if it has a place in a file.
    pub location: Option<SourceLocation>,
}

/// One node of a parsed translation unit.
#[derive(Debug)]
pub struct TreeNode {
    pub kind: NodeKind,
    /// Where the node stands; `None` for a node that the parser made up and for one without
    /// a file behind it.
    pub location: Option<SourceLocation>,
    /// The node that this one refers to, if it refers to any.
    pub reference: Option<Reference>,
    /// The nodes below this one, from left to right.
    pub children: Vec<TreeNode>,
}

impl View for Reference {
    type V = Edge;

    open spec fn view(&self) -> Edge {
        Edge { to_self: self.to_self, location: position_of(self.location) }
    }
}

/// The mathematical value of a tree.
pub open spec fn node_of(tree: TreeNode) -> Node
    decreases tree,
{
    Node {
        kind: tree.kind,
        location: position_of(tree.location),
        reference: match tree.reference {
            Some(r) => Some(r@),
            None => None,
        },
        children: Seq::new(
            tree.children.len() as nat,
            |i: int|
                if 0 <= i < tree.children.len() {
                    node_of(tree.children[i])
                } else {
                    arbitrary()
                },
        ),
    }
}

impl View for TreeNode {
    type V = Node;

    open spec fn view(&self) -> Node {
        node_of(*self)
    }
}

/// The nodes of a tree in document order: a node, then its children's subtrees from left to
/// right.
pub open spec fn preorder(node: Node) -> Seq<Node>
    decreases node, 1nat,
{
    seq![node] + preorder_all(node.children)
}

/// The nodes of a row of trees in document order.
pub open spec fn preorder_all(nodes: Seq<Node>) -> Seq<Node>
    decreases nodes, 0nat,
{
    if nodes.len() == 0 {
        Seq::empty()
    } else {
        preorder_all(nodes.drop_last()) + preorder(nodes.last())
    }
}

/// Whether `node` stands at `target`: it has a location, and file name, line and column all
/// agree with the target's.
pub open spec fn stands_at(node: Node, target: Position) -> bool {
    node.location == Some(target)
}

/// Where the node that `node` refers to stands, when `node` refers to a node other than
/// itself and that node has a place in a file. An edge from a node to itself, as a
/// declaration has it, leads nowhere: it is read as no reference at all.
pub open spec fn outward_edge(node: Node) -> Option<Position> {
    match node.reference {
        Some(edge) => if edge.to_self {
            None
        } else {
            edge.location
        },
        None => None,
    }
}

/// Tells whether `entity` stands at `target`.
pub fn is_same_target(entity: &TreeNode, target: &SourceLocation) -> (same: bool)
    ensures
        same == stands_at(entity@, target@),
{
    match &entity.location {
        Some(location) => *location == *target,
        None => false,
    }
}

/// The location of the node that `entity` refers to, unless it refers to nothing, to itself,
/// or to a node without a place in a file.
pub fn get_reference_location_from_entity(entity: &TreeNode) -> (location: Option<&SourceLocation>)
    ensures
        match location {
            Some(l) => outward_edge(entity@) == Some(l@),
            None => outward_edge(entity@) is None,
        },
{
    match &entity.reference {
        Some(reference) => {
            if reference.to_self {
                None
            } else {
                reference.location.as_ref()
            }
        },
        None => None,
    }
}

/// The value of a node is made of the values of its parts.
pub proof fn lemma_view(node: &TreeNode)
    ensures
        node@.kind == node.kind,
        node@.location == position_of(node.location),
        node@.reference == match node.reference {
            Some(r) => Some(r@),
            None => None,
        },
        node@.children.len() == node.children.len(),
        forall|i: int|
            0 <= i < node.children.len() ==> node@.children[i] == (#[trigger] node.children[i])@,
{
}

/// The nodes of two rows of trees, one after the other, are the nodes of the joined row.
pub proof fn lemma_preorder_all_concat(left: Seq<Node>, right: Seq<Node>)
    ensures
        preorder_all(left + right) == preorder_all(left) + preorder_all(right),
    decreases right.len(),
{
    if right.len() == 0 {
        assert(left + right =~= left);
        assert(preorder_all(left) + preorder_all(right) =~= preorder_all(left));
    } else {
        assert((left + right).drop_last() =~= left + right.drop_last());
        assert((left + right).last() == right.last());
        lemma_preorder_all_concat(left, right.drop_last());
        assert(preorder_all(left + right) =~= preorder_all(left) + preorder_all(right));
    }
}

/// The nodes of the first `count + 1` trees of a row are those of the first `count`, then
/// those of the next tree.
pub proof fn lemma_preorder_all_step(nodes: Seq<Node>, count: int)
    requires
        0 <= count < nodes.len(),
    ensures
        preorder_all(nodes.take(count + 1)) == preorder_all(nodes.take(count)) + preorder(
            nodes[count],
        ),
{
    assert(nodes.take(count + 1).drop_last() =~= nodes.take(count));
    assert(nodes.take(count + 1).last() == nodes[count]);
}

} // verus!
