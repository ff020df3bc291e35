//! The abstract syntax tree built by the parser and consumed by the evaluator.

use vstd::prelude::*;
use crate::units::Position;

verus! {

/// A node in the syntax tree of one code block.
///
/// `(plus 1 2)` is represented as an anonymous root whose only child is a
/// named node `plus` with two childless named children `1` and `2`.  The
/// `starts_at` of a named node is the position of its identifier token, not
/// of its whole subtree.
#[derive(Debug)]
pub enum SyntaxNode {
    NamedNode { identifier: String, starts_at: Position, children: Vec<SyntaxNode> },
    AnonymousNode { starts_at: Position, children: Vec<SyntaxNode> },
}

/// The mathematical model of a [`SyntaxNode`]: identifiers become character
/// sequences and child vectors become sequences.
pub enum SyntaxNodeV {
    Named { identifier: Seq<char>, starts_at: Position, children: Seq<SyntaxNodeV> },
    Anonymous { starts_at: Position, children: Seq<SyntaxNodeV> },
}

impl SyntaxNodeV {
    /// The children of the node, whichever variant it is.
    pub open spec fn children(self) -> Seq<SyntaxNodeV> {
        match self {
            SyntaxNodeV::Named { children, .. } => children,
            SyntaxNodeV::Anonymous { children, .. } => children,
        }
    }

    /// The recorded position of the node.
    pub open spec fn starts_at(self) -> Position {
        match self {
            SyntaxNodeV::Named { starts_at, .. } => starts_at,
            SyntaxNodeV::Anonymous { starts_at, .. } => starts_at,
        }
    }
}

pub open spec fn node_view(n: SyntaxNode) -> SyntaxNodeV
    decreases n,
{
    match n {
        SyntaxNode::NamedNode { identifier, starts_at, children } => SyntaxNodeV::Named {
            identifier: identifier@,
            starts_at,
            children: nodes_view(children@),
        },
        SyntaxNode::AnonymousNode { starts_at, children } => SyntaxNodeV::Anonymous {
            starts_at,
            children: nodes_view(children@),
        },
    }
}

pub open spec fn nodes_view(s: Seq<SyntaxNode>) -> Seq<SyntaxNodeV>
    decreases s,
{
    if s.len() == 0 {
        Seq::empty()
    } else {
        nodes_view(s.drop_last()).push(node_view(s.last()))
    }
}

impl View for SyntaxNode {
    type V = SyntaxNodeV;

    open spec fn view(&self) -> SyntaxNodeV {
        node_view(*self)
    }
}

impl Clone for SyntaxNode {
    /// A clone has the same view as the original.
    fn clone(&self) -> (r: Self)
        ensures
            r@ == self@,
        decreases *self,
    {
        match self {
            SyntaxNode::NamedNode { identifier, starts_at, children } => SyntaxNode::NamedNode {
                identifier: identifier.clone(),
                starts_at: *starts_at,
                children: SyntaxNode::clone_nodes(children),
            },
            SyntaxNode::AnonymousNode { starts_at, children } => SyntaxNode::AnonymousNode {
                starts_at: *starts_at,
                children: SyntaxNode::clone_nodes(children),
            },
        }
    }
}

impl PartialEq for SyntaxNode {
    /// Two nodes are equal when their views are: same shape, same
    /// identifiers, same positions, same children.
    fn eq(&self, other: &SyntaxNode) -> (r: bool)
        decreases *self,
    {
        match (self, other) {
            (
                SyntaxNode::NamedNode { identifier: i1, starts_at: s1, children: c1 },
                SyntaxNode::NamedNode { identifier: i2, starts_at: s2, children: c2 },
            ) => {
                let r = *i1 == *i2 && *s1 == *s2 && SyntaxNode::nodes_eq(c1, c2);
                assert(r == (self@ == other@)) by {
                    assert(self@ == SyntaxNodeV::Named {
                        identifier: i1@,
                        starts_at: *s1,
                        children: nodes_view(c1@),
                    });
                    assert(other@ == SyntaxNodeV::Named {
                        identifier: i2@,
                        starts_at: *s2,
                        children: nodes_view(c2@),
                    });
                };
                r
            },
            (
                SyntaxNode::AnonymousNode { starts_at: s1, children: c1 },
                SyntaxNode::AnonymousNode { starts_at: s2, children: c2 },
            ) => {
                let r = *s1 == *s2 && SyntaxNode::nodes_eq(c1, c2);
                assert(r == (self@ == other@)) by {
                    assert(self@ == SyntaxNodeV::Anonymous {
                        starts_at: *s1,
                        children: nodes_view(c1@),
                    });
                    assert(other@ == SyntaxNodeV::Anonymous {
                        starts_at: *s2,
                        children: nodes_view(c2@),
                    });
                };
                r
            },
            (SyntaxNode::NamedNode { .. }, SyntaxNode::AnonymousNode { .. }) => {
                assert(self@ is Named && other@ is Anonymous);
                false
            },
            (SyntaxNode::AnonymousNode { .. }, SyntaxNode::NamedNode { .. }) => {
                assert(self@ is Anonymous && other@ is Named);
                false
            },
        }
    }
}

impl vstd::std_specs::cmp::PartialEqSpecImpl for SyntaxNode {
    open spec fn obeys_eq_spec() -> bool {
        true
    }

    open spec fn eq_spec(&self, other: &SyntaxNode) -> bool {
        self@ == other@
    }
}

/// `nodes_view` maps `node_view` over the sequence, element by element.
pub proof fn lemma_nodes_view(s: Seq<SyntaxNode>)
    ensures
        nodes_view(s).len() == s.len(),
        forall|i: int| 0 <= i < s.len() ==> nodes_view(s)[i] == node_view(s[i]),
    decreases s,
{
    if s.len() > 0 {
        lemma_nodes_view(s.drop_last());
    }
}

/// Appending a node to a vector appends its view to the vector's view.
pub proof fn lemma_nodes_view_push(s: Seq<SyntaxNode>, x: SyntaxNode)
    ensures
        nodes_view(s.push(x)) == nodes_view(s).push(node_view(x)),
{
    assert(s.push(x).drop_last() =~= s);
}

impl SyntaxNode {
    /// Whether this node is still anonymous (has no identifier).
    pub fn is_anonymous(&self) -> (r: bool)
        ensures
            r == (self@ is Anonymous),
    {
        matches!(*self, SyntaxNode::AnonymousNode { .. })
    }

    /// Appends a child node, keeping the identifier and position as they are.
    pub fn add_child(self, child: SyntaxNode) -> (r: SyntaxNode)
        ensures
            r@ == match self@ {
                SyntaxNodeV::Named { identifier, starts_at, children } => SyntaxNodeV::Named {
                    identifier,
                    starts_at,
                    children: children.push(child@),
                },
                SyntaxNodeV::Anonymous { starts_at, children } => SyntaxNodeV::Anonymous {
                    starts_at,
                    children: children.push(child@),
                },
            },
    {
        match self {
            SyntaxNode::AnonymousNode { starts_at, children } => {
                let mut children = children;
                proof {
                    lemma_nodes_view_push(children@, child);
                }
                children.push(child);
                SyntaxNode::AnonymousNode { starts_at, children }
            },
            SyntaxNode::NamedNode { identifier, starts_at, children } => {
                let mut children = children;
                proof {
                    lemma_nodes_view_push(children@, child);
                }
                children.push(child);
                SyntaxNode::NamedNode { identifier, starts_at, children }
            },
        }
    }

    /// Compares two vectors of nodes element by element.
    pub fn nodes_eq(a: &Vec<SyntaxNode>, b: &Vec<SyntaxNode>) -> (r: bool)
        ensures
            r == (nodes_view(a@) == nodes_view(b@)),
        decreases *a,
    {
        proof {
            lemma_nodes_view(a@);
            lemma_nodes_view(b@);
        }
        if a.len() != b.len() {
            return false;
        }
        let mut i: usize = 0;
        while i < a.len()
            invariant
                a@.len() == b@.len(),
                i <= a@.len(),
                nodes_view(a@).len() == a@.len(),
                nodes_view(b@).len() == b@.len(),
                forall|j: int| 0 <= j < a@.len() ==> nodes_view(a@)[j] == node_view(a@[j]),
                forall|j: int| 0 <= j < b@.len() ==> nodes_view(b@)[j] == node_view(b@[j]),
                forall|j: int| 0 <= j < i ==> node_view(a@[j]) == node_view(b@[j]),
            decreases a@.len() - i,
        {
            if !(a[i] == b[i]) {
                assert(nodes_view(a@)[i as int] != nodes_view(b@)[i as int]);
                return false;
            }
            i = i + 1;
        }
        proof {
            assert(nodes_view(a@) =~= nodes_view(b@));
        }
        true
    }

    /// Clones a whole vector of nodes, child by child.
    fn clone_nodes(nodes: &Vec<SyntaxNode>) -> (r: Vec<SyntaxNode>)
        ensures
            nodes_view(r@) == nodes_view(nodes@),
        decreases *nodes,
    {
        let mut out: Vec<SyntaxNode> = Vec::new();
        let mut i: usize = 0;
        proof {
            lemma_nodes_view(nodes@);
        }
        while i < nodes.len()
            invariant
                i <= nodes@.len(),
                nodes_view(out@).len() == i,
                forall|j: int| 0 <= j < i ==> nodes_view(out@)[j] == node_view(nodes@[j]),
            decreases nodes@.len() - i,
        {
            let ghost prev = out@;
            let c = nodes[i].clone();
            proof {
                lemma_nodes_view_push(prev, c);
                lemma_nodes_view(prev.push(c));
            }
            out.push(c);
            i = i + 1;
        }
        proof {
            lemma_nodes_view(nodes@);
            lemma_nodes_view(out@);
            assert(nodes_view(out@) =~= nodes_view(nodes@));
        }
        out
    }

    /// Replaces the node by a named node with the given identifier and
    /// position, carrying over the children already accumulated.
    pub fn with_identifier(self, new_identifier: &str, identifier_starts_at: Position) -> (r:
        SyntaxNode)
        ensures
            r@ == (SyntaxNodeV::Named {
                identifier: new_identifier@,
                starts_at: identifier_starts_at,
                children: self@.children(),
            }),
    {
        match self {
            SyntaxNode::AnonymousNode { children, .. } => SyntaxNode::NamedNode {
                identifier: new_identifier.to_owned(),
                children,
                starts_at: identifier_starts_at,
            },
            SyntaxNode::NamedNode { children, .. } => SyntaxNode::NamedNode {
                identifier: new_identifier.to_owned(),
                children,
                starts_at: identifier_starts_at,
            },
        }
    }
}

} // verus!
