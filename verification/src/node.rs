//! The node model: a label and an ordered sequence of child nodes.

use vstd::prelude::*;

verus! {

/// The mathematical value of a node: its label and the values of its
/// children, in display order.
pub struct Tree {
    pub label: Seq<char>,
    pub children: Seq<Tree>,
}

impl Tree {
    /// The tree with the given label and no children.
    pub open spec fn leaf(label: Seq<char>) -> Tree {
        Tree { label, children: Seq::empty() }
    }

    /// This tree with `child` added behind its children.
    pub open spec fn with_child(self, child: Tree) -> Tree {
        Tree { label: self.label, children: self.children.push(child) }
    }
}

/// One position in the display tree. Each node owns its children.
#[derive(Debug, Eq, PartialOrd, Ord)]
pub struct Node {
    pub node: String,
    pub children: Vec<Node>,
}

impl View for Node {
    type V = Tree;

    open spec fn view(&self) -> Tree
        decreases self,
    {
        Tree {
            label: self.node@,
            children: Seq::new(
                self.children@.len(),
                |i: int|
                    if 0 <= i < self.children@.len() {
                        self.children@[i]@
                    } else {
                        Tree::leaf(Seq::empty())
                    },
            ),
        }
    }
}

impl Node {
    /// The node with an empty label and no children.
    pub fn new() -> (n: Self)
        ensures
            n@ == Tree::leaf(Seq::empty()),
    {
        let n = Node { node: String::new(), children: Vec::new() };
        assert(n@.children =~= Seq::empty());
        n
    }

    /// A node with the label and the children of `n`.
    pub fn from(n: Node) -> (m: Self)
        ensures
            m == n,
    {
        Node { node: n.node, children: n.children }
    }

    /// Adds `n` behind the children of this node. The label and the
    /// children that were there stay as they were.
    pub fn insert(&mut self, n: Node)
        ensures
            final(self)@ == old(self)@.with_child(n@),
            final(self).node == old(self).node,
            final(self).children@ == old(self).children@.push(n),
    {
        self.children.push(n);
        assert(self@.children =~= old(self)@.children.push(n@));
    }
}

impl Clone for Node {
    /// A copy of this node and of all below it.
    fn clone(&self) -> (n: Self)
        ensures
            n@ == self@,
        decreases self,
    {
        let mut children: Vec<Node> = Vec::new();
        let mut i: usize = 0;
        while i < self.children.len()
            invariant
                i <= self.children@.len(),
                children@.len() == i,
                forall|j: int| 0 <= j < i ==> (#[trigger] children@[j])@ == self.children@[j]@,
            decreases self.children@.len() - i,
        {
            let c = self.children[i].clone();
            children.push(c);
            i += 1;
        }
        let n = Node { node: self.node.clone(), children };
        assert(n@.children =~= self@.children);
        n
    }
}

impl PartialEq for Node {
    /// Whether the two nodes have equal labels and, one by one, equal
    /// children.
    fn eq(&self, other: &Node) -> (r: bool)
        decreases self,
    {
        if !(self.node == other.node) {
            assert(self@.label != other@.label);
            return false;
        }
        if self.children.len() != other.children.len() {
            assert(self@.children.len() != other@.children.len());
            return false;
        }
        let mut i: usize = 0;
        while i < self.children.len()
            invariant
                i <= self.children@.len(),
                self.children@.len() == other.children@.len(),
                forall|j: int| 0 <= j < i ==> self.children@[j]@ == other.children@[j]@,
            decreases self.children@.len() - i,
        {
            if !self.children[i].eq(&other.children[i]) {
                assert(self@.children[i as int] != other@.children[i as int]);
                return false;
            }
            i += 1;
        }
        assert(self@.children =~= other@.children);
        true
    }
}

impl vstd::std_specs::cmp::PartialEqSpecImpl for Node {
    open spec fn obeys_eq_spec() -> bool {
        true
    }

    open spec fn eq_spec(&self, other: &Node) -> bool {
        self@ == other@
    }
}

impl Default for Node {
    fn default() -> (n: Self)
        ensures
            n@ == Tree::leaf(Seq::empty()),
    {
        Node::new()
    }
}

} // verus!
