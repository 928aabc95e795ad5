//! Conversion of a value into the node that describes it, and the pairing
//! of a value with that node.

use vstd::prelude::*;
use crate::node::Node;
use crate::render::render;

verus! {

/// A value that can describe itself as a tree of labels.
pub trait ToTreeView {
    /// The node that describes this value. The value is left as it is.
    fn to_node(&self) -> Node;
}

/// A value together with the node that was made from it.
#[derive(Debug, PartialEq, Eq, PartialOrd, Ord)]
pub struct TreeView<'a, T> where T: ToTreeView {
    pub original: &'a T,
    pub root: Node,
}

impl<'a, T> TreeView<'a, T> where T: ToTreeView {
    /// Whether the node is one that the value's conversion gives for it.
    pub open spec fn wf(&self) -> bool {
        call_ensures(T::to_node, (self.original,), self.root)
    }

    /// Pairs `t` with the node that its conversion gives for it.
    pub fn new(t: &'a T) -> (v: Self)
        ensures
            v.original == t,
            v.wf(),
    {
        TreeView { original: t, root: t.to_node() }
    }

    /// The rendering of the node, with the node as root.
    pub fn print(self) -> (out: String)
        ensures
            out@ == render(self.root@),
    {
        self.root.print_node("", true, false)
    }

    /// The rendering of the node, with the node as root; the pair stays
    /// usable.
    pub fn to_text(&self) -> (out: String)
        ensures
            out@ == render(self.root@),
    {
        let mut out: String = String::new();
        self.root.render_into("", true, false, &mut out);
        out
    }
}

} // verus!
