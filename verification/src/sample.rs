//! Values that describe themselves as trees: a recursive map of keys, a
//! plain string, and a key with its values.

use vstd::prelude::*;
use crate::convert::ToTreeView;
use crate::node::{Node, Tree};

verus! {

/// A key with the maps below it, in display order.
#[derive(Debug, PartialEq, Eq, PartialOrd, Ord)]
pub struct TestMap {
    pub key: String,
    pub value: Vec<TestMap>,
}

/// One leaf for each of `values`, in order.
pub open spec fn leaves(values: Seq<String>) -> Seq<Tree> {
    Seq::new(values.len(), |i: int| Tree::leaf(values[i]@))
}

/// One tree for each entry: the entry's key above one leaf for each of its
/// values.
pub open spec fn groups(entries: Seq<(String, Vec<String>)>) -> Seq<Tree> {
    Seq::new(
        entries.len(),
        |i: int| Tree { label: entries[i].0@, children: leaves(entries[i].1@) },
    )
}

/// A node with the given label above one leaf for each of `values`.
pub fn group_node(label: &String, values: &Vec<String>) -> (n: Node)
    ensures
        n@ == (Tree { label: label@, children: leaves(values@) }),
{
    let mut children: Vec<Node> = Vec::new();
    let mut i: usize = 0;
    while i < values.len()
        invariant
            i <= values@.len(),
            children@.len() == i,
            forall|j: int| 0 <= j < i ==> (#[trigger] children@[j])@ == Tree::leaf(values@[j]@),
        decreases values@.len() - i,
    {
        let leaf = values[i].to_node();
        children.push(leaf);
        i += 1;
    }
    let n = Node { node: label.clone(), children };
    assert(n@.children =~= leaves(values@));
    n
}

impl View for TestMap {
    type V = Tree;

    /// The key above the values of the maps below it.
    open spec fn view(&self) -> Tree
        decreases self,
    {
        Tree {
            label: self.key@,
            children: Seq::new(
                self.value@.len(),
                |i: int|
                    if 0 <= i < self.value@.len() {
                        self.value@[i]@
                    } else {
                        Tree::leaf(Seq::empty())
                    },
            ),
        }
    }
}

impl ToTreeView for TestMap {
    /// The node of the same shape, with the keys as labels.
    fn to_node(&self) -> (n: Node)
        ensures
            n@ == self@,
        decreases self,
    {
        let mut children: Vec<Node> = Vec::new();
        let mut i: usize = 0;
        while i < self.value.len()
            invariant
                i <= self.value@.len(),
                children@.len() == i,
                forall|j: int| 0 <= j < i ==> (#[trigger] children@[j])@ == self.value@[j]@,
            decreases self.value@.len() - i,
        {
            let child = self.value[i].to_node();
            children.push(child);
            i += 1;
        }
        let n = Node { node: self.key.clone(), children };
        assert(n@.children =~= self@.children);
        n
    }
}

impl Clone for TestMap {
    /// A copy of this map and of all below it.
    fn clone(&self) -> (m: Self)
        ensures
            m@ == self@,
        decreases self,
    {
        let mut value: Vec<TestMap> = Vec::new();
        let mut i: usize = 0;
        while i < self.value.len()
            invariant
                i <= self.value@.len(),
                value@.len() == i,
                forall|j: int| 0 <= j < i ==> (#[trigger] value@[j])@ == self.value@[j]@,
            decreases self.value@.len() - i,
        {
            let c = self.value[i].clone();
            value.push(c);
            i += 1;
        }
        let m = TestMap { key: self.key.clone(), value };
        assert(m@.children =~= self@.children);
        m
    }
}

impl ToTreeView for String {
    /// A leaf with the string as label.
    fn to_node(&self) -> (n: Node)
        ensures
            n@ == Tree::leaf(self@),
    {
        let n = Node { node: self.clone(), children: Vec::new() };
        assert(n@.children =~= Seq::empty());
        n
    }
}

impl ToTreeView for (&String, &Vec<String>) {
    /// The key above one leaf for each of the values.
    fn to_node(&self) -> (n: Node)
        ensures
            n@ == (Tree { label: self.0@, children: leaves(self.1@) }),
    {
        group_node(self.0, self.1)
    }
}

impl ToTreeView for (String, Vec<(String, Vec<String>)>) {
    /// The label above one group for each of the entries, in their order.
    fn to_node(&self) -> (n: Node)
        ensures
            n@ == (Tree { label: self.0@, children: groups(self.1@) }),
    {
        let mut children: Vec<Node> = Vec::new();
        let mut i: usize = 0;
        while i < self.1.len()
            invariant
                i <= self.1@.len(),
                children@.len() == i,
                forall|j: int| 0 <= j < i ==> (#[trigger] children@[j])@ == groups(self.1@)[j],
            decreases self.1@.len() - i,
        {
            let child = group_node(&self.1[i].0, &self.1[i].1);
            children.push(child);
            i += 1;
        }
        let n = Node { node: self.0.clone(), children };
        assert(n@.children =~= groups(self.1@));
        n
    }
}

} // verus!
