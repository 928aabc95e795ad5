//! The renderer: one line per node, depth first, parents before children.

use vstd::prelude::*;
use vstd::string::StringExecFns;
use crate::node::{Node, Tree};

verus! {

/// Continuation column below a node that has further siblings.
pub const INDENT_FREE: &'static str = "│   ";

/// Connector of a node that has further siblings.
pub const INDENT_NODE: &'static str = "├── ";

/// Connector of the last node among its siblings.
pub const INDENT_END: &'static str = "└── ";

/// Continuation column below the last node among its siblings.
pub const INDENT_EMPTY: &'static str = "    ";

/// The connector in front of a label: none for the root, else by position.
pub open spec fn connector(is_root: bool, is_last: bool) -> Seq<char> {
    if is_root {
        Seq::empty()
    } else if is_last {
        INDENT_END@
    } else {
        INDENT_NODE@
    }
}

/// The line of one node, without its line break. The root's line is its
/// label alone, whatever the prefix.
pub open spec fn line(label: Seq<char>, prefix: Seq<char>, is_root: bool, is_last: bool) -> Seq<
    char,
> {
    if is_root {
        label
    } else {
        prefix + connector(is_root, is_last) + label
    }
}

/// The prefix handed to the children of a node.
pub open spec fn child_prefix(prefix: Seq<char>, is_root: bool, is_last: bool) -> Seq<char> {
    if is_root {
        Seq::empty()
    } else if is_last {
        prefix + INDENT_EMPTY@
    } else {
        prefix + INDENT_FREE@
    }
}

/// The lines of `t` and of all below it, in display order.
pub open spec fn lines(t: Tree, prefix: Seq<char>, is_root: bool, is_last: bool) -> Seq<Seq<char>>
    decreases t, 0nat,
{
    seq![line(t.label, prefix, is_root, is_last)] + forest_lines(
        t.children,
        child_prefix(prefix, is_root, is_last),
        t.children.len(),
    )
}

/// The lines of the first `n` trees of the siblings `siblings`, each with
/// all below it. Only the tree at the last index counts as last.
pub open spec fn forest_lines(siblings: Seq<Tree>, prefix: Seq<char>, n: nat) -> Seq<Seq<char>>
    decreases siblings, n,
{
    if n == 0 || n > siblings.len() {
        Seq::empty()
    } else {
        forest_lines(siblings, prefix, (n - 1) as nat) + lines(
            siblings[n - 1],
            prefix,
            false,
            n == siblings.len(),
        )
    }
}

/// The text of a sequence of lines: each line followed by a line break.
pub open spec fn text(ls: Seq<Seq<char>>) -> Seq<char>
    decreases ls.len(),
{
    if ls.len() == 0 {
        Seq::empty()
    } else {
        text(ls.drop_last()) + ls.last() + seq!['\n']
    }
}

/// The rendering of `t` as the root of the display.
pub open spec fn render(t: Tree) -> Seq<char> {
    text(lines(t, Seq::empty(), true, false))
}

/// The text of two sequences of lines, one after the other, is the text of
/// the first followed by the text of the second.
pub proof fn lemma_text_concat(a: Seq<Seq<char>>, b: Seq<Seq<char>>)
    ensures
        text(a + b) == text(a) + text(b),
    decreases b.len(),
{
    if b.len() == 0 {
        assert(a + b =~= a);
        assert(text(a) + text(b) =~= text(a));
    } else {
        lemma_text_concat(a, b.drop_last());
        assert((a + b).drop_last() =~= a + b.drop_last());
        assert((a + b).last() == b.last());
        assert(text(a + b) =~= text(a) + text(b));
    }
}

/// The text of a single line is the line and a line break.
pub proof fn lemma_text_single(l: Seq<char>)
    ensures
        text(seq![l]) == l + seq!['\n'],
{
    assert(seq![l].drop_last() =~= Seq::<Seq<char>>::empty());
    assert(text(seq![l].drop_last()) =~= Seq::<char>::empty());
    assert(text(seq![l]) =~= l + seq!['\n']);
}

impl Node {
    /// Appends to `out` the lines of this node and of all below it.
    pub fn render_into(&self, pre: &str, first: bool, last: bool, out: &mut String)
        ensures
            final(out)@ == old(out)@ + text(lines(self@, pre@, first, last)),
        decreases self,
    {
        let mut below: String = String::new();
        if first {
        } else if last {
            out.append(pre);
            out.append(INDENT_END);
            below.append(pre);
            below.append(INDENT_EMPTY);
        } else {
            out.append(pre);
            out.append(INDENT_NODE);
            below.append(pre);
            below.append(INDENT_FREE);
        }
        out.append(self.node.as_str());
        out.append("\n");
        proof {
            reveal_strlit("\n");
            lemma_text_single(line(self@.label, pre@, first, last));
            assert("\n"@ =~= seq!['\n']);
            assert(below@ =~= child_prefix(pre@, first, last));
            assert(out@ =~= old(out)@ + text(seq![line(self@.label, pre@, first, last)]));
        }
        let n: usize = self.children.len();
        let mut i: usize = 0;
        while i < n
            invariant
                i <= n,
                n == self.children@.len(),
                n == self@.children.len(),
                below@ == child_prefix(pre@, first, last),
                out@ == old(out)@ + text(seq![line(self@.label, pre@, first, last)]) + text(
                    forest_lines(self@.children, below@, i as nat),
                ),
            decreases n - i,
        {
            let ghost before = out@;
            self.children[i].render_into(below.as_str(), false, i == n - 1, out);
            proof {
                let done = forest_lines(self@.children, below@, i as nat);
                let next = lines(self@.children[i as int], below@, false, i == n - 1);
                assert(forest_lines(self@.children, below@, (i + 1) as nat) == done + next);
                lemma_text_concat(done, next);
                assert(out@ =~= old(out)@ + text(seq![line(self@.label, pre@, first, last)])
                    + text(forest_lines(self@.children, below@, (i + 1) as nat)));
            }
            i += 1;
        }
        proof {
            lemma_text_concat(
                seq![line(self@.label, pre@, first, last)],
                forest_lines(self@.children, below@, n as nat),
            );
            assert(out@ =~= old(out)@ + text(lines(self@, pre@, first, last)));
        }
    }

    /// The lines of this node and of all below it, as one string. With
    /// `first` the node is the root: its line is its label alone and `pre`
    /// is not used. Else `pre` stands before its connector, which `last`
    /// chooses.
    pub fn print_node(self, pre: &str, first: bool, last: bool) -> (out: String)
        ensures
            out@ == text(lines(self@, pre@, first, last)),
    {
        let mut out: String = String::new();
        self.render_into(pre, first, last, &mut out);
        out
    }
}

} // verus!
