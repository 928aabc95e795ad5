//! What holds of every rendering: how many lines it has, and where in its
//! line each node's connector and label stand.

use vstd::prelude::*;
use crate::node::{Node, Tree};
use crate::render::{
    child_prefix, connector, forest_lines, lemma_text_single, line, lines, render,
    INDENT_EMPTY, INDENT_END, INDENT_FREE, INDENT_NODE,
};

verus! {

/// The number of nodes of `t`: itself and all below it.
pub open spec fn size(t: Tree) -> nat
    decreases t, 0nat,
{
    1 + forest_size(t.children, t.children.len())
}

/// The number of nodes of the first `n` trees of `siblings`.
pub open spec fn forest_size(siblings: Seq<Tree>, n: nat) -> nat
    decreases siblings, n,
{
    if n == 0 || n > siblings.len() {
        0
    } else {
        forest_size(siblings, (n - 1) as nat) + size(siblings[n - 1])
    }
}

/// Where a node stands in its tree. `trail` holds, for each node on the way
/// from below the root down to the node itself, whether that node is the
/// last of its parent's children: the root's trail is empty, and the
/// length of a trail is the node's depth.
pub struct Place {
    pub trail: Seq<bool>,
    pub label: Seq<char>,
}

/// The places of `t` and of all below it, parents before children and
/// children in their order, where `trail` is the trail of `t` itself.
pub open spec fn outline(t: Tree, trail: Seq<bool>) -> Seq<Place>
    decreases t, 0nat,
{
    seq![Place { trail, label: t.label }] + forest_outline(t.children, trail, t.children.len())
}

/// The places of the first `n` trees of `siblings` and of all below them,
/// where `trail` is the trail of their parent.
pub open spec fn forest_outline(siblings: Seq<Tree>, trail: Seq<bool>, n: nat) -> Seq<Place>
    decreases siblings, n,
{
    if n == 0 || n > siblings.len() {
        Seq::empty()
    } else {
        forest_outline(siblings, trail, (n - 1) as nat) + outline(
            siblings[n - 1],
            trail.push(n == siblings.len()),
        )
    }
}

/// One continuation column for each entry of `trail`: blank below a last
/// child, a vertical bar below any other.
pub open spec fn columns(trail: Seq<bool>) -> Seq<char>
    decreases trail.len(),
{
    if trail.len() == 0 {
        Seq::empty()
    } else {
        columns(trail.drop_last()) + if trail.last() {
            INDENT_EMPTY@
        } else {
            INDENT_FREE@
        }
    }
}

/// The line that shows the node at place `p`: the root's line is its label;
/// any other line has one continuation column for each node on the way
/// down to the node's parent, then the connector of the node's position
/// among its siblings, then the label.
pub open spec fn shown(p: Place) -> Seq<char> {
    if p.trail.len() == 0 {
        p.label
    } else {
        columns(p.trail.drop_last()) + connector(false, p.trail.last()) + p.label
    }
}

/// Each connector and each continuation column is four characters wide,
/// and the two connectors differ.
pub proof fn lemma_column_widths()
    ensures
        INDENT_FREE@.len() == 4,
        INDENT_NODE@.len() == 4,
        INDENT_END@.len() == 4,
        INDENT_EMPTY@.len() == 4,
        INDENT_END@ != INDENT_NODE@,
{
    reveal_strlit("│   ");
    reveal_strlit("├── ");
    reveal_strlit("└── ");
    reveal_strlit("    ");
    assert(INDENT_END@[0] != INDENT_NODE@[0]);
}

/// A tree without children renders as its label and one line break.
pub proof fn lemma_leaf_renders_label(t: Tree)
    requires
        t.children.len() == 0,
    ensures
        render(t) == t.label + seq!['\n'],
{
    let ls = lines(t, Seq::empty(), true, false);
    assert(ls =~= seq![t.label]);
    lemma_text_single(t.label);
}

/// Two nodes of the same value, which are those that `==` holds of, render
/// to the same text.
pub proof fn lemma_equal_trees_render_equally(a: Node, b: Node)
    requires
        a@ == b@,
    ensures
        render(a@) == render(b@),
{
}

/// A rendering has one line for each node, whatever the prefix and the
/// position it starts from.
pub proof fn lemma_line_count(t: Tree, prefix: Seq<char>, is_root: bool, is_last: bool)
    ensures
        lines(t, prefix, is_root, is_last).len() == size(t),
    decreases t, 0nat,
{
    lemma_forest_line_count(t.children, child_prefix(prefix, is_root, is_last), t.children.len());
}

/// The first `n` trees of `siblings` render to one line for each of their
/// nodes.
pub proof fn lemma_forest_line_count(siblings: Seq<Tree>, prefix: Seq<char>, n: nat)
    ensures
        forest_lines(siblings, prefix, n).len() == forest_size(siblings, n),
    decreases siblings, n,
{
    if n == 0 || n > siblings.len() {
    } else {
        lemma_forest_line_count(siblings, prefix, (n - 1) as nat);
        lemma_line_count(siblings[n - 1], prefix, false, n == siblings.len());
    }
}

/// The continuation columns of a trail are four characters for each of
/// its entries.
pub proof fn lemma_columns_len(trail: Seq<bool>)
    ensures
        columns(trail).len() == 4 * trail.len(),
    decreases trail.len(),
{
    lemma_column_widths();
    if trail.len() > 0 {
        lemma_columns_len(trail.drop_last());
    }
}

/// In the line of a node that is not the root, the connector follows
/// `depth - 1` columns of four characters, where `depth` is the length of
/// the node's trail, and the label starts four characters times `depth`
/// into the line. The connector is that of a last child exactly if the
/// node is the last of its parent's children.
pub proof fn lemma_shown_layout(p: Place)
    requires
        p.trail.len() > 0,
    ensures
        shown(p).len() == 4 * p.trail.len() + p.label.len(),
        shown(p).subrange(4 * (p.trail.len() - 1), 4 * (p.trail.len() as int)) == connector(
            false,
            p.trail.last(),
        ),
        shown(p).subrange(4 * (p.trail.len() as int), shown(p).len() as int) == p.label,
        p.trail.last() <==> shown(p).subrange(
            4 * (p.trail.len() - 1),
            4 * (p.trail.len() as int),
        ) == INDENT_END@,
        !p.trail.last() <==> shown(p).subrange(
            4 * (p.trail.len() - 1),
            4 * (p.trail.len() as int),
        ) == INDENT_NODE@,
{
    lemma_column_widths();
    lemma_columns_len(p.trail.drop_last());
    let d = p.trail.len() as int;
    assert(shown(p).subrange(4 * (d - 1), 4 * d) =~= connector(false, p.trail.last()));
    assert(shown(p).subrange(4 * d, shown(p).len() as int) =~= p.label);
}

/// The outline of a tree has one place for each node. The first is that of
/// the tree itself; all others lie deeper.
pub proof fn lemma_outline(t: Tree, trail: Seq<bool>)
    ensures
        outline(t, trail).len() == size(t),
        outline(t, trail)[0] == (Place { trail, label: t.label }),
        forall|i: int|
            0 < i < size(t) ==> (#[trigger] outline(t, trail)[i]).trail.len() > trail.len(),
    decreases t, 0nat,
{
    lemma_forest_outline(t.children, trail, t.children.len());
}

/// The outline of the first `n` trees of `siblings` has one place for each
/// of their nodes, all of them deeper than the parent.
pub proof fn lemma_forest_outline(siblings: Seq<Tree>, trail: Seq<bool>, n: nat)
    ensures
        forest_outline(siblings, trail, n).len() == forest_size(siblings, n),
        forall|i: int|
            0 <= i < forest_size(siblings, n) ==> (#[trigger] forest_outline(
                siblings,
                trail,
                n,
            )[i]).trail.len() > trail.len(),
    decreases siblings, n,
{
    if n == 0 || n > siblings.len() {
    } else {
        lemma_forest_outline(siblings, trail, (n - 1) as nat);
        lemma_outline(siblings[n - 1], trail.push(n == siblings.len()));
    }
}

/// The lines of a rendering that starts at the root are the lines that
/// show the places of the outline, one by one.
pub proof fn lemma_render_shows_outline(t: Tree)
    ensures
        lines(t, Seq::empty(), true, false).len() == outline(t, Seq::empty()).len(),
        forall|i: int|
            0 <= i < size(t) ==> #[trigger] lines(t, Seq::empty(), true, false)[i] == shown(
                outline(t, Seq::empty())[i],
            ),
{
    lemma_line_count(t, Seq::empty(), true, false);
    lemma_lines_shown(t, Seq::empty(), true, false, Seq::empty());
}

/// The lines of a rendering are the lines that show the places of the
/// outline, one by one. The rendering may start at the root, or at a node
/// with a trail, with the continuation columns of its parent's trail as
/// prefix.
pub proof fn lemma_lines_shown(
    t: Tree,
    prefix: Seq<char>,
    is_root: bool,
    is_last: bool,
    trail: Seq<bool>,
)
    requires
        is_root ==> trail.len() == 0,
        !is_root ==> trail.len() > 0 && trail.last() == is_last && prefix == columns(
            trail.drop_last(),
        ),
    ensures
        lines(t, prefix, is_root, is_last).len() == outline(t, trail).len(),
        forall|i: int|
            0 <= i < lines(t, prefix, is_root, is_last).len() ==> #[trigger] lines(
                t,
                prefix,
                is_root,
                is_last,
            )[i] == shown(outline(t, trail)[i]),
    decreases t, 0nat,
{
    let below = child_prefix(prefix, is_root, is_last);
    assert(below == columns(trail)) by {
        if is_root {
            assert(trail =~= Seq::empty());
        }
    }
    lemma_forest_shown(t.children, below, t.children.len(), trail);
    assert(line(t.label, prefix, is_root, is_last) == shown(Place { trail, label: t.label }));
}

/// The lines of the rendering of the first `n` trees of `siblings` are the
/// lines that show the places of their outline, one by one, where `trail`
/// is the trail of their parent and its continuation columns the prefix.
pub proof fn lemma_forest_shown(siblings: Seq<Tree>, prefix: Seq<char>, n: nat, trail: Seq<bool>)
    requires
        prefix == columns(trail),
    ensures
        forest_lines(siblings, prefix, n).len() == forest_outline(siblings, trail, n).len(),
        forall|i: int|
            0 <= i < forest_lines(siblings, prefix, n).len() ==> #[trigger] forest_lines(
                siblings,
                prefix,
                n,
            )[i] == shown(forest_outline(siblings, trail, n)[i]),
    decreases siblings, n,
{
    if n == 0 || n > siblings.len() {
    } else {
        let last = n == siblings.len();
        assert(trail.push(last).drop_last() =~= trail);
        lemma_forest_shown(siblings, prefix, (n - 1) as nat, trail);
        lemma_lines_shown(siblings[n - 1], prefix, false, last, trail.push(last));
    }
}

} // verus!
