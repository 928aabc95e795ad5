use tree_view::convert::{ToTreeView, TreeView};
use tree_view::node::Node;
use tree_view::render::{INDENT_EMPTY, INDENT_END, INDENT_FREE, INDENT_NODE};
use tree_view::sample::{group_node, TestMap};

fn leaf(label: &str) -> Node {
    Node { node: String::from(label), children: Vec::new() }
}

fn branch(label: &str, children: Vec<Node>) -> Node {
    Node { node: String::from(label), children }
}

fn map(key: &str, value: Vec<TestMap>) -> TestMap {
    TestMap { key: String::from(key), value }
}

fn nested() -> Node {
    branch(
        "Root",
        vec![
            leaf("Leaf1"),
            branch(
                "Node1",
                vec![leaf("Leaf2"), branch("Node2", vec![leaf("Leaf3"), leaf("Leaf4")])],
            ),
        ],
    )
}

fn count(n: &Node) -> usize {
    let mut total = 1;
    for c in n.children.iter() {
        total += count(c);
    }
    total
}

#[test]
fn connectors_are_four_columns_wide() {
    assert_eq!(INDENT_FREE, "\u{2502}   ");
    assert_eq!(INDENT_NODE, "\u{251c}\u{2500}\u{2500} ");
    assert_eq!(INDENT_END, "\u{2514}\u{2500}\u{2500} ");
    assert_eq!(INDENT_EMPTY, "    ");
    assert_eq!(INDENT_FREE.chars().count(), 4);
    assert_eq!(INDENT_NODE.chars().count(), 4);
    assert_eq!(INDENT_END.chars().count(), 4);
    assert_eq!(INDENT_EMPTY.chars().count(), 4);
}

#[test]
fn new_node_is_empty() {
    let n = Node::new();
    assert_eq!(n.node, "");
    assert!(n.children.is_empty());
}

#[test]
fn default_node_is_empty() {
    let n = Node::default();
    assert_eq!(n, Node::new());
}

#[test]
fn from_keeps_label_and_children() {
    let n = Node::from(nested());
    assert_eq!(n, nested());
}

#[test]
fn insert_appends_child_to_the_node() {
    let mut n = leaf("Root");
    n.insert(leaf("A"));
    n.insert(leaf("B"));
    assert_eq!(n, branch("Root", vec![leaf("A"), leaf("B")]));
    assert_eq!(n.print_node("", true, false), "Root\n├── A\n└── B\n");
}

#[test]
fn clone_is_equal() {
    let n = nested();
    assert_eq!(n.clone(), n);
}

#[test]
fn nodes_order_by_label_then_children() {
    assert!(leaf("A") < leaf("B"));
    assert!(leaf("A") < branch("A", vec![leaf("A")]));
    assert_ne!(leaf("A"), leaf("B"));
}

#[test]
fn single_node_renders_label_and_newline() {
    assert_eq!(leaf("only").print_node("", true, false), "only\n");
    assert_eq!(leaf("").print_node("", true, false), "\n");
}

#[test]
fn root_without_children() {
    let t = map("Root", Vec::new());
    assert_eq!(TreeView::new(&t).print(), "Root\n");
}

#[test]
fn nested_example() {
    let expected = "Root\n\
├── Leaf1\n\
└── Node1\n    \
    ├── Leaf2\n    \
    └── Node2\n        \
        ├── Leaf3\n        \
        └── Leaf4\n";
    assert_eq!(nested().print_node("", true, false), expected);
}

#[test]
fn three_equal_leaves() {
    let t = map("Root", vec![map("Leaf", vec![]), map("Leaf", vec![]), map("Leaf", vec![])]);
    assert_eq!(TreeView::new(&t).print(), "Root\n├── Leaf\n├── Leaf\n└── Leaf\n");
}

#[test]
fn vertical_bar_continues_below_inner_nodes() {
    let t = map(
        "Root",
        vec![
            map("Leaf1", vec![]),
            map(
                "Node1",
                vec![map("Leaf2", vec![]), map("Node2", vec![map("Leaf3", vec![]), map("Leaf4", vec![])])],
            ),
            map("Node3", vec![map("Leaf5", vec![])]),
            map("Node4", vec![map("Leaf6", vec![])]),
        ],
    );
    let expected = [
        "Root",
        "├── Leaf1",
        "├── Node1",
        "│   ├── Leaf2",
        "│   └── Node2",
        "│       ├── Leaf3",
        "│       └── Leaf4",
        "├── Node3",
        "│   └── Leaf5",
        "└── Node4",
        "    └── Leaf6",
        "",
    ]
    .join("\n");
    assert_eq!(TreeView::new(&t).print(), expected);
}

#[test]
fn last_child_with_prefix() {
    let n = branch("X", vec![leaf("Y")]);
    assert_eq!(n.print_node("ab", false, true), "ab└── X\nab    └── Y\n");
}

#[test]
fn inner_child_with_prefix() {
    let n = branch("X", vec![leaf("Y"), leaf("Z")]);
    assert_eq!(n.print_node("ab", false, false), "ab├── X\nab│   ├── Y\nab│   └── Z\n");
}

#[test]
fn root_ignores_prefix_and_position() {
    let n = branch("X", vec![leaf("Y")]);
    assert_eq!(n.clone().print_node("ab", true, false), "X\n└── Y\n");
    assert_eq!(n.print_node("ab", true, true), "X\n└── Y\n");
}

#[test]
fn render_into_appends() {
    let mut out = String::from(">>");
    nested().render_into("", true, false, &mut out);
    assert_eq!(out, format!(">>{}", nested().print_node("", true, false)));
}

#[test]
fn one_line_per_node() {
    let n = nested();
    let text = n.clone().print_node("", true, false);
    assert_eq!(count(&n), 7);
    assert_eq!(text.lines().count(), 7);
    assert_eq!(text.matches('\n').count(), 7);
}

#[test]
fn label_starts_at_four_times_depth() {
    let text = nested().print_node("", true, false);
    let depths = [0usize, 1, 1, 2, 2, 3, 3];
    let labels = ["Root", "Leaf1", "Node1", "Leaf2", "Node2", "Leaf3", "Leaf4"];
    let lasts = [false, false, true, false, true, false, true];
    for (i, l) in text.lines().enumerate() {
        let chars: Vec<char> = l.chars().collect();
        assert_eq!(chars.len(), 4 * depths[i] + labels[i].len());
        let label: String = chars[4 * depths[i]..].iter().collect();
        assert_eq!(label, labels[i]);
        if depths[i] > 0 {
            let c: String = chars[4 * (depths[i] - 1)..4 * depths[i]].iter().collect();
            assert_eq!(c, if lasts[i] { INDENT_END } else { INDENT_NODE });
        }
    }
}

#[test]
fn equal_trees_render_equally() {
    let a = nested();
    let b = nested();
    assert_eq!(a, b);
    assert_eq!(a.clone().print_node("", true, false), b.print_node("", true, false));
    assert_eq!(a.clone().print_node("", true, false), a.print_node("", true, false));
}

#[test]
fn view_keeps_value_and_node() {
    let t = map("Root", vec![map("A", vec![map("B", vec![])])]);
    let v = TreeView::new(&t);
    assert_eq!(v.original, &t);
    assert_eq!(v.root, branch("Root", vec![branch("A", vec![leaf("B")])]));
    assert_eq!(v.to_text(), "Root\n└── A\n    └── B\n");
    assert_eq!(v.to_text(), v.print());
}

#[test]
fn test_map_converts_structurally() {
    let t = map("k", vec![map("a", vec![]), map("b", vec![map("c", vec![])])]);
    assert_eq!(t.to_node(), branch("k", vec![leaf("a"), branch("b", vec![leaf("c")])]));
    assert_eq!(t.clone(), t);
}

#[test]
fn string_converts_to_leaf() {
    assert_eq!(String::from("text").to_node(), leaf("text"));
}

#[test]
fn key_with_values_converts_to_group() {
    let key = String::from("Key0");
    let values = vec![String::from("V0"), String::from("V1")];
    let expected = branch("Key0", vec![leaf("V0"), leaf("V1")]);
    assert_eq!((&key, &values).to_node(), expected);
    assert_eq!(group_node(&key, &values), expected);
    assert_eq!(group_node(&key, &Vec::new()), leaf("Key0"));
}

#[test]
fn labelled_entries_convert_in_order() {
    let entries = vec![
        (String::from("Key1"), vec![String::from("Value1")]),
        (String::from("Key0"), vec![String::from("Value0"), String::from("Value00")]),
        (String::from("Key2"), Vec::new()),
    ];
    let labelled = (String::from("forklift"), entries);
    let v = TreeView::new(&labelled);
    let expected = [
        "forklift",
        "├── Key1",
        "│   └── Value1",
        "├── Key0",
        "│   ├── Value0",
        "│   └── Value00",
        "└── Key2",
        "",
    ]
    .join("\n");
    assert_eq!(v.to_text(), expected);
}

#[test]
fn label_with_line_break_is_kept_as_it_is() {
    let n = branch("a\nb", vec![leaf("c")]);
    assert_eq!(n.print_node("", true, false), "a\nb\n└── c\n");
}

struct Countdown(u8);

impl ToTreeView for Countdown {
    fn to_node(&self) -> Node {
        let mut n = leaf(&self.0.to_string());
        if self.0 > 0 {
            n.insert(Countdown(self.0 - 1).to_node());
        }
        n
    }
}

#[test]
fn caller_type_becomes_renderable() {
    let c = Countdown(2);
    let v = TreeView::new(&c);
    assert_eq!(v.original.0, 2);
    assert_eq!(v.print(), "2\n└── 1\n    └── 0\n");
}

#[test]
fn equality_is_structural() {
    assert_eq!(nested(), nested());
    assert_ne!(branch("Root", vec![leaf("A"), leaf("B")]), branch("Root", vec![leaf("B"), leaf("A")]));
    assert_ne!(branch("Root", vec![leaf("A")]), branch("Root", vec![leaf("A"), leaf("A")]));
    assert_ne!(branch("Root", vec![branch("A", vec![leaf("x")])]), branch("Root", vec![leaf("A")]));
    assert_ne!(leaf("a"), leaf("b"));
}
