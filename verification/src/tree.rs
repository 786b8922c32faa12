//! A generic labeled tree with ordered children, and the recursive
//! box-drawing printer that renders it.

use vstd::prelude::*;
use crate::theme::{Color, Style, Theme, spec_paint};

verus! {

/// A labeled tree node. Children are exclusively owned by their parent:
/// the tree has no cycles by construction.
pub struct Node {
    /// The label printed on this node's line.
    pub text: String,
    /// The ordered children below this node.
    pub children: Vec<Node>,
}

impl Node {
    /// A node with the given label and children.
    pub fn new(text: String, children: Vec<Node>) -> (r: Node)
        ensures
            r.text == text,
            r.children == children,
    {
        Node { text, children }
    }

    /// A leaf: a node without children.
    pub fn empty(text: String) -> (r: Node)
        ensures
            r.text == text,
            r.children@ == Seq::<Node>::empty(),
    {
        Node { text, children: Vec::new() }
    }

    /// Appends one more child after the existing ones.
    pub fn add_child(&mut self, child: Node)
        ensures
            final(self).text == old(self).text,
            final(self).children@ == old(self).children@.push(child),
    {
        self.children.push(child);
    }
}

/// The rendering of one node: the painted `left` prefix, the label, a
/// newline, then the children rendered with `child` as their base prefix.
pub open spec fn spec_render(n: Node, tree: Color, style: Style, left: Seq<char>, child: Seq<
    char,
>) -> Seq<char>
    decreases n,
{
    spec_paint(tree, left) + n.text@ + seq!['\n'] + spec_render_children(
        n.children@,
        tree,
        style,
        child,
    )
}

/// The rendering of a list of siblings: every child but the last extends
/// the prefix with the branch glyph for its label and the pipe glyph for
/// its descendants; the last child extends with the edge glyph and blank
/// padding, so pipes do not continue past the final branch.
pub open spec fn spec_render_children(
    cs: Seq<Node>,
    tree: Color,
    style: Style,
    child: Seq<char>,
) -> Seq<char>
    decreases cs,
{
    if cs.len() == 0 {
        Seq::empty()
    } else if cs.len() == 1 {
        spec_render(cs[0], tree, style, child + style.edge@, child + style.last@)
    } else {
        spec_render(cs[0], tree, style, child + style.branch@, child + style.pipe@)
            + spec_render_children(cs.drop_first(), tree, style, child)
    }
}

/// Prints `item` as a box-drawing tree: each label on its own line,
/// middle children prefixed with branch-and-pipe glyphs, the last child
/// with edge-and-blank glyphs, exactly as `spec_render` states.
pub fn print(item: &Node, theme: &Theme, style: &Style) -> (r: String)
    ensures
        r@ == spec_render(*item, theme.tree, *style, Seq::empty(), Seq::empty()),
{
    let empty_left = String::new();
    let empty_child = String::new();
    let r = render_node(item, theme.tree, style, empty_left.as_str(), empty_child.as_str());
    r
}

fn render_node(n: &Node, tree: Color, style: &Style, left: &str, child: &str) -> (r: String)
    ensures
        r@ == spec_render(*n, tree, *style, left@, child@),
    decreases *n,
{
    let mut out = tree.paint(left);
    out.append(n.text.as_str());
    out.append("\n");
    proof {
        reveal_strlit("\n");
        assert("\n"@ =~= seq!['\n']);
    }
    let count = n.children.len();
    proof {
        assert(n.children@.skip(0) =~= n.children@);
        if count == 0 {
            assert(spec_render_children(n.children@, tree, *style, child@) =~= Seq::<
                char,
            >::empty());
            assert(out@ =~= spec_render(*n, tree, *style, left@, child@));
        }
    }
    let mut i: usize = 0;
    while i < count
        invariant
            count == n.children@.len(),
            0 <= i <= count,
            i < count ==> out@ + spec_render_children(
                n.children@.skip(i as int),
                tree,
                *style,
                child@,
            ) == spec_render(*n, tree, *style, left@, child@),
            i == count ==> out@ == spec_render(*n, tree, *style, left@, child@),
        decreases count - i,
    {
        proof {
            assert(n.children@.skip(i as int)[0] == n.children@[i as int]);
            assert(n.children@.skip(i as int).drop_first() =~= n.children@.skip(i + 1));
        }
        let sub = if i + 1 == count {
            let mut sub_left = String::new();
            sub_left.append(child);
            sub_left.append(style.edge.as_str());
            let mut sub_child = String::new();
            sub_child.append(child);
            sub_child.append(style.last.as_str());
            proof {
                assert(sub_left@ =~= child@ + style.edge@);
                assert(sub_child@ =~= child@ + style.last@);
                assert(decreases_to!(*n => n.children@[i as int]));
            }
            render_node(&n.children[i], tree, style, sub_left.as_str(), sub_child.as_str())
        } else {
            let mut sub_left = String::new();
            sub_left.append(child);
            sub_left.append(style.branch.as_str());
            let mut sub_child = String::new();
            sub_child.append(child);
            sub_child.append(style.pipe.as_str());
            proof {
                assert(sub_left@ =~= child@ + style.branch@);
                assert(sub_child@ =~= child@ + style.pipe@);
                assert(decreases_to!(*n => n.children@[i as int]));
            }
            render_node(&n.children[i], tree, style, sub_left.as_str(), sub_child.as_str())
        };
        out.append(sub.as_str());
        i = i + 1;
        proof {
            if i < count {
                assert(n.children@.skip(i - 1).len() > 1);
            } else {
                assert(n.children@.skip(i - 1).len() == 1);
            }
        }
    }
    out
}

/// The mathematical shape of a node: its label's characters and its
/// children's shapes.
#[verifier::ext_equal]
pub struct NodeView {
    /// The label.
    pub text: Seq<char>,
    /// The children, in order.
    pub children: Seq<NodeView>,
}

/// The shape of a built node.
pub open spec fn node_view(n: Node) -> NodeView
    decreases n,
{
    NodeView {
        text: n.text@,
        children: Seq::new(
            n.children@.len(),
            |i: int|
                if 0 <= i < n.children@.len() {
                    node_view(n.children@[i])
                } else {
                    NodeView { text: Seq::empty(), children: Seq::empty() }
                },
        ),
    }
}

/// The shape of a node indexes into its children's shapes.
pub proof fn lemma_node_view_children(n: Node)
    ensures
        node_view(n).text == n.text@,
        node_view(n).children.len() == n.children@.len(),
        forall|i: int|
            0 <= i < n.children@.len() ==> node_view(n).children[i] == node_view(
                #[trigger] n.children@[i],
            ),
{
}

/// The labels of the tree in preorder: each node's own label before its
/// children's, children in list order.
pub open spec fn spec_preorder_labels(n: Node) -> Seq<Seq<char>>
    decreases n,
{
    seq![n.text@] + spec_preorder_labels_children(n.children@)
}

/// The preorder labels of a list of siblings.
pub open spec fn spec_preorder_labels_children(cs: Seq<Node>) -> Seq<Seq<char>>
    decreases cs,
{
    if cs.len() == 0 {
        Seq::empty()
    } else {
        spec_preorder_labels(cs[0]) + spec_preorder_labels_children(cs.drop_first())
    }
}

/// The painted prefix each preorder node's line begins with.
pub open spec fn spec_render_prefixes(
    n: Node,
    tree: Color,
    style: Style,
    left: Seq<char>,
    child: Seq<char>,
) -> Seq<Seq<char>>
    decreases n,
{
    seq![spec_paint(tree, left)] + spec_render_prefixes_children(n.children@, tree, style, child)
}

/// The painted prefixes of a list of siblings' preorder nodes.
pub open spec fn spec_render_prefixes_children(
    cs: Seq<Node>,
    tree: Color,
    style: Style,
    child: Seq<char>,
) -> Seq<Seq<char>>
    decreases cs,
{
    if cs.len() == 0 {
        Seq::empty()
    } else if cs.len() == 1 {
        spec_render_prefixes(cs[0], tree, style, child + style.edge@, child + style.last@)
    } else {
        spec_render_prefixes(cs[0], tree, style, child + style.branch@, child + style.pipe@)
            + spec_render_prefixes_children(cs.drop_first(), tree, style, child)
    }
}

/// Text shaped as one line per entry: the i-th prefix, the i-th label,
/// then a newline.
pub open spec fn lines_shape(prefixes: Seq<Seq<char>>, labels: Seq<Seq<char>>) -> Seq<char>
    decreases labels.len(),
{
    if labels.len() == 0 || prefixes.len() == 0 {
        Seq::empty()
    } else {
        prefixes[0] + labels[0] + seq!['\n'] + lines_shape(
            prefixes.drop_first(),
            labels.drop_first(),
        )
    }
}

/// Lines of concatenated lists split at the boundary, when the first
/// halves pair up.
proof fn lemma_lines_shape_concat(
    a: Seq<Seq<char>>,
    b: Seq<Seq<char>>,
    c: Seq<Seq<char>>,
    d: Seq<Seq<char>>,
)
    requires
        a.len() == c.len(),
    ensures
        lines_shape(a + b, c + d) == lines_shape(a, c) + lines_shape(b, d),
    decreases a.len(),
{
    if a.len() == 0 {
        assert(a + b =~= b);
        assert(c + d =~= d);
        assert(lines_shape(a, c) + lines_shape(b, d) =~= lines_shape(b, d));
    } else {
        lemma_lines_shape_concat(a.drop_first(), b, c.drop_first(), d);
        assert((a + b).drop_first() =~= a.drop_first() + b);
        assert((c + d).drop_first() =~= c.drop_first() + d);
        assert((a + b)[0] == a[0] && (c + d)[0] == c[0]);
        assert(a[0] + c[0] + seq!['\n'] + (lines_shape(a.drop_first(), c.drop_first())
            + lines_shape(b, d)) =~= (a[0] + c[0] + seq!['\n'] + lines_shape(
            a.drop_first(),
            c.drop_first(),
        )) + lines_shape(b, d));
    }
}

/// A node has as many prefixes as preorder labels.
proof fn lemma_prefix_label_lens(n: Node, tree: Color, style: Style, left: Seq<char>, child: Seq<
    char,
>)
    ensures
        spec_render_prefixes(n, tree, style, left, child).len() == spec_preorder_labels(n).len(),
    decreases n,
{
    lemma_prefix_label_lens_children(n.children@, tree, style, child);
}

proof fn lemma_prefix_label_lens_children(cs: Seq<Node>, tree: Color, style: Style, child: Seq<
    char,
>)
    ensures
        spec_render_prefixes_children(cs, tree, style, child).len()
            == spec_preorder_labels_children(cs).len(),
    decreases cs,
{
    if cs.len() == 1 {
        lemma_prefix_label_lens(cs[0], tree, style, child + style.edge@, child + style.last@);
        assert(cs.drop_first() =~= Seq::<Node>::empty());
        assert(spec_preorder_labels_children(cs.drop_first()) =~= Seq::<Seq<char>>::empty());
        assert(spec_preorder_labels_children(cs) =~= spec_preorder_labels(cs[0]));
    } else if cs.len() > 1 {
        lemma_prefix_label_lens(cs[0], tree, style, child + style.branch@, child + style.pipe@);
        lemma_prefix_label_lens_children(cs.drop_first(), tree, style, child);
    }
}

/// Law: the rendering is one line per node — the render of a tree is the
/// concatenation, over its nodes in preorder, of that node's painted
/// prefix, its label, and a newline.
pub proof fn lemma_render_lines(n: Node, tree: Color, style: Style, left: Seq<char>, child: Seq<
    char,
>)
    ensures
        spec_render(n, tree, style, left, child) == lines_shape(
            spec_render_prefixes(n, tree, style, left, child),
            spec_preorder_labels(n),
        ),
    decreases n,
{
    lemma_render_lines_children(n.children@, tree, style, child);
    let ps = spec_render_prefixes(n, tree, style, left, child);
    let ls = spec_preorder_labels(n);
    let pcs = spec_render_prefixes_children(n.children@, tree, style, child);
    let lcs = spec_preorder_labels_children(n.children@);
    assert(ps.drop_first() =~= pcs);
    assert(ls.drop_first() =~= lcs);
    assert(ps[0] == spec_paint(tree, left) && ls[0] == n.text@);
    assert(spec_render(n, tree, style, left, child) =~= lines_shape(ps, ls));
}

proof fn lemma_render_lines_children(cs: Seq<Node>, tree: Color, style: Style, child: Seq<char>)
    ensures
        spec_render_children(cs, tree, style, child) == lines_shape(
            spec_render_prefixes_children(cs, tree, style, child),
            spec_preorder_labels_children(cs),
        ),
    decreases cs,
{
    if cs.len() == 1 {
        lemma_render_lines(cs[0], tree, style, child + style.edge@, child + style.last@);
        assert(cs.drop_first() =~= Seq::<Node>::empty());
        assert(spec_preorder_labels_children(cs.drop_first()) =~= Seq::<Seq<char>>::empty());
        assert(spec_preorder_labels_children(cs) =~= spec_preorder_labels(cs[0]));
    } else if cs.len() > 1 {
        lemma_render_lines(cs[0], tree, style, child + style.branch@, child + style.pipe@);
        lemma_render_lines_children(cs.drop_first(), tree, style, child);
        lemma_prefix_label_lens(cs[0], tree, style, child + style.branch@, child + style.pipe@);
        lemma_lines_shape_concat(
            spec_render_prefixes(cs[0], tree, style, child + style.branch@, child + style.pipe@),
            spec_render_prefixes_children(cs.drop_first(), tree, style, child),
            spec_preorder_labels(cs[0]),
            spec_preorder_labels_children(cs.drop_first()),
        );
    }
}

/// No newline occurs in the sequence.
pub open spec fn newline_free(s: Seq<char>) -> bool {
    forall|i: int| 0 <= i < s.len() ==> s[i] != '\n'
}

proof fn lemma_nf_concat(a: Seq<char>, b: Seq<char>)
    requires
        newline_free(a),
        newline_free(b),
    ensures
        newline_free(a + b),
{
    assert forall|i: int| 0 <= i < (a + b).len() implies (a + b)[i] != '\n' by {
        if i < a.len() {
            assert((a + b)[i] == a[i]);
        } else {
            assert((a + b)[i] == b[i - a.len()]);
        }
    }
}

proof fn lemma_nf_decimal(n: int)
    ensures
        newline_free(crate::strutil::spec_decimal(n)),
    decreases n,
{
    if n > 9 {
        lemma_nf_decimal(n / 10);
        lemma_nf_concat(
            crate::strutil::spec_decimal(n / 10),
            seq![crate::strutil::spec_digit(n % 10)],
        );
        assert(crate::strutil::spec_decimal(n / 10).push(crate::strutil::spec_digit(n % 10))
            =~= crate::strutil::spec_decimal(n / 10) + seq![crate::strutil::spec_digit(n % 10)]);
    }
}

/// Painting keeps a newline-free text newline-free: the escape
/// sequences hold only brackets, digits, separators and the escape
/// character.
proof fn lemma_nf_paint(c: Color, s: Seq<char>)
    requires
        newline_free(s),
    ensures
        newline_free(spec_paint(c, s)),
{
    match c {
        Color::Unset => {},
        Color::Rgb(r, g, b) => {
            lemma_nf_decimal(r as int);
            lemma_nf_decimal(g as int);
            lemma_nf_decimal(b as int);
            lemma_nf_concat(
                seq!['\u{1b}', '[', '3', '8', ';', '2', ';'],
                crate::strutil::spec_decimal(r as int),
            );
            lemma_nf_concat(
                seq!['\u{1b}', '[', '3', '8', ';', '2', ';'] + crate::strutil::spec_decimal(
                    r as int,
                ),
                seq![';'],
            );
            lemma_nf_concat(
                seq!['\u{1b}', '[', '3', '8', ';', '2', ';'] + crate::strutil::spec_decimal(
                    r as int,
                ) + seq![';'],
                crate::strutil::spec_decimal(g as int),
            );
            lemma_nf_concat(
                seq!['\u{1b}', '[', '3', '8', ';', '2', ';'] + crate::strutil::spec_decimal(
                    r as int,
                ) + seq![';'] + crate::strutil::spec_decimal(g as int),
                seq![';'],
            );
            lemma_nf_concat(
                seq!['\u{1b}', '[', '3', '8', ';', '2', ';'] + crate::strutil::spec_decimal(
                    r as int,
                ) + seq![';'] + crate::strutil::spec_decimal(g as int) + seq![';'],
                crate::strutil::spec_decimal(b as int),
            );
            lemma_nf_concat(
                seq!['\u{1b}', '[', '3', '8', ';', '2', ';'] + crate::strutil::spec_decimal(
                    r as int,
                ) + seq![';'] + crate::strutil::spec_decimal(g as int) + seq![';']
                    + crate::strutil::spec_decimal(b as int),
                seq!['m'],
            );
            lemma_nf_concat(crate::theme::spec_rgb_prefix(r, g, b), s);
            lemma_nf_concat(crate::theme::spec_rgb_prefix(r, g, b) + s, seq!['\u{1b}', '[', '0', 'm']);
        },
    }
}

/// Whether the style's glyphs are newline-free.
pub open spec fn style_newline_free(style: Style) -> bool {
    &&& newline_free(style.pipe@)
    &&& newline_free(style.branch@)
    &&& newline_free(style.edge@)
    &&& newline_free(style.last@)
}

/// Law: under newline-free glyphs, every line's prefix is newline-free —
/// with `lemma_render_lines`, the render therefore splits at its
/// newlines into exactly one line per preorder node, the i-th ending
/// with the i-th preorder label.
pub proof fn lemma_render_prefixes_newline_free(
    n: Node,
    tree: Color,
    style: Style,
    left: Seq<char>,
    child: Seq<char>,
)
    requires
        style_newline_free(style),
        newline_free(left),
        newline_free(child),
    ensures
        forall|i: int|
            0 <= i < spec_render_prefixes(n, tree, style, left, child).len() ==> newline_free(
                #[trigger] spec_render_prefixes(n, tree, style, left, child)[i],
            ),
    decreases n,
{
    lemma_nf_paint(tree, left);
    lemma_render_prefixes_newline_free_children(n.children@, tree, style, child);
    let ps = spec_render_prefixes(n, tree, style, left, child);
    let pcs = spec_render_prefixes_children(n.children@, tree, style, child);
    assert forall|i: int| 0 <= i < ps.len() implies newline_free(#[trigger] ps[i]) by {
        if i > 0 {
            assert(ps[i] == pcs[i - 1]);
        }
    }
}

proof fn lemma_render_prefixes_newline_free_children(
    cs: Seq<Node>,
    tree: Color,
    style: Style,
    child: Seq<char>,
)
    requires
        style_newline_free(style),
        newline_free(child),
    ensures
        forall|i: int|
            0 <= i < spec_render_prefixes_children(cs, tree, style, child).len() ==> newline_free(
                #[trigger] spec_render_prefixes_children(cs, tree, style, child)[i],
            ),
    decreases cs,
{
    if cs.len() == 1 {
        lemma_nf_concat(child, style.edge@);
        lemma_nf_concat(child, style.last@);
        lemma_render_prefixes_newline_free(
            cs[0],
            tree,
            style,
            child + style.edge@,
            child + style.last@,
        );
        let whole = spec_render_prefixes_children(cs, tree, style, child);
        let same = spec_render_prefixes(cs[0], tree, style, child + style.edge@, child
            + style.last@);
        assert forall|i: int| 0 <= i < whole.len() implies newline_free(#[trigger] whole[i]) by {
            assert(whole[i] == same[i]);
            assert(newline_free(same[i]));
        }
    } else if cs.len() > 1 {
        lemma_nf_concat(child, style.branch@);
        lemma_nf_concat(child, style.pipe@);
        lemma_render_prefixes_newline_free(
            cs[0],
            tree,
            style,
            child + style.branch@,
            child + style.pipe@,
        );
        lemma_render_prefixes_newline_free_children(cs.drop_first(), tree, style, child);
        let whole = spec_render_prefixes_children(cs, tree, style, child);
        let head = spec_render_prefixes(cs[0], tree, style, child + style.branch@, child
            + style.pipe@);
        let rest = spec_render_prefixes_children(cs.drop_first(), tree, style, child);
        assert forall|i: int| 0 <= i < whole.len() implies newline_free(#[trigger] whole[i]) by {
            if i < head.len() {
                assert(whole[i] == head[i]);
            } else {
                assert(whole[i] == rest[i - head.len()]);
            }
        }
    }
}

} // verus!
